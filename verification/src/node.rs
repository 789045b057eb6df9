//! The nodes of an address space.

use vstd::prelude::*;
use crate::data_value::DataValue;
use crate::localized_text::{LocalizedText, LocalizedTextView};
use crate::node_id::{NodeId, NodeIdView};
use crate::qualified_name::{QualifiedName, QualifiedNameView};

verus! {

/// The classes of nodes.
#[derive(Debug, Clone, Copy, PartialEq, Eq, Structural, Hash)]
pub enum NodeClass {
    Unspecified,
    Object,
    Variable,
    Method,
    ObjectType,
    VariableType,
    ReferenceType,
    DataType,
    View,
}

/// The bit that stands for `class` in a mask of node classes.
pub open spec fn class_bit(class: NodeClass) -> u32 {
    match class {
        NodeClass::Unspecified => 0,
        NodeClass::Object => 1,
        NodeClass::Variable => 2,
        NodeClass::Method => 4,
        NodeClass::ObjectType => 8,
        NodeClass::VariableType => 16,
        NodeClass::ReferenceType => 32,
        NodeClass::DataType => 64,
        NodeClass::View => 128,
    }
}

impl NodeClass {
    /// The bit that stands for the class in a mask of node classes.
    pub fn bit(&self) -> (r: u32)
        ensures
            r == class_bit(*self),
    {
        match self {
            NodeClass::Unspecified => 0,
            NodeClass::Object => 1,
            NodeClass::Variable => 2,
            NodeClass::Method => 4,
            NodeClass::ObjectType => 8,
            NodeClass::VariableType => 16,
            NodeClass::ReferenceType => 32,
            NodeClass::DataType => 64,
            NodeClass::View => 128,
        }
    }
}

/// What every node has, whatever its class.
pub trait Node {
    /// The node in terms of its attributes.
    spec fn attributes(&self) -> Base;

    fn node_class(&self) -> (r: NodeClass)
        ensures
            r == self.attributes().node_class,
    ;

    fn node_id(&self) -> (r: NodeId)
        ensures
            r@ == self.attributes().node_id@,
    ;

    fn browse_name(&self) -> (r: QualifiedName)
        ensures
            r@ == self.attributes().browse_name@,
    ;

    fn display_name(&self) -> (r: LocalizedText)
        ensures
            r@ == self.attributes().display_name@,
    ;

    fn description(&self) -> (r: Option<LocalizedText>)
        ensures
            r is Some == self.attributes().description is Some,
            r matches Some(text) ==> text@ == self.attributes().description->0@,
    ;

    fn write_mask(&self) -> (r: Option<u32>)
        ensures
            r == self.attributes().write_mask,
    ;

    fn user_write_mask(&self) -> (r: Option<u32>)
        ensures
            r == self.attributes().user_write_mask,
    ;
}

/// The attributes that every node has.
#[derive(Debug, Clone, PartialEq)]
pub struct Base {
    pub node_id: NodeId,
    pub node_class: NodeClass,
    pub browse_name: QualifiedName,
    pub display_name: LocalizedText,
    pub description: Option<LocalizedText>,
    pub write_mask: Option<u32>,
    pub user_write_mask: Option<u32>,
}

impl Base {
    /// The attributes of a node without description and write masks.
    pub fn new(
        node_class: NodeClass,
        node_id: &NodeId,
        browse_name: &str,
        display_name: &str,
    ) -> (r: Base)
        ensures
            r.node_class == node_class,
            r.node_id@ == node_id@,
            r.browse_name@ == (QualifiedNameView { namespace_index: 0, name: Some(browse_name@) }),
            r.display_name@ == (LocalizedTextView {
                locale: Some(Seq::<char>::empty()),
                text: Some(display_name@),
            }),
            r.description is None,
            r.write_mask is None,
            r.user_write_mask is None,
    {
        proof {
            reveal_strlit("");
        }
        assert(""@ =~= Seq::<char>::empty());
        Base {
            node_id: node_id.clone(),
            node_class,
            browse_name: QualifiedName::new(0, browse_name),
            display_name: LocalizedText::new("", display_name),
            description: None,
            write_mask: None,
            user_write_mask: None,
        }
    }
}

impl Node for Base {
    open spec fn attributes(&self) -> Base {
        *self
    }

    fn node_class(&self) -> (r: NodeClass) {
        self.node_class
    }

    fn node_id(&self) -> (r: NodeId) {
        self.node_id.clone()
    }

    fn browse_name(&self) -> (r: QualifiedName) {
        self.browse_name.clone()
    }

    fn display_name(&self) -> (r: LocalizedText) {
        self.display_name.clone()
    }

    fn description(&self) -> (r: Option<LocalizedText>) {
        match &self.description {
            Some(text) => Some(text.clone()),
            None => None,
        }
    }

    fn write_mask(&self) -> (r: Option<u32>) {
        self.write_mask
    }

    fn user_write_mask(&self) -> (r: Option<u32>) {
        self.user_write_mask
    }
}

/// A node of the class Object.
#[derive(Debug, Clone, PartialEq)]
pub struct Object {
    pub base: Base,
}

/// A node of the class ObjectType.
#[derive(Debug, Clone, PartialEq)]
pub struct ObjectType {
    pub base: Base,
    pub is_abstract: bool,
}

/// A node of the class ReferenceType.
#[derive(Debug, Clone, PartialEq)]
pub struct ReferenceType {
    pub base: Base,
    pub is_abstract: bool,
    pub symmetric: bool,
    pub inverse_name: Option<LocalizedText>,
}

/// A node of the class Variable.
#[derive(Debug, Clone, PartialEq)]
pub struct Variable {
    pub base: Base,
    pub value: DataValue,
    pub data_type: NodeId,
    pub value_rank: i32,
    pub access_level: u8,
    pub user_access_level: u8,
    pub historizing: bool,
}

/// A node of the class VariableType.
#[derive(Debug, Clone, PartialEq)]
pub struct VariableType {
    pub base: Base,
    pub data_type: NodeId,
    pub value_rank: i32,
    pub is_abstract: bool,
}

/// A node of the class View.
#[derive(Debug, Clone, PartialEq)]
pub struct ViewNode {
    pub base: Base,
    pub contains_no_loops: bool,
    pub event_notifier: u8,
}

/// A node of the class DataType.
#[derive(Debug, Clone, PartialEq)]
pub struct DataType {
    pub base: Base,
    pub is_abstract: bool,
}

/// A node of the class Method.
#[derive(Debug, Clone, PartialEq)]
pub struct Method {
    pub base: Base,
    pub executable: bool,
    pub user_executable: bool,
}

impl Node for Object {
    open spec fn attributes(&self) -> Base {
        self.base
    }

    fn node_class(&self) -> (r: NodeClass) {
        self.base.node_class()
    }

    fn node_id(&self) -> (r: NodeId) {
        self.base.node_id()
    }

    fn browse_name(&self) -> (r: QualifiedName) {
        self.base.browse_name()
    }

    fn display_name(&self) -> (r: LocalizedText) {
        self.base.display_name()
    }

    fn description(&self) -> (r: Option<LocalizedText>) {
        self.base.description()
    }

    fn write_mask(&self) -> (r: Option<u32>) {
        self.base.write_mask()
    }

    fn user_write_mask(&self) -> (r: Option<u32>) {
        self.base.user_write_mask()
    }
}

impl Node for ObjectType {
    open spec fn attributes(&self) -> Base {
        self.base
    }

    fn node_class(&self) -> (r: NodeClass) {
        self.base.node_class()
    }

    fn node_id(&self) -> (r: NodeId) {
        self.base.node_id()
    }

    fn browse_name(&self) -> (r: QualifiedName) {
        self.base.browse_name()
    }

    fn display_name(&self) -> (r: LocalizedText) {
        self.base.display_name()
    }

    fn description(&self) -> (r: Option<LocalizedText>) {
        self.base.description()
    }

    fn write_mask(&self) -> (r: Option<u32>) {
        self.base.write_mask()
    }

    fn user_write_mask(&self) -> (r: Option<u32>) {
        self.base.user_write_mask()
    }
}

impl Node for ReferenceType {
    open spec fn attributes(&self) -> Base {
        self.base
    }

    fn node_class(&self) -> (r: NodeClass) {
        self.base.node_class()
    }

    fn node_id(&self) -> (r: NodeId) {
        self.base.node_id()
    }

    fn browse_name(&self) -> (r: QualifiedName) {
        self.base.browse_name()
    }

    fn display_name(&self) -> (r: LocalizedText) {
        self.base.display_name()
    }

    fn description(&self) -> (r: Option<LocalizedText>) {
        self.base.description()
    }

    fn write_mask(&self) -> (r: Option<u32>) {
        self.base.write_mask()
    }

    fn user_write_mask(&self) -> (r: Option<u32>) {
        self.base.user_write_mask()
    }
}

impl Node for Variable {
    open spec fn attributes(&self) -> Base {
        self.base
    }

    fn node_class(&self) -> (r: NodeClass) {
        self.base.node_class()
    }

    fn node_id(&self) -> (r: NodeId) {
        self.base.node_id()
    }

    fn browse_name(&self) -> (r: QualifiedName) {
        self.base.browse_name()
    }

    fn display_name(&self) -> (r: LocalizedText) {
        self.base.display_name()
    }

    fn description(&self) -> (r: Option<LocalizedText>) {
        self.base.description()
    }

    fn write_mask(&self) -> (r: Option<u32>) {
        self.base.write_mask()
    }

    fn user_write_mask(&self) -> (r: Option<u32>) {
        self.base.user_write_mask()
    }
}

impl Node for VariableType {
    open spec fn attributes(&self) -> Base {
        self.base
    }

    fn node_class(&self) -> (r: NodeClass) {
        self.base.node_class()
    }

    fn node_id(&self) -> (r: NodeId) {
        self.base.node_id()
    }

    fn browse_name(&self) -> (r: QualifiedName) {
        self.base.browse_name()
    }

    fn display_name(&self) -> (r: LocalizedText) {
        self.base.display_name()
    }

    fn description(&self) -> (r: Option<LocalizedText>) {
        self.base.description()
    }

    fn write_mask(&self) -> (r: Option<u32>) {
        self.base.write_mask()
    }

    fn user_write_mask(&self) -> (r: Option<u32>) {
        self.base.user_write_mask()
    }
}

impl Node for ViewNode {
    open spec fn attributes(&self) -> Base {
        self.base
    }

    fn node_class(&self) -> (r: NodeClass) {
        self.base.node_class()
    }

    fn node_id(&self) -> (r: NodeId) {
        self.base.node_id()
    }

    fn browse_name(&self) -> (r: QualifiedName) {
        self.base.browse_name()
    }

    fn display_name(&self) -> (r: LocalizedText) {
        self.base.display_name()
    }

    fn description(&self) -> (r: Option<LocalizedText>) {
        self.base.description()
    }

    fn write_mask(&self) -> (r: Option<u32>) {
        self.base.write_mask()
    }

    fn user_write_mask(&self) -> (r: Option<u32>) {
        self.base.user_write_mask()
    }
}

impl Node for DataType {
    open spec fn attributes(&self) -> Base {
        self.base
    }

    fn node_class(&self) -> (r: NodeClass) {
        self.base.node_class()
    }

    fn node_id(&self) -> (r: NodeId) {
        self.base.node_id()
    }

    fn browse_name(&self) -> (r: QualifiedName) {
        self.base.browse_name()
    }

    fn display_name(&self) -> (r: LocalizedText) {
        self.base.display_name()
    }

    fn description(&self) -> (r: Option<LocalizedText>) {
        self.base.description()
    }

    fn write_mask(&self) -> (r: Option<u32>) {
        self.base.write_mask()
    }

    fn user_write_mask(&self) -> (r: Option<u32>) {
        self.base.user_write_mask()
    }
}

impl Node for Method {
    open spec fn attributes(&self) -> Base {
        self.base
    }

    fn node_class(&self) -> (r: NodeClass) {
        self.base.node_class()
    }

    fn node_id(&self) -> (r: NodeId) {
        self.base.node_id()
    }

    fn browse_name(&self) -> (r: QualifiedName) {
        self.base.browse_name()
    }

    fn display_name(&self) -> (r: LocalizedText) {
        self.base.display_name()
    }

    fn description(&self) -> (r: Option<LocalizedText>) {
        self.base.description()
    }

    fn write_mask(&self) -> (r: Option<u32>) {
        self.base.write_mask()
    }

    fn user_write_mask(&self) -> (r: Option<u32>) {
        self.base.user_write_mask()
    }
}

/// A node of any class.
#[derive(Debug, Clone, PartialEq)]
pub enum NodeType {
    Object(Object),
    ObjectType(ObjectType),
    ReferenceType(ReferenceType),
    Variable(Variable),
    VariableType(VariableType),
    View(ViewNode),
    DataType(DataType),
    Method(Method),
}

impl NodeType {
    /// The attributes that the node has whatever its class.
    pub open spec fn base(&self) -> Base {
        match self {
            NodeType::Object(value) => value.base,
            NodeType::ObjectType(value) => value.base,
            NodeType::ReferenceType(value) => value.base,
            NodeType::Variable(value) => value.base,
            NodeType::VariableType(value) => value.base,
            NodeType::View(value) => value.base,
            NodeType::DataType(value) => value.base,
            NodeType::Method(value) => value.base,
        }
    }

    /// The node id, as contracts speak of it.
    pub open spec fn id(&self) -> NodeIdView {
        self.base().node_id@
    }

    /// The node as what every node is.
    pub fn as_node(&self) -> (r: &Base)
        ensures
            *r == self.base(),
    {
        match self {
            NodeType::Object(value) => &value.base,
            NodeType::ObjectType(value) => &value.base,
            NodeType::ReferenceType(value) => &value.base,
            NodeType::Variable(value) => &value.base,
            NodeType::VariableType(value) => &value.base,
            NodeType::View(value) => &value.base,
            NodeType::DataType(value) => &value.base,
            NodeType::Method(value) => &value.base,
        }
    }

    /// The node id.
    pub fn node_id(&self) -> (r: NodeId)
        ensures
            r@ == self.id(),
    {
        self.as_node().node_id()
    }
}

} // verus!
