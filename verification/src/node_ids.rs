//! The node ids that the standard gives to well-known objects.

use vstd::prelude::*;
use crate::node_id::{numeric_id, NodeId};

verus! {

/// Well-known objects of the standard namespace.
#[allow(non_camel_case_types)]
#[derive(Debug, Clone, Copy, PartialEq, Eq, Structural, Hash)]
pub enum ObjectId {
    RootFolder,
    ObjectsFolder,
    TypesFolder,
    ViewsFolder,
    ReferenceNode_Encoding_DefaultBinary,
    BrowsePath_Encoding_DefaultBinary,
    ContentFilterElement_Encoding_DefaultBinary,
    ContentFilterResult_Encoding_DefaultBinary,
    HistoryReadValueId_Encoding_DefaultBinary,
}

/// The numeric identifier of `object` in the standard namespace.
pub open spec fn object_number(object: ObjectId) -> u32 {
    match object {
        ObjectId::RootFolder => 84,
        ObjectId::ObjectsFolder => 85,
        ObjectId::TypesFolder => 86,
        ObjectId::ViewsFolder => 87,
        ObjectId::ReferenceNode_Encoding_DefaultBinary => 287,
        ObjectId::BrowsePath_Encoding_DefaultBinary => 545,
        ObjectId::ContentFilterElement_Encoding_DefaultBinary => 585,
        ObjectId::ContentFilterResult_Encoding_DefaultBinary => 609,
        ObjectId::HistoryReadValueId_Encoding_DefaultBinary => 637,
    }
}

impl ObjectId {
    /// The node id of the object.
    pub fn as_node_id(&self) -> (r: NodeId)
        ensures
            r@ == numeric_id(0, object_number(*self)),
    {
        let number: u32 = match self {
            ObjectId::RootFolder => 84,
            ObjectId::ObjectsFolder => 85,
            ObjectId::TypesFolder => 86,
            ObjectId::ViewsFolder => 87,
            ObjectId::ReferenceNode_Encoding_DefaultBinary => 287,
            ObjectId::BrowsePath_Encoding_DefaultBinary => 545,
            ObjectId::ContentFilterElement_Encoding_DefaultBinary => 585,
            ObjectId::ContentFilterResult_Encoding_DefaultBinary => 609,
            ObjectId::HistoryReadValueId_Encoding_DefaultBinary => 637,
        };
        NodeId::new_numeric(0, number)
    }
}

/// A structure that is known by the object that stands for its binary
/// encoding.
pub trait MessageInfo {
    /// The object that stands for the binary encoding of the structure.
    spec fn encoding_object() -> ObjectId;

    fn object_id(&self) -> (r: ObjectId)
        ensures
            r == Self::encoding_object(),
    ;
}

} // verus!
