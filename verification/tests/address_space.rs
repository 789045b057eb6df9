use opcua::address_space::{
    AddressSpace, BrowseDirection, Reference, HAS_SUBTYPE, HAS_TYPE_DEFINITION, ORGANIZES,
};
use opcua::node::{
    Base, DataType, Method, Node, NodeClass, NodeType, Object, ObjectType, ReferenceType,
    Variable, VariableType, ViewNode,
};
use opcua::data_value::DataValue;
use opcua::date_time::DateTime;
use opcua::localized_text::LocalizedText;
use opcua::node_id::NodeId;
use opcua::qualified_name::QualifiedName;
use opcua::service_types::{RelativePath, RelativePathElement};
use opcua::status_codes::{
    BAD_NODE_ID_EXISTS, BAD_NODE_ID_INVALID, BAD_NODE_ID_UNKNOWN, BAD_NOTHING_TO_DO, BAD_NO_MATCH,
};
use opcua::variant::Variant;

fn id(value: u32) -> NodeId {
    NodeId::new_numeric(0, value)
}

fn object(value: u32, name: &str) -> NodeType {
    NodeType::Object(Object { base: Base::new(NodeClass::Object, &id(value), name, name) })
}

fn reference_type(value: u32, name: &str) -> NodeType {
    NodeType::ReferenceType(ReferenceType {
        base: Base::new(NodeClass::ReferenceType, &id(value), name, name),
        is_abstract: false,
        symmetric: false,
        inverse_name: None,
    })
}

fn seen(reference_type: u32, node: u32) -> Reference {
    Reference { reference_type_id: id(reference_type), node_id: id(node) }
}

const HIERARCHICAL: u32 = 33;
const HAS_CHILD: u32 = 34;
const AGGREGATES: u32 = 44;
const HAS_PROPERTY: u32 = 46;
const HAS_COMPONENT: u32 = 47;

/// A root with three folders, a device with two parts, and the reference
/// types that connect them.
fn sample() -> AddressSpace {
    let mut space = AddressSpace::new();
    for (value, name) in [(84, "Root"), (85, "Objects"), (86, "Types"), (87, "Views")] {
        assert_eq!(space.insert(object(value, name)), Ok(()));
    }
    for (value, name) in [
        (HIERARCHICAL, "HierarchicalReferences"),
        (HAS_CHILD, "HasChild"),
        (ORGANIZES, "Organizes"),
        (AGGREGATES, "Aggregates"),
        (HAS_SUBTYPE, "HasSubtype"),
        (HAS_PROPERTY, "HasProperty"),
        (HAS_COMPONENT, "HasComponent"),
    ] {
        assert_eq!(space.insert(reference_type(value, name)), Ok(()));
    }
    for (value, name) in [(1000, "Device"), (1001, "Motor"), (1002, "Serial"), (1003, "Motor")] {
        assert_eq!(space.insert(object(value, name)), Ok(()));
    }
    for (source, target, kind) in [
        (84, 85, ORGANIZES),
        (84, 86, ORGANIZES),
        (84, 87, ORGANIZES),
        (HIERARCHICAL, HAS_CHILD, HAS_SUBTYPE),
        (HIERARCHICAL, ORGANIZES, HAS_SUBTYPE),
        (HAS_CHILD, AGGREGATES, HAS_SUBTYPE),
        (AGGREGATES, HAS_PROPERTY, HAS_SUBTYPE),
        (AGGREGATES, HAS_COMPONENT, HAS_SUBTYPE),
        (85, 1000, ORGANIZES),
        (1000, 1001, HAS_COMPONENT),
        (1000, 1002, HAS_PROPERTY),
        (1000, 1003, HAS_COMPONENT),
    ] {
        assert_eq!(space.insert_reference(&id(source), &id(target), &id(kind)), Ok(()));
    }
    space
}

#[test]
fn inserted_node_is_found() {
    let mut space = AddressSpace::new();
    assert!(!space.node_exists(&id(85)));
    assert_eq!(space.find_node(&id(85)), None);
    let node = object(85, "Objects");
    assert_eq!(space.insert(node.clone()), Ok(()));
    assert!(space.node_exists(&id(85)));
    assert_eq!(space.find_node(&id(85)), Some(&node));
    assert!(!space.node_exists(&id(86)));
    // Another node leaves the first where it was.
    let other = object(86, "Types");
    assert_eq!(space.insert(other.clone()), Ok(()));
    assert_eq!(space.find_node(&id(85)), Some(&node));
    assert_eq!(space.find_node(&id(86)), Some(&other));
    // Ids of other kinds and namespaces are other ids.
    assert!(!space.node_exists(&NodeId::new_numeric(1, 85)));
    assert!(!space.node_exists(&NodeId::new_string(0, "85")));
    let named = NodeType::Object(Object {
        base: Base::new(NodeClass::Object, &NodeId::new_string(2, "pump"), "Pump", "Pump"),
    });
    assert_eq!(space.insert(named.clone()), Ok(()));
    assert_eq!(space.find_node(&NodeId::new_string(2, "pump")), Some(&named));
}

#[test]
fn insert_refuses_the_null_id() {
    let mut space = AddressSpace::new();
    assert_eq!(space.insert(object(0, "Nothing")), Err(BAD_NODE_ID_INVALID));
    assert!(!space.node_exists(&NodeId::null()));
    assert_eq!(space.find_node(&NodeId::null()), None);
    // The identifier 0 in another namespace is an id like any other.
    let node = NodeType::Object(Object {
        base: Base::new(NodeClass::Object, &NodeId::new_numeric(1, 0), "Zero", "Zero"),
    });
    assert_eq!(space.insert(node), Ok(()));
    assert!(space.node_exists(&NodeId::new_numeric(1, 0)));
}

#[test]
fn insert_refuses_an_id_that_is_there() {
    let mut space = AddressSpace::new();
    let first = object(85, "Objects");
    assert_eq!(space.insert(first.clone()), Ok(()));
    assert_eq!(space.insert(object(85, "Other")), Err(BAD_NODE_ID_EXISTS));
    assert_eq!(space.find_node(&id(85)), Some(&first));
}

#[test]
fn nodes_tell_their_attributes() {
    let base = Base::new(NodeClass::Variable, &id(7), "Speed", "Speed of the motor");
    assert_eq!(base.node_class(), NodeClass::Variable);
    assert_eq!(base.node_id(), id(7));
    assert_eq!(base.browse_name(), QualifiedName::new(0, "Speed"));
    assert_eq!(base.display_name(), LocalizedText::new("", "Speed of the motor"));
    assert_eq!(base.description(), None);
    assert_eq!(base.write_mask(), None);
    assert_eq!(base.user_write_mask(), None);
    let mut described = base.clone();
    described.description = Some(LocalizedText::new("en", "rpm"));
    described.write_mask = Some(3);
    assert_eq!(described.description(), Some(LocalizedText::new("en", "rpm")));
    assert_eq!(described.write_mask(), Some(3));
    let variable = NodeType::Variable(Variable {
        base: base.clone(),
        value: DataValue::new_at(Variant::Int32(5), DateTime::new(1)),
        data_type: id(6),
        value_rank: -1,
        access_level: 1,
        user_access_level: 1,
        historizing: false,
    });
    assert_eq!(variable.node_id(), id(7));
    assert_eq!(variable.as_node(), &base);
    let nodes = [
        NodeType::ObjectType(ObjectType { base: base.clone(), is_abstract: false }),
        NodeType::VariableType(VariableType {
            base: base.clone(),
            data_type: id(6),
            value_rank: -1,
            is_abstract: true,
        }),
        NodeType::View(ViewNode { base: base.clone(), contains_no_loops: true, event_notifier: 0 }),
        NodeType::DataType(DataType { base: base.clone(), is_abstract: false }),
        NodeType::Method(Method { base: base.clone(), executable: true, user_executable: true }),
    ];
    for node in nodes.iter() {
        assert_eq!(node.node_id(), id(7));
        assert_eq!(node.as_node().browse_name, QualifiedName::new(0, "Speed"));
    }
    assert_eq!(NodeClass::Unspecified.bit(), 0);
    assert_eq!(NodeClass::Object.bit(), 1);
    assert_eq!(NodeClass::Variable.bit(), 2);
    assert_eq!(NodeClass::Method.bit(), 4);
    assert_eq!(NodeClass::ObjectType.bit(), 8);
    assert_eq!(NodeClass::VariableType.bit(), 16);
    assert_eq!(NodeClass::ReferenceType.bit(), 32);
    assert_eq!(NodeClass::DataType.bit(), 64);
    assert_eq!(NodeClass::View.bit(), 128);
}

#[test]
fn references_need_both_ends() {
    let mut space = AddressSpace::new();
    space.insert(object(84, "Root")).unwrap();
    space.insert(object(85, "Objects")).unwrap();
    assert_eq!(space.insert_reference(&id(84), &id(99), &id(ORGANIZES)), Err(BAD_NODE_ID_UNKNOWN));
    assert_eq!(space.insert_reference(&id(99), &id(84), &id(ORGANIZES)), Err(BAD_NODE_ID_UNKNOWN));
    assert_eq!(
        space.find_references_by_direction(&id(84), BrowseDirection::Both, None),
        (vec![], 0)
    );
    assert_eq!(space.insert_reference(&id(84), &id(85), &id(ORGANIZES)), Ok(()));
    assert_eq!(
        space.find_references_by_direction(&id(84), BrowseDirection::Both, None),
        (vec![seen(ORGANIZES, 85)], 1)
    );
    assert_eq!(
        space.find_references_by_direction(&id(85), BrowseDirection::Both, None),
        (vec![seen(ORGANIZES, 84)], 0)
    );
}

#[test]
fn references_by_direction() {
    let space = sample();
    // Forward references come first, in the order in which they were put in.
    assert_eq!(
        space.find_references_by_direction(&id(84), BrowseDirection::Forward, None),
        (vec![seen(ORGANIZES, 85), seen(ORGANIZES, 86), seen(ORGANIZES, 87)], 3)
    );
    assert_eq!(
        space.find_references_by_direction(&id(84), BrowseDirection::Inverse, None),
        (vec![], 0)
    );
    assert_eq!(
        space.find_references_by_direction(&id(85), BrowseDirection::Both, None),
        (vec![seen(ORGANIZES, 1000), seen(ORGANIZES, 84)], 1)
    );
    assert_eq!(
        space.find_references_by_direction(&id(85), BrowseDirection::Inverse, None),
        (vec![seen(ORGANIZES, 84)], 0)
    );
    assert_eq!(
        space.find_references_by_direction(&id(1000), BrowseDirection::Both, None),
        (
            vec![
                seen(HAS_COMPONENT, 1001),
                seen(HAS_PROPERTY, 1002),
                seen(HAS_COMPONENT, 1003),
                seen(ORGANIZES, 85)
            ],
            3
        )
    );
    // A reference type stands at both ends of subtype references.
    assert_eq!(
        space.find_references_by_direction(&id(AGGREGATES), BrowseDirection::Both, None),
        (
            vec![
                seen(HAS_SUBTYPE, HAS_PROPERTY),
                seen(HAS_SUBTYPE, HAS_COMPONENT),
                seen(HAS_SUBTYPE, HAS_CHILD)
            ],
            2
        )
    );
    // A node that is not there has no references.
    assert_eq!(
        space.find_references_by_direction(&id(4242), BrowseDirection::Both, None),
        (vec![], 0)
    );
}

#[test]
fn reference_filter_with_and_without_subtypes() {
    let space = sample();
    let both = BrowseDirection::Both;
    assert_eq!(
        space.find_references_by_direction(&id(1000), both, Some((id(HAS_COMPONENT), false))),
        (vec![seen(HAS_COMPONENT, 1001), seen(HAS_COMPONENT, 1003)], 2)
    );
    assert_eq!(
        space.find_references_by_direction(&id(1000), both, Some((id(AGGREGATES), false))),
        (vec![], 0)
    );
    assert_eq!(
        space.find_references_by_direction(&id(1000), both, Some((id(AGGREGATES), true))),
        (vec![seen(HAS_COMPONENT, 1001), seen(HAS_PROPERTY, 1002), seen(HAS_COMPONENT, 1003)], 3)
    );
    assert_eq!(
        space.find_references_by_direction(&id(1000), both, Some((id(HIERARCHICAL), true))),
        (
            vec![
                seen(HAS_COMPONENT, 1001),
                seen(HAS_PROPERTY, 1002),
                seen(HAS_COMPONENT, 1003),
                seen(ORGANIZES, 85)
            ],
            3
        )
    );
    assert_eq!(
        space.find_references_by_direction(&id(1000), both, Some((id(HAS_CHILD), true))),
        (vec![seen(HAS_COMPONENT, 1001), seen(HAS_PROPERTY, 1002), seen(HAS_COMPONENT, 1003)], 3)
    );
    assert_eq!(
        space.find_references_by_direction(&id(1000), both, Some((id(ORGANIZES), true))),
        (vec![seen(ORGANIZES, 85)], 0)
    );
    // A type is not a subtype of its subtypes.
    assert_eq!(
        space.find_references_by_direction(&id(84), both, Some((id(HAS_COMPONENT), true))),
        (vec![], 0)
    );
    assert_eq!(
        space.find_references_from(&id(1000), Some((id(HAS_PROPERTY), false))),
        Some(vec![seen(HAS_PROPERTY, 1002)])
    );
    assert_eq!(space.find_references_from(&id(1000), Some((id(HAS_SUBTYPE), true))), None);
    assert_eq!(space.find_references_from(&id(87), None), None);
}

#[test]
fn subtypes_follow_has_subtype() {
    let space = sample();
    let mut subtypes = space.subtypes_of(&id(HAS_CHILD));
    subtypes.sort_by_key(|id| format!("{:?}", id));
    let mut expected = vec![id(HAS_CHILD), id(AGGREGATES), id(HAS_PROPERTY), id(HAS_COMPONENT)];
    expected.sort_by_key(|id| format!("{:?}", id));
    assert_eq!(subtypes, expected);
    assert_eq!(space.subtypes_of(&id(HAS_PROPERTY)), vec![id(HAS_PROPERTY)]);
    assert_eq!(space.subtypes_of(&id(4242)), vec![id(4242)]);
    assert_eq!(space.subtypes_of(&id(HIERARCHICAL)).len(), 6);
}

#[test]
fn subtypes_end_in_a_circle_of_types() {
    let mut space = AddressSpace::new();
    for value in [1, 2, 3] {
        space.insert(reference_type(value, "T")).unwrap();
    }
    for (source, target) in [(1, 2), (2, 3), (3, 1), (1, 3)] {
        space.insert_reference(&id(source), &id(target), &id(HAS_SUBTYPE)).unwrap();
    }
    assert_eq!(space.subtypes_of(&id(2)), vec![id(2), id(3), id(1)]);
}

fn step(reference_type: NodeId, is_inverse: bool, include_subtypes: bool, name: &str) -> RelativePathElement {
    RelativePathElement {
        reference_type_id: reference_type,
        is_inverse,
        include_subtypes,
        target_name: QualifiedName::new(0, name),
    }
}

fn path(elements: Vec<RelativePathElement>) -> RelativePath {
    RelativePath { elements: Some(elements) }
}

#[test]
fn relative_paths() {
    let space = sample();
    let objects = path(vec![step(id(ORGANIZES), false, false, "Objects")]);
    assert_eq!(space.find_nodes_relative_path(&id(84), &objects), Ok(vec![id(85)]));
    // Two steps, the second over any kind of reference.
    let device = path(vec![
        step(id(ORGANIZES), false, false, "Objects"),
        step(NodeId::null(), false, false, "Device"),
    ]);
    assert_eq!(space.find_nodes_relative_path(&id(84), &device), Ok(vec![id(1000)]));
    // Every node that matches is found, in the order of the references.
    let motors = path(vec![
        step(id(HIERARCHICAL), false, true, "Objects"),
        step(id(HIERARCHICAL), false, true, "Device"),
        step(id(AGGREGATES), false, true, "Motor"),
    ]);
    assert_eq!(space.find_nodes_relative_path(&id(84), &motors), Ok(vec![id(1001), id(1003)]));
    assert_eq!(
        space.follow_relative_path(&id(1000), &step(id(HAS_COMPONENT), false, false, "Motor")),
        vec![id(1001), id(1003)]
    );
    // Against the direction of the references.
    let back = path(vec![
        step(id(HAS_COMPONENT), true, false, "Device"),
        step(id(ORGANIZES), true, false, "Objects"),
        step(NodeId::null(), true, false, "Root"),
    ]);
    assert_eq!(space.find_nodes_relative_path(&id(1003), &back), Ok(vec![id(84)]));
}

#[test]
fn relative_paths_without_a_match() {
    let space = sample();
    // Without subtypes the type of the reference must be the one named.
    let strict = path(vec![step(id(HIERARCHICAL), false, false, "Objects")]);
    assert_eq!(space.find_nodes_relative_path(&id(84), &strict), Err(BAD_NO_MATCH));
    let wrong_name = path(vec![step(id(ORGANIZES), false, false, "objects")]);
    assert_eq!(space.find_nodes_relative_path(&id(84), &wrong_name), Err(BAD_NO_MATCH));
    let wrong_namespace = path(vec![RelativePathElement {
        reference_type_id: id(ORGANIZES),
        is_inverse: false,
        include_subtypes: false,
        target_name: QualifiedName::new(1, "Objects"),
    }]);
    assert_eq!(space.find_nodes_relative_path(&id(84), &wrong_namespace), Err(BAD_NO_MATCH));
    // A path that ends early.
    let too_long = path(vec![
        step(id(ORGANIZES), false, false, "Views"),
        step(NodeId::null(), false, false, "Anything"),
    ]);
    assert_eq!(space.find_nodes_relative_path(&id(84), &too_long), Err(BAD_NO_MATCH));
    let objects = path(vec![step(id(ORGANIZES), false, false, "Objects")]);
    assert_eq!(space.find_nodes_relative_path(&id(4242), &objects), Err(BAD_NODE_ID_UNKNOWN));
    assert_eq!(space.find_nodes_relative_path(&id(84), &path(vec![])), Err(BAD_NOTHING_TO_DO));
    assert_eq!(
        space.find_nodes_relative_path(&id(84), &RelativePath { elements: None }),
        Err(BAD_NOTHING_TO_DO)
    );
    assert_eq!(
        space.find_nodes_relative_path(&id(4242), &RelativePath { elements: None }),
        Err(BAD_NODE_ID_UNKNOWN)
    );
    assert_eq!(HAS_TYPE_DEFINITION, 40);
}
