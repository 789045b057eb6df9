use opcua::address_space::{AddressSpace, BrowseDirection, HAS_TYPE_DEFINITION, ORGANIZES};
use opcua::byte_string::ByteString;
use opcua::data_value::DataValue;
use opcua::date_time::DateTime;
use opcua::extension_object::ExtensionObject;
use opcua::localized_text::LocalizedText;
use opcua::message_handler::{Dispatch, MessageHandler, Service};
use opcua::node::{Base, NodeClass, NodeType, Object, ObjectType, Variable};
use opcua::node_id::{ExpandedNodeId, NodeId};
use opcua::qualified_name::QualifiedName;
use opcua::service_messages::{
    BrowseDescription, BrowseNextRequest, BrowsePathResult, BrowsePathTarget, BrowseRequest,
    BrowseResult, ReferenceDescription, RequestHeader, ResponseHeader, ServiceFault, Session,
    SupportedMessage, TranslateBrowsePathsToNodeIdsRequest, ViewDescription,
};
use opcua::service_types::{BrowsePath, RelativePath, RelativePathElement};
use opcua::status_codes::{
    BAD_IDENTITY_TOKEN_REJECTED, BAD_NODE_ID_UNKNOWN, BAD_NOTHING_TO_DO, BAD_NO_MATCH,
    BAD_SERVICE_UNSUPPORTED, BAD_VIEW_ID_UNKNOWN, GOOD,
};
use opcua::string::UAString;
use opcua::variant::Variant;
use opcua::view::{mask_bit_set, service_fault, ViewService};

const ROOT_FOLDER: u32 = 84;
const OBJECTS_FOLDER: u32 = 85;
const TYPES_FOLDER: u32 = 86;
const VIEWS_FOLDER: u32 = 87;
const FOLDER_TYPE: u32 = 61;

fn id(value: u32) -> NodeId {
    NodeId::new_numeric(0, value)
}

fn object(value: u32, name: &str) -> NodeType {
    NodeType::Object(Object { base: Base::new(NodeClass::Object, &id(value), name, name) })
}

/// The root folder with its folders, and some variables under `Objects`.
fn sample_address_space() -> AddressSpace {
    let mut space = AddressSpace::new();
    space.insert(object(ROOT_FOLDER, "Root")).unwrap();
    space.insert(object(OBJECTS_FOLDER, "Objects")).unwrap();
    space.insert(object(TYPES_FOLDER, "Types")).unwrap();
    space.insert(object(VIEWS_FOLDER, "Views")).unwrap();
    space
        .insert(NodeType::ObjectType(ObjectType {
            base: Base::new(NodeClass::ObjectType, &id(FOLDER_TYPE), "FolderType", "FolderType"),
            is_abstract: false,
        }))
        .unwrap();
    for folder in [OBJECTS_FOLDER, TYPES_FOLDER, VIEWS_FOLDER] {
        space.insert_reference(&id(ROOT_FOLDER), &id(folder), &id(ORGANIZES)).unwrap();
    }
    for folder in [ROOT_FOLDER, OBJECTS_FOLDER] {
        space.insert_reference(&id(folder), &id(FOLDER_TYPE), &id(HAS_TYPE_DEFINITION)).unwrap();
    }
    for (value, name) in [(2001, "v1"), (2002, "v2")] {
        space
            .insert(NodeType::Variable(Variable {
                base: Base::new(NodeClass::Variable, &id(value), name, name),
                value: DataValue::new_at(Variant::Int32(30), DateTime::new(1)),
                data_type: id(6),
                value_rank: -1,
                access_level: 1,
                user_access_level: 1,
                historizing: false,
            }))
            .unwrap();
        space.insert_reference(&id(OBJECTS_FOLDER), &id(value), &id(ORGANIZES)).unwrap();
    }
    space
}

fn request_header(token: u32) -> RequestHeader {
    RequestHeader {
        authentication_token: NodeId::new_numeric(0, token),
        timestamp: DateTime::new(131_000_000_000_000_000),
        request_handle: 1,
        return_diagnostics: 0,
        audit_entry_id: UAString::null(),
        timeout_hint: 123456,
        additional_header: ExtensionObject::null(),
    }
}

fn make_browse_request(
    nodes: Vec<NodeId>,
    browse_direction: BrowseDirection,
    reference_type: u32,
) -> BrowseRequest {
    let mut nodes_to_browse = Vec::with_capacity(nodes.len());
    for n in nodes {
        nodes_to_browse.push(BrowseDescription {
            node_id: n.clone(),
            browse_direction,
            reference_type_id: id(reference_type),
            include_subtypes: true,
            node_class_mask: 0xff,
            result_mask: 0xff,
        });
    }
    BrowseRequest {
        request_header: request_header(99),
        view: ViewDescription { view_id: NodeId::null(), timestamp: DateTime::new(0), view_version: 0 },
        requested_max_references_per_node: 1000,
        nodes_to_browse: Some(nodes_to_browse),
    }
}

fn browse_results(message: SupportedMessage) -> Vec<BrowseResult> {
    match message {
        SupportedMessage::BrowseResponse(response) => {
            assert_eq!(response.response_header.service_result, GOOD);
            assert_eq!(response.diagnostic_infos, None);
            response.results.unwrap()
        }
        _ => panic!("Wrong response"),
    }
}

fn fault(header: &RequestHeader, status: u32) -> SupportedMessage {
    SupportedMessage::ServiceFault(ServiceFault {
        response_header: ResponseHeader::new_service_result(header, status),
    })
}

#[test]
fn browse() {
    let address_space = sample_address_space();
    let view = ViewService::new();

    let request =
        make_browse_request(vec![id(ROOT_FOLDER)], BrowseDirection::Forward, ORGANIZES);
    let result = view.browse(&address_space, request);
    assert!(result.is_ok());

    let result = result.unwrap();
    let result = match result {
        SupportedMessage::BrowseResponse(result) => result,
        _ => {
            panic!("Wrong response")
        }
    };

    assert!(result.results.is_some());

    let results = result.results.unwrap();
    assert_eq!(results.len(), 1);

    assert!(results[0].references.is_some());
    let references = results[0].references.as_ref().unwrap();
    assert_eq!(references.len(), 3);

    // Expect to see refs to
    // Objects/
    // Types/
    // Views/

    let r1 = &references[0];
    assert_eq!(r1.browse_name, QualifiedName::new(0, "Objects"));
    let r2 = &references[1];
    assert_eq!(r2.browse_name, QualifiedName::new(0, "Types"));
    let r3 = &references[2];
    assert_eq!(r3.browse_name, QualifiedName::new(0, "Views"));
}

#[test]
fn browse_next() {
    let view = ViewService::new();
    let header = request_header(99);
    let request = BrowseNextRequest {
        request_header: header.clone(),
        release_continuation_points: false,
        continuation_points: Some(vec![ByteString::from_bytes(&[1, 2, 3])]),
    };
    assert_eq!(view.browse_next(request), Ok(fault(&header, BAD_NOTHING_TO_DO)));
}

fn organizes(name: &str) -> RelativePathElement {
    RelativePathElement {
        reference_type_id: id(ORGANIZES),
        is_inverse: false,
        include_subtypes: false,
        target_name: QualifiedName::new(0, name),
    }
}

#[test]
fn translate_browse_paths_to_node_ids() {
    let address_space = sample_address_space();
    let view = ViewService::new();
    let header = request_header(99);
    let request = TranslateBrowsePathsToNodeIdsRequest {
        request_header: header.clone(),
        browse_paths: Some(vec![
            BrowsePath {
                starting_node: id(ROOT_FOLDER),
                relative_path: RelativePath {
                    elements: Some(vec![organizes("Objects"), organizes("v2")]),
                },
            },
            BrowsePath {
                starting_node: id(ROOT_FOLDER),
                relative_path: RelativePath { elements: Some(vec![organizes("Nothing")]) },
            },
            BrowsePath {
                starting_node: id(4242),
                relative_path: RelativePath { elements: Some(vec![organizes("Objects")]) },
            },
            BrowsePath { starting_node: id(ROOT_FOLDER), relative_path: RelativePath { elements: None } },
            BrowsePath {
                starting_node: id(ROOT_FOLDER),
                relative_path: RelativePath { elements: Some(vec![]) },
            },
        ]),
    };
    let response = match view.translate_browse_paths_to_node_ids(&address_space, request) {
        Ok(SupportedMessage::TranslateBrowsePathsToNodeIdsResponse(response)) => response,
        _ => panic!("Wrong response"),
    };
    assert_eq!(response.response_header, ResponseHeader::new_good(&header));
    assert_eq!(response.diagnostic_infos, None);
    assert_eq!(
        response.results,
        Some(vec![
            BrowsePathResult {
                status_code: GOOD,
                targets: Some(vec![BrowsePathTarget {
                    target_id: ExpandedNodeId::new(&id(2002)),
                    remaining_path_index: u32::MAX,
                }]),
            },
            BrowsePathResult { status_code: BAD_NO_MATCH, targets: None },
            BrowsePathResult { status_code: BAD_NODE_ID_UNKNOWN, targets: None },
            BrowsePathResult { status_code: BAD_NOTHING_TO_DO, targets: None },
            BrowsePathResult { status_code: BAD_NOTHING_TO_DO, targets: None },
        ])
    );
}

#[test]
fn translate_without_paths_is_a_fault() {
    let address_space = sample_address_space();
    let view = ViewService::new();
    let header = request_header(99);
    let request =
        TranslateBrowsePathsToNodeIdsRequest { request_header: header.clone(), browse_paths: None };
    assert_eq!(
        view.translate_browse_paths_to_node_ids(&address_space, request),
        Ok(fault(&header, BAD_NOTHING_TO_DO))
    );
    let request = TranslateBrowsePathsToNodeIdsRequest {
        request_header: header.clone(),
        browse_paths: Some(vec![]),
    };
    assert_eq!(
        view.translate_browse_paths_to_node_ids(&address_space, request),
        Ok(fault(&header, BAD_NOTHING_TO_DO))
    );
}

#[test]
fn browse_describes_what_the_result_mask_asks_for() {
    let address_space = sample_address_space();
    let view = ViewService::new();
    let request = make_browse_request(vec![id(ROOT_FOLDER)], BrowseDirection::Forward, ORGANIZES);
    let results = browse_results(view.browse(&address_space, request).unwrap());
    assert_eq!(results[0].status_code, GOOD);
    assert_eq!(results[0].continuation_point, ByteString::null());
    let references = results[0].references.as_ref().unwrap();
    assert_eq!(
        references[0],
        ReferenceDescription {
            reference_type_id: id(ORGANIZES),
            is_forward: true,
            node_id: ExpandedNodeId::new(&id(OBJECTS_FOLDER)),
            browse_name: QualifiedName::new(0, "Objects"),
            display_name: LocalizedText::new("", "Objects"),
            node_class: NodeClass::Object,
            type_definition: ExpandedNodeId::new(&id(FOLDER_TYPE)),
        }
    );
    // An object without a type definition.
    assert_eq!(references[1].type_definition, ExpandedNodeId::null());

    // Nothing asked for: only the target is told.
    let mut request = make_browse_request(vec![id(OBJECTS_FOLDER)], BrowseDirection::Inverse, 0);
    request.nodes_to_browse.as_mut().unwrap()[0].result_mask = 0;
    let results = browse_results(view.browse(&address_space, request).unwrap());
    assert_eq!(
        results[0].references,
        Some(vec![ReferenceDescription {
            reference_type_id: NodeId::null(),
            is_forward: true,
            node_id: ExpandedNodeId::new(&id(ROOT_FOLDER)),
            browse_name: QualifiedName::null(),
            display_name: LocalizedText::null(),
            node_class: NodeClass::Unspecified,
            type_definition: ExpandedNodeId::null(),
        }])
    );

    // The type definition is told without the node class.
    let mut request = make_browse_request(vec![id(ROOT_FOLDER)], BrowseDirection::Forward, 0);
    request.nodes_to_browse.as_mut().unwrap()[0].result_mask = 32 + 2;
    let results = browse_results(view.browse(&address_space, request).unwrap());
    let references = results[0].references.as_ref().unwrap();
    assert_eq!(references.len(), 4);
    assert_eq!(references[0].node_class, NodeClass::Unspecified);
    assert_eq!(references[0].type_definition, ExpandedNodeId::new(&id(FOLDER_TYPE)));
    assert_eq!(references[0].reference_type_id, NodeId::null());
    // An object type has no type definition.
    assert_eq!(references[3].node_id, ExpandedNodeId::new(&id(FOLDER_TYPE)));
    assert_eq!(references[3].type_definition, ExpandedNodeId::null());
}

#[test]
fn browse_tells_forward_from_inverse() {
    let address_space = sample_address_space();
    let view = ViewService::new();
    let request = make_browse_request(vec![id(OBJECTS_FOLDER)], BrowseDirection::Both, ORGANIZES);
    let results = browse_results(view.browse(&address_space, request).unwrap());
    let references = results[0].references.as_ref().unwrap();
    let seen: Vec<(ExpandedNodeId, bool)> =
        references.iter().map(|r| (r.node_id.clone(), r.is_forward)).collect();
    assert_eq!(
        seen,
        vec![
            (ExpandedNodeId::new(&id(2001)), true),
            (ExpandedNodeId::new(&id(2002)), true),
            (ExpandedNodeId::new(&id(ROOT_FOLDER)), false),
        ]
    );
    assert_eq!(references[0].node_class, NodeClass::Variable);
}

#[test]
fn browse_filters_by_node_class_and_limits_the_number() {
    let address_space = sample_address_space();
    let view = ViewService::new();
    // Variables only.
    let mut request = make_browse_request(vec![id(OBJECTS_FOLDER)], BrowseDirection::Both, 0);
    request.nodes_to_browse.as_mut().unwrap()[0].node_class_mask = 2;
    let results = browse_results(view.browse(&address_space, request).unwrap());
    let references = results[0].references.as_ref().unwrap();
    assert_eq!(references.len(), 2);
    assert_eq!(references[1].browse_name, QualifiedName::new(0, "v2"));
    // Object types only.
    let mut request = make_browse_request(vec![id(OBJECTS_FOLDER)], BrowseDirection::Both, 0);
    request.nodes_to_browse.as_mut().unwrap()[0].node_class_mask = 8;
    let results = browse_results(view.browse(&address_space, request).unwrap());
    let references = results[0].references.as_ref().unwrap();
    assert_eq!(references.len(), 1);
    assert_eq!(references[0].node_class, NodeClass::ObjectType);
    // The mask 0 lets every class pass.
    let mut request = make_browse_request(vec![id(OBJECTS_FOLDER)], BrowseDirection::Both, 0);
    request.nodes_to_browse.as_mut().unwrap()[0].node_class_mask = 0;
    let results = browse_results(view.browse(&address_space, request).unwrap());
    assert_eq!(results[0].references.as_ref().unwrap().len(), 4);
    // No more references than asked for.
    for (max, expected) in [(0u32, 0usize), (1, 1), (2, 2), (3, 3), (4, 3)] {
        let mut request =
            make_browse_request(vec![id(ROOT_FOLDER)], BrowseDirection::Forward, ORGANIZES);
        request.requested_max_references_per_node = max;
        let results = browse_results(view.browse(&address_space, request).unwrap());
        let references = results[0].references.as_ref().unwrap();
        assert_eq!(references.len(), expected);
        if expected > 0 {
            assert_eq!(references[0].browse_name, QualifiedName::new(0, "Objects"));
        }
    }
    assert_eq!(
        ViewService::reference_descriptions(
            &address_space,
            &BrowseDescription {
                node_id: id(VIEWS_FOLDER),
                browse_direction: BrowseDirection::Forward,
                reference_type_id: NodeId::null(),
                include_subtypes: false,
                node_class_mask: 0,
                result_mask: 0,
            },
            10
        ),
        Ok(vec![])
    );
    assert!(mask_bit_set(0xff, 32));
    assert!(!mask_bit_set(0x1f, 32));
    assert!(mask_bit_set(0x20, 32));
}

#[test]
fn browse_reports_unknown_nodes_one_by_one() {
    let address_space = sample_address_space();
    let view = ViewService::new();
    let request = make_browse_request(
        vec![id(4242), id(ROOT_FOLDER), NodeId::null()],
        BrowseDirection::Forward,
        ORGANIZES,
    );
    let results = browse_results(view.browse(&address_space, request).unwrap());
    assert_eq!(results.len(), 3);
    assert_eq!(
        results[0],
        BrowseResult {
            status_code: BAD_NODE_ID_UNKNOWN,
            continuation_point: ByteString::null(),
            references: None
        }
    );
    assert_eq!(results[1].status_code, GOOD);
    assert_eq!(results[2].status_code, BAD_NODE_ID_UNKNOWN);
}

#[test]
fn browse_fails_as_a_whole() {
    let address_space = sample_address_space();
    let view = ViewService::new();
    let mut request = make_browse_request(vec![id(ROOT_FOLDER)], BrowseDirection::Forward, ORGANIZES);
    request.view.view_id = id(5);
    let header = request.request_header.clone();
    assert_eq!(view.browse(&address_space, request), Ok(fault(&header, BAD_VIEW_ID_UNKNOWN)));
    let mut request = make_browse_request(vec![], BrowseDirection::Forward, ORGANIZES);
    request.nodes_to_browse = None;
    request.view.view_id = id(5);
    assert_eq!(view.browse(&address_space, request), Ok(fault(&header, BAD_NOTHING_TO_DO)));
    let request = make_browse_request(vec![], BrowseDirection::Forward, ORGANIZES);
    assert_eq!(browse_results(view.browse(&address_space, request).unwrap()), vec![]);
    assert_eq!(service_fault(&header, BAD_NOTHING_TO_DO), fault(&header, BAD_NOTHING_TO_DO));
    // A response echoes the handle and the timestamp of the request.
    let response = ResponseHeader::new_good(&header);
    assert_eq!(response.request_handle, 1);
    assert_eq!(response.timestamp, DateTime::new(131_000_000_000_000_000));
    assert_eq!(response.service_result, GOOD);
    assert_eq!(ServiceFault::new(&header, BAD_NOTHING_TO_DO).response_header.service_result, BAD_NOTHING_TO_DO);
}

fn session(token: u32) -> Session {
    Session::new(id(1), NodeId::new_numeric(0, token), UAString::from_str("opc.tcp://localhost"))
}

#[test]
fn token_mismatch() {
    let address_space = sample_address_space();
    let handler = MessageHandler::new();
    let mut session = session(42);
    let header = request_header(99);
    let result = handler.handle_message(
        &address_space,
        &mut session,
        7,
        SupportedMessage::ReadRequest(header.clone()),
    );
    assert_eq!(result, Ok(Dispatch::Respond(fault(&header, BAD_IDENTITY_TOKEN_REJECTED))));
    assert!(session.terminate_session);
    assert_eq!(session.authentication_token, NodeId::new_numeric(0, 42));
}

#[test]
fn requests_with_the_token_go_to_their_services() {
    let address_space = sample_address_space();
    let handler = MessageHandler::new();
    let mut session = session(99);
    let header = request_header(99);
    let forwarded = [
        (SupportedMessage::ActivateSessionRequest(header.clone()), Service::ActivateSession),
        (SupportedMessage::CreateSubscriptionRequest(header.clone()), Service::CreateSubscription),
        (SupportedMessage::ModifySubscriptionRequest(header.clone()), Service::ModifySubscription),
        (SupportedMessage::DeleteSubscriptionsRequest(header.clone()), Service::DeleteSubscriptions),
        (SupportedMessage::SetPublishingModeRequest(header.clone()), Service::SetPublishingMode),
        (SupportedMessage::PublishRequest(header.clone()), Service::Publish),
        (SupportedMessage::RepublishRequest(header.clone()), Service::Republish),
        (SupportedMessage::ReadRequest(header.clone()), Service::Read),
        (SupportedMessage::WriteRequest(header.clone()), Service::Write),
        (SupportedMessage::CreateMonitoredItemsRequest(header.clone()), Service::CreateMonitoredItems),
        (SupportedMessage::ModifyMonitoredItemsRequest(header.clone()), Service::ModifyMonitoredItems),
        (SupportedMessage::DeleteMonitoredItemsRequest(header.clone()), Service::DeleteMonitoredItems),
    ];
    for (message, service) in forwarded {
        assert_eq!(
            handler.handle_message(&address_space, &mut session, 7, message.clone()),
            Ok(Dispatch::Forward { service, request_id: 7 })
        );
        assert!(!session.terminate_session);
        // The same request with another token.
        let mut other = Session::new(id(1), id(1), UAString::null());
        assert_eq!(
            handler.handle_message(&address_space, &mut other, 7, message),
            Ok(Dispatch::Respond(fault(&header, BAD_IDENTITY_TOKEN_REJECTED)))
        );
        assert!(other.terminate_session);
    }
    assert_eq!(handler.validate_request(&mut session, &header), Ok(()));
    assert!(!session.terminate_session);
    assert_eq!(
        handler.validate_request(&mut session, &request_header(98)),
        Err(fault(&request_header(98), BAD_IDENTITY_TOKEN_REJECTED))
    );
    assert!(session.terminate_session);
}

#[test]
fn requests_that_need_no_token() {
    let address_space = sample_address_space();
    let handler = MessageHandler::new();
    let mut session = session(42);
    let header = request_header(99);
    let open = [
        (SupportedMessage::GetEndpointsRequest(header.clone()), Service::GetEndpoints),
        (SupportedMessage::CreateSessionRequest(header.clone()), Service::CreateSession),
        (SupportedMessage::CloseSessionRequest(header.clone()), Service::CloseSession),
    ];
    for (message, service) in open {
        assert_eq!(
            handler.handle_message(&address_space, &mut session, 3, message),
            Ok(Dispatch::Forward { service, request_id: 3 })
        );
        assert!(!session.terminate_session);
    }
}

#[test]
fn view_requests_are_answered() {
    let address_space = sample_address_space();
    let handler = MessageHandler::new();
    let view = ViewService::new();
    let mut session = session(99);
    let request = make_browse_request(vec![id(ROOT_FOLDER)], BrowseDirection::Forward, ORGANIZES);
    let expected = view.browse(&address_space, request.clone()).unwrap();
    assert_eq!(
        handler.handle_message(
            &address_space,
            &mut session,
            1,
            SupportedMessage::BrowseRequest(request.clone())
        ),
        Ok(Dispatch::Respond(expected))
    );
    let header = request_header(99);
    let next = BrowseNextRequest {
        request_header: header.clone(),
        release_continuation_points: true,
        continuation_points: None,
    };
    assert_eq!(
        handler.handle_message(
            &address_space,
            &mut session,
            1,
            SupportedMessage::BrowseNextRequest(next.clone())
        ),
        Ok(Dispatch::Respond(fault(&header, BAD_NOTHING_TO_DO)))
    );
    let translate =
        TranslateBrowsePathsToNodeIdsRequest { request_header: header.clone(), browse_paths: None };
    assert_eq!(
        handler.handle_message(
            &address_space,
            &mut session,
            1,
            SupportedMessage::TranslateBrowsePathsToNodeIdsRequest(translate.clone())
        ),
        Ok(Dispatch::Respond(fault(&header, BAD_NOTHING_TO_DO)))
    );
    assert!(!session.terminate_session);
    // Without the token of the session the view is not browsed.
    let mut other = Session::new(id(1), id(1), UAString::null());
    for message in [
        SupportedMessage::BrowseRequest(request),
        SupportedMessage::BrowseNextRequest(next),
        SupportedMessage::TranslateBrowsePathsToNodeIdsRequest(translate),
    ] {
        other.terminate_session = false;
        assert_eq!(
            handler.handle_message(&address_space, &mut other, 1, message),
            Ok(Dispatch::Respond(fault(&header, BAD_IDENTITY_TOKEN_REJECTED)))
        );
        assert!(other.terminate_session);
    }
}

#[test]
fn other_messages_are_not_supported() {
    let address_space = sample_address_space();
    let handler = MessageHandler::new();
    let mut session = session(99);
    let header = request_header(99);
    for message in [
        SupportedMessage::Invalid,
        fault(&header, GOOD),
        ViewService::new()
            .browse(&address_space, make_browse_request(vec![], BrowseDirection::Both, 0))
            .unwrap(),
    ] {
        assert_eq!(
            handler.handle_message(&address_space, &mut session, 1, message),
            Err(BAD_SERVICE_UNSUPPORTED)
        );
        assert!(!session.terminate_session);
    }
}
