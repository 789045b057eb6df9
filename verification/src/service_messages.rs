//! The requests and responses that the services of this library take and
//! give, and the session that a request belongs to.

use vstd::prelude::*;
use crate::address_space::BrowseDirection;
use crate::byte_string::ByteString;
use crate::date_time::DateTime;
use crate::diagnostic_info::DiagnosticInfo;
use crate::extension_object::ExtensionObject;
use crate::localized_text::{LocalizedText, LocalizedTextView};
use crate::node::NodeClass;
use crate::node_id::{ExpandedNodeId, ExpandedNodeIdView, NodeId, NodeIdView};
use crate::qualified_name::{QualifiedName, QualifiedNameView};
use crate::service_types::BrowsePath;
use crate::status_codes::{StatusCode, GOOD};
use crate::string::UAString;

verus! {

/// What every request starts with.
#[derive(Debug, Clone, PartialEq)]
pub struct RequestHeader {
    /// The token that the server gave to the session.
    pub authentication_token: NodeId,
    /// The time at which the client sent the request.
    pub timestamp: DateTime,
    /// The handle by which the client knows the request.
    pub request_handle: u32,
    pub return_diagnostics: u32,
    pub audit_entry_id: UAString,
    pub timeout_hint: u32,
    pub additional_header: ExtensionObject,
}

/// What every response starts with.
#[derive(Debug, Clone, PartialEq)]
pub struct ResponseHeader {
    pub timestamp: DateTime,
    pub request_handle: u32,
    pub service_result: StatusCode,
    pub service_diagnostics: DiagnosticInfo,
    pub string_table: Option<Vec<UAString>>,
    pub additional_header: ExtensionObject,
}

impl ResponseHeader {
    /// True when this is the header of the response to the request with
    /// the header `request_header` and the result `service_result`: it
    /// echoes the handle and the timestamp of the request and carries
    /// nothing else.
    pub open spec fn answers(&self, request_header: &RequestHeader, service_result: StatusCode) -> bool {
        &&& self.timestamp == request_header.timestamp
        &&& self.request_handle == request_header.request_handle
        &&& self.service_result == service_result
        &&& self.service_diagnostics@ == DiagnosticInfo::new_view()
        &&& self.string_table is None
        &&& self.additional_header@ == crate::extension_object::null_object()
    }

    /// The header of the response to a request that went well.
    pub fn new_good(request_header: &RequestHeader) -> (r: ResponseHeader)
        ensures
            r.answers(request_header, GOOD),
    {
        ResponseHeader::new_service_result(request_header, GOOD)
    }

    /// The header of the response to a request with the result
    /// `service_result`.
    pub fn new_service_result(request_header: &RequestHeader, service_result: StatusCode) -> (r:
        ResponseHeader)
        ensures
            r.answers(request_header, service_result),
    {
        ResponseHeader {
            timestamp: request_header.timestamp,
            request_handle: request_header.request_handle,
            service_result,
            service_diagnostics: DiagnosticInfo::new(),
            string_table: None,
            additional_header: ExtensionObject::null(),
        }
    }
}

/// The response to a request that failed as a whole.
#[derive(Debug, Clone, PartialEq)]
pub struct ServiceFault {
    pub response_header: ResponseHeader,
}

impl ServiceFault {
    /// The fault that answers the request with the status `service_result`.
    pub fn new(request_header: &RequestHeader, service_result: StatusCode) -> (r: ServiceFault)
        ensures
            r.response_header.answers(request_header, service_result),
    {
        ServiceFault {
            response_header: ResponseHeader::new_service_result(request_header, service_result),
        }
    }

    /// The fault that answers the request with the status
    /// `service_result`, as a message.
    pub fn new_supported_message(request_header: &RequestHeader, service_result: StatusCode) -> (r:
        SupportedMessage)
        ensures
            is_fault(r, request_header, service_result),
    {
        SupportedMessage::ServiceFault(ServiceFault::new(request_header, service_result))
    }
}

/// True when `message` is the fault that answers the request with the
/// header `request_header` with the status `service_result`.
pub open spec fn is_fault(
    message: SupportedMessage,
    request_header: &RequestHeader,
    service_result: StatusCode,
) -> bool {
    message matches SupportedMessage::ServiceFault(fault) && fault.response_header.answers(
        request_header,
        service_result,
    )
}

/// The view of the address space that a request is about.
#[derive(Debug, Clone, PartialEq)]
pub struct ViewDescription {
    pub view_id: NodeId,
    pub timestamp: DateTime,
    pub view_version: u32,
}

/// Names a node to browse, and what to tell of its references.
#[derive(Debug, Clone, PartialEq)]
pub struct BrowseDescription {
    pub node_id: NodeId,
    pub browse_direction: BrowseDirection,
    pub reference_type_id: NodeId,
    pub include_subtypes: bool,
    pub node_class_mask: u32,
    pub result_mask: u32,
}

/// A request to browse the references of nodes.
#[derive(Debug, Clone, PartialEq)]
pub struct BrowseRequest {
    pub request_header: RequestHeader,
    pub view: ViewDescription,
    pub requested_max_references_per_node: u32,
    pub nodes_to_browse: Option<Vec<BrowseDescription>>,
}

/// One reference of a browsed node, as far as the request asked for it.
#[derive(Debug, Clone, PartialEq)]
pub struct ReferenceDescription {
    pub reference_type_id: NodeId,
    pub is_forward: bool,
    pub node_id: ExpandedNodeId,
    pub browse_name: QualifiedName,
    pub display_name: LocalizedText,
    pub node_class: NodeClass,
    pub type_definition: ExpandedNodeId,
}

/// What a `ReferenceDescription` stands for.
pub struct ReferenceDescriptionView {
    pub reference_type_id: NodeIdView,
    pub is_forward: bool,
    pub node_id: ExpandedNodeIdView,
    pub browse_name: QualifiedNameView,
    pub display_name: LocalizedTextView,
    pub node_class: NodeClass,
    pub type_definition: ExpandedNodeIdView,
}

impl View for ReferenceDescription {
    type V = ReferenceDescriptionView;

    open spec fn view(&self) -> ReferenceDescriptionView {
        ReferenceDescriptionView {
            reference_type_id: self.reference_type_id@,
            is_forward: self.is_forward,
            node_id: self.node_id@,
            browse_name: self.browse_name@,
            display_name: self.display_name@,
            node_class: self.node_class,
            type_definition: self.type_definition@,
        }
    }
}

/// The result of browsing one node.
#[derive(Debug, Clone, PartialEq)]
pub struct BrowseResult {
    pub status_code: StatusCode,
    pub continuation_point: ByteString,
    pub references: Option<Vec<ReferenceDescription>>,
}

/// The response to a request to browse.
#[derive(Debug, Clone, PartialEq)]
pub struct BrowseResponse {
    pub response_header: ResponseHeader,
    pub results: Option<Vec<BrowseResult>>,
    pub diagnostic_infos: Option<Vec<DiagnosticInfo>>,
}

/// A request to go on browsing from continuation points.
#[derive(Debug, Clone, PartialEq)]
pub struct BrowseNextRequest {
    pub request_header: RequestHeader,
    pub release_continuation_points: bool,
    pub continuation_points: Option<Vec<ByteString>>,
}

/// A request to translate browse paths into node ids.
#[derive(Debug, Clone, PartialEq)]
pub struct TranslateBrowsePathsToNodeIdsRequest {
    pub request_header: RequestHeader,
    pub browse_paths: Option<Vec<BrowsePath>>,
}

/// A node at the end of a browse path.
#[derive(Debug, Clone, PartialEq)]
pub struct BrowsePathTarget {
    pub target_id: ExpandedNodeId,
    /// The index of the first step of the path that was not followed;
    /// the largest number when all were.
    pub remaining_path_index: u32,
}

/// The result of translating one browse path.
#[derive(Debug, Clone, PartialEq)]
pub struct BrowsePathResult {
    pub status_code: StatusCode,
    pub targets: Option<Vec<BrowsePathTarget>>,
}

/// The response to a request to translate browse paths.
#[derive(Debug, Clone, PartialEq)]
pub struct TranslateBrowsePathsToNodeIdsResponse {
    pub response_header: ResponseHeader,
    pub results: Option<Vec<BrowsePathResult>>,
    pub diagnostic_infos: Option<Vec<DiagnosticInfo>>,
}

/// The messages that the dispatch of requests knows. A request of a
/// service that another part of the server handles is known by its header
/// alone.
#[derive(Debug, Clone, PartialEq)]
pub enum SupportedMessage {
    /// A message of a kind that is not known.
    Invalid,
    GetEndpointsRequest(RequestHeader),
    CreateSessionRequest(RequestHeader),
    CloseSessionRequest(RequestHeader),
    ActivateSessionRequest(RequestHeader),
    CreateSubscriptionRequest(RequestHeader),
    ModifySubscriptionRequest(RequestHeader),
    DeleteSubscriptionsRequest(RequestHeader),
    SetPublishingModeRequest(RequestHeader),
    PublishRequest(RequestHeader),
    RepublishRequest(RequestHeader),
    BrowseRequest(BrowseRequest),
    BrowseNextRequest(BrowseNextRequest),
    TranslateBrowsePathsToNodeIdsRequest(TranslateBrowsePathsToNodeIdsRequest),
    ReadRequest(RequestHeader),
    WriteRequest(RequestHeader),
    CreateMonitoredItemsRequest(RequestHeader),
    ModifyMonitoredItemsRequest(RequestHeader),
    DeleteMonitoredItemsRequest(RequestHeader),
    ServiceFault(ServiceFault),
    BrowseResponse(BrowseResponse),
    TranslateBrowsePathsToNodeIdsResponse(TranslateBrowsePathsToNodeIdsResponse),
}

/// The state of a session between a client and the server.
#[derive(Debug, Clone, PartialEq)]
pub struct Session {
    pub session_id: NodeId,
    /// The token that every request of the session must carry.
    pub authentication_token: NodeId,
    pub endpoint_url: UAString,
    /// Set when the session is to be closed.
    pub terminate_session: bool,
}

impl Session {
    /// A session with the token `authentication_token` that is not to be
    /// closed.
    pub fn new(session_id: NodeId, authentication_token: NodeId, endpoint_url: UAString) -> (r:
        Session)
        ensures
            r.session_id@ == session_id@,
            r.authentication_token@ == authentication_token@,
            r.endpoint_url@ == endpoint_url@,
            !r.terminate_session,
    {
        Session { session_id, authentication_token, endpoint_url, terminate_session: false }
    }
}

} // verus!
