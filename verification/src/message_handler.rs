//! The dispatch of requests: which requests must carry the token of the
//! session, and which service answers a request.

use vstd::prelude::*;
use crate::address_space::AddressSpace;
use crate::service_messages::{is_fault, RequestHeader, ServiceFault, Session, SupportedMessage};
use crate::status_codes::{
    StatusCode, BAD_IDENTITY_TOKEN_REJECTED, BAD_NOTHING_TO_DO, BAD_SERVICE_UNSUPPORTED,
};
use crate::view::{answers_browse, answers_translation, ViewService};

verus! {

/// The services whose handlers are not part of this library.
#[derive(Debug, Clone, Copy, PartialEq, Eq, Structural, Hash)]
pub enum Service {
    GetEndpoints,
    CreateSession,
    CloseSession,
    ActivateSession,
    CreateSubscription,
    ModifySubscription,
    DeleteSubscriptions,
    SetPublishingMode,
    Publish,
    Republish,
    Read,
    Write,
    CreateMonitoredItems,
    ModifyMonitoredItems,
    DeleteMonitoredItems,
}

/// What is to be done with a request.
#[derive(Debug, Clone, PartialEq)]
pub enum Dispatch {
    /// The response is this message.
    Respond(SupportedMessage),
    /// The request goes to the handler of this service.
    Forward { service: Service, request_id: u32 },
}

/// Takes requests and tells what is to be done with them.
pub struct MessageHandler {
    /// The view service.
    view_service: ViewService,
}

/// The header of the request `message`, if it is a request that is
/// handled.
pub open spec fn header_of(message: SupportedMessage) -> Option<RequestHeader> {
    match message {
        SupportedMessage::GetEndpointsRequest(header)
        | SupportedMessage::CreateSessionRequest(header)
        | SupportedMessage::CloseSessionRequest(header)
        | SupportedMessage::ActivateSessionRequest(header)
        | SupportedMessage::CreateSubscriptionRequest(header)
        | SupportedMessage::ModifySubscriptionRequest(header)
        | SupportedMessage::DeleteSubscriptionsRequest(header)
        | SupportedMessage::SetPublishingModeRequest(header)
        | SupportedMessage::PublishRequest(header)
        | SupportedMessage::RepublishRequest(header)
        | SupportedMessage::ReadRequest(header)
        | SupportedMessage::WriteRequest(header)
        | SupportedMessage::CreateMonitoredItemsRequest(header)
        | SupportedMessage::ModifyMonitoredItemsRequest(header)
        | SupportedMessage::DeleteMonitoredItemsRequest(header) => Some(header),
        SupportedMessage::BrowseRequest(request) => Some(request.request_header),
        SupportedMessage::BrowseNextRequest(request) => Some(request.request_header),
        SupportedMessage::TranslateBrowsePathsToNodeIdsRequest(request) => Some(
            request.request_header,
        ),
        _ => None,
    }
}

/// True for the requests that are handled without a look at the token:
/// those that open and close sessions, and the request for the endpoints.
pub open spec fn is_open_request(message: SupportedMessage) -> bool {
    message is GetEndpointsRequest || message is CreateSessionRequest
        || message is CloseSessionRequest
}

/// The service that handles the request `message`, where that is not a
/// service of this library.
pub open spec fn service_of(message: SupportedMessage) -> Option<Service> {
    match message {
        SupportedMessage::GetEndpointsRequest(_) => Some(Service::GetEndpoints),
        SupportedMessage::CreateSessionRequest(_) => Some(Service::CreateSession),
        SupportedMessage::CloseSessionRequest(_) => Some(Service::CloseSession),
        SupportedMessage::ActivateSessionRequest(_) => Some(Service::ActivateSession),
        SupportedMessage::CreateSubscriptionRequest(_) => Some(Service::CreateSubscription),
        SupportedMessage::ModifySubscriptionRequest(_) => Some(Service::ModifySubscription),
        SupportedMessage::DeleteSubscriptionsRequest(_) => Some(Service::DeleteSubscriptions),
        SupportedMessage::SetPublishingModeRequest(_) => Some(Service::SetPublishingMode),
        SupportedMessage::PublishRequest(_) => Some(Service::Publish),
        SupportedMessage::RepublishRequest(_) => Some(Service::Republish),
        SupportedMessage::ReadRequest(_) => Some(Service::Read),
        SupportedMessage::WriteRequest(_) => Some(Service::Write),
        SupportedMessage::CreateMonitoredItemsRequest(_) => Some(Service::CreateMonitoredItems),
        SupportedMessage::ModifyMonitoredItemsRequest(_) => Some(Service::ModifyMonitoredItems),
        SupportedMessage::DeleteMonitoredItemsRequest(_) => Some(Service::DeleteMonitoredItems),
        _ => None,
    }
}

/// The session `session` after a request with a wrong token: it is to be
/// closed, and is otherwise as it was.
pub open spec fn terminated(session: Session) -> Session {
    Session { terminate_session: true, ..session }
}

/// True when `outcome` is what is to be done with a request that passed
/// the look at its token, or needed none.
pub open spec fn is_handled(
    outcome: Dispatch,
    message: SupportedMessage,
    request_id: u32,
    address_space: &AddressSpace,
) -> bool {
    match message {
        SupportedMessage::BrowseRequest(request) => outcome matches Dispatch::Respond(response)
            && answers_browse(response, address_space.nodes(), address_space.edges(), request),
        SupportedMessage::BrowseNextRequest(request) => outcome matches Dispatch::Respond(response)
            && is_fault(response, &request.request_header, BAD_NOTHING_TO_DO),
        SupportedMessage::TranslateBrowsePathsToNodeIdsRequest(request) => outcome
            matches Dispatch::Respond(response) && answers_translation(
            response,
            address_space.nodes(),
            address_space.edges(),
            request,
        ),
        _ => service_of(message) matches Some(service) && outcome == (Dispatch::Forward {
            service,
            request_id,
        }),
    }
}

impl MessageHandler {
    pub fn new() -> (r: MessageHandler) {
        MessageHandler { view_service: ViewService::new() }
    }

    /// Checks that the header of a request carries the token that the
    /// server gave to the session. A request with another token is
    /// answered with a fault, and the session is marked to be closed.
    pub fn validate_request(&self, session: &mut Session, request_header: &RequestHeader) -> (r:
        Result<(), SupportedMessage>)
        ensures
            session_token_matches(*old(session), *request_header) ==> r is Ok && *final(session)
                == *old(session),
            !session_token_matches(*old(session), *request_header) ==> (r matches Err(fault)
                && is_fault(fault, request_header, BAD_IDENTITY_TOKEN_REJECTED))
                && *final(session) == terminated(*old(session)),
    {
        if session.authentication_token != request_header.authentication_token {
            // The session should terminate.
            session.terminate_session = true;
            Err(ServiceFault::new_supported_message(request_header, BAD_IDENTITY_TOKEN_REJECTED))
        } else {
            Ok(())
        }
    }

    /// Tells what is to be done with the request `message`.
    ///
    /// A message that is not a request gives `BadServiceUnsupported`. The
    /// requests that open and close sessions and the request for the
    /// endpoints go to their services as they are. Every other request
    /// must carry the token of the session: with another token it is
    /// answered with the fault `BadIdentityTokenRejected` and the session
    /// is marked to be closed. With the right token, the requests of the
    /// view service are answered, and the others go to their services.
    pub fn handle_message(
        &self,
        address_space: &AddressSpace,
        session: &mut Session,
        request_id: u32,
        message: SupportedMessage,
    ) -> (r: Result<Dispatch, StatusCode>)
        requires
            address_space.wf(),
        ensures
            match header_of(message) {
                None => r == Err::<Dispatch, StatusCode>(BAD_SERVICE_UNSUPPORTED) && *final(session)
                    == *old(session),
                Some(header) => if is_open_request(message) || session_token_matches(
                    *old(session),
                    header,
                ) {
                    (r matches Ok(outcome) && is_handled(
                        outcome,
                        message,
                        request_id,
                        address_space,
                    )) && *final(session) == *old(session)
                } else {
                    (r matches Ok(Dispatch::Respond(fault)) && is_fault(
                        fault,
                        &header,
                        BAD_IDENTITY_TOKEN_REJECTED,
                    )) && *final(session) == terminated(*old(session))
                },
            },
    {
        let response = match message {
            SupportedMessage::GetEndpointsRequest(_) => Dispatch::Forward {
                service: Service::GetEndpoints,
                request_id,
            },
            SupportedMessage::CreateSessionRequest(_) => Dispatch::Forward {
                service: Service::CreateSession,
                request_id,
            },
            SupportedMessage::CloseSessionRequest(_) => Dispatch::Forward {
                service: Service::CloseSession,
                request_id,
            },
            // Every request below must carry the token of the session.
            SupportedMessage::ActivateSessionRequest(request_header) => {
                self.validated(session, &request_header, Service::ActivateSession, request_id)
            },
            SupportedMessage::CreateSubscriptionRequest(request_header) => {
                self.validated(session, &request_header, Service::CreateSubscription, request_id)
            },
            SupportedMessage::ModifySubscriptionRequest(request_header) => {
                self.validated(session, &request_header, Service::ModifySubscription, request_id)
            },
            SupportedMessage::DeleteSubscriptionsRequest(request_header) => {
                self.validated(session, &request_header, Service::DeleteSubscriptions, request_id)
            },
            SupportedMessage::SetPublishingModeRequest(request_header) => {
                self.validated(session, &request_header, Service::SetPublishingMode, request_id)
            },
            SupportedMessage::PublishRequest(request_header) => {
                self.validated(session, &request_header, Service::Publish, request_id)
            },
            SupportedMessage::RepublishRequest(request_header) => {
                self.validated(session, &request_header, Service::Republish, request_id)
            },
            SupportedMessage::BrowseRequest(request) => {
                if let Err(response) = self.validate_request(session, &request.request_header) {
                    Dispatch::Respond(response)
                } else {
                    Dispatch::Respond(self.view_service.browse(address_space, request)?)
                }
            },
            SupportedMessage::BrowseNextRequest(request) => {
                if let Err(response) = self.validate_request(session, &request.request_header) {
                    Dispatch::Respond(response)
                } else {
                    Dispatch::Respond(self.view_service.browse_next(request)?)
                }
            },
            SupportedMessage::TranslateBrowsePathsToNodeIdsRequest(request) => {
                if let Err(response) = self.validate_request(session, &request.request_header) {
                    Dispatch::Respond(response)
                } else {
                    Dispatch::Respond(
                        self.view_service.translate_browse_paths_to_node_ids(
                            address_space,
                            request,
                        )?,
                    )
                }
            },
            SupportedMessage::ReadRequest(request_header) => {
                self.validated(session, &request_header, Service::Read, request_id)
            },
            SupportedMessage::WriteRequest(request_header) => {
                self.validated(session, &request_header, Service::Write, request_id)
            },
            SupportedMessage::CreateMonitoredItemsRequest(request_header) => {
                self.validated(session, &request_header, Service::CreateMonitoredItems, request_id)
            },
            SupportedMessage::ModifyMonitoredItemsRequest(request_header) => {
                self.validated(session, &request_header, Service::ModifyMonitoredItems, request_id)
            },
            SupportedMessage::DeleteMonitoredItemsRequest(request_header) => {
                self.validated(session, &request_header, Service::DeleteMonitoredItems, request_id)
            },
            _ => {
                return Err(BAD_SERVICE_UNSUPPORTED);
            },
        };
        Ok(response)
    }

    /// What is to be done with a request that must carry the token of the
    /// session and goes to the service `service`.
    fn validated(
        &self,
        session: &mut Session,
        request_header: &RequestHeader,
        service: Service,
        request_id: u32,
    ) -> (r: Dispatch)
        ensures
            session_token_matches(*old(session), *request_header) ==> r == (Dispatch::Forward {
                service,
                request_id,
            }) && *final(session) == *old(session),
            !session_token_matches(*old(session), *request_header) ==> (r matches Dispatch::Respond(
                fault,
            ) && is_fault(fault, request_header, BAD_IDENTITY_TOKEN_REJECTED)) && *final(session)
                == terminated(*old(session)),
    {
        match self.validate_request(session, request_header) {
            Err(response) => Dispatch::Respond(response),
            Ok(_) => Dispatch::Forward { service, request_id },
        }
    }
}

/// True when the header `request_header` carries the token of the session
/// `session`.
pub open spec fn session_token_matches(session: Session, request_header: RequestHeader) -> bool {
    session.authentication_token@ == request_header.authentication_token@
}

} // verus!
