use vstd::prelude::*;

use crate::peer::PeerId;
use crate::session_id::{InboundSessionId, OutboundSessionId, SessionId};

verus! {

#[verifier::external_type_specification]
#[verifier::external_body]
pub struct ExIoError(std::io::Error);

/// The protocol's settings.
#[derive(Debug)]
pub struct Config {
    /// Name of the stream protocol that is advertised and required.
    pub protocol_name: String,
    /// Bound on the negotiation of a substream.
    pub substream_timeout: std::time::Duration,
}

impl Clone for Config {
    fn clone(&self) -> (r: Config) {
        Config {
            protocol_name: self.protocol_name.clone(),
            substream_timeout: self.substream_timeout,
        }
    }
}

/// What can end a session, as a connection handler sees it.
#[derive(Debug)]
pub enum HandlerSessionError {
    Timeout { substream_timeout: std::time::Duration },
    IOError(std::io::Error),
    RemoteDoesntSupportProtocol { protocol_name: String },
}

/// What can end a session, as the application sees it: the handler's errors, and the loss of
/// the connection that carried the session.
#[derive(Debug)]
pub enum SessionError {
    Timeout { substream_timeout: std::time::Duration },
    IOError(std::io::Error),
    RemoteDoesntSupportProtocol { protocol_name: String },
    ConnectionClosed,
}

/// Progress of the sessions, reported upward. `E` is the error taxonomy of the layer that
/// reports.
#[derive(Debug)]
pub enum GenericEvent<Query, Data, E> {
    NewInboundSession { query: Query, inbound_session_id: InboundSessionId, peer_id: PeerId },
    ReceivedData { outbound_session_id: OutboundSessionId, data: Data },
    SessionFailed { session_id: SessionId, error: E },
    SessionClosedByRequest { session_id: SessionId },
    SessionClosedByPeer { session_id: SessionId },
}

impl<Query, Data, E> GenericEvent<Query, Data, E> {
    /// The session that the event is about.
    pub open spec fn session(&self) -> SessionId {
        match self {
            GenericEvent::NewInboundSession { inbound_session_id, .. } => SessionId::InboundSessionId(
                *inbound_session_id,
            ),
            GenericEvent::ReceivedData { outbound_session_id, .. } => SessionId::OutboundSessionId(
                *outbound_session_id,
            ),
            GenericEvent::SessionFailed { session_id, .. } => *session_id,
            GenericEvent::SessionClosedByRequest { session_id } => *session_id,
            GenericEvent::SessionClosedByPeer { session_id } => *session_id,
        }
    }

    /// Whether the event ends its session.
    pub open spec fn is_terminal(&self) -> bool {
        match self {
            GenericEvent::SessionFailed { .. } => true,
            GenericEvent::SessionClosedByRequest { .. } => true,
            GenericEvent::SessionClosedByPeer { .. } => true,
            _ => false,
        }
    }
}

/// Data flows only on outbound sessions: an event that carries a data frame is always about an
/// outbound session, so no data is ever reported on an inbound one.
pub proof fn lemma_data_only_on_outbound_sessions<Query, Data, E>(e: GenericEvent<Query, Data, E>)
    requires
        e is ReceivedData,
    ensures
        e.session() is OutboundSessionId,
        !e.is_terminal(),
{
}

/// An event as the connection handler reports it.
pub type ToBehaviourEvent<Query, Data> = GenericEvent<Query, Data, HandlerSessionError>;

/// An event as the behaviour reports it to the application.
pub type Event<Query, Data> = GenericEvent<Query, Data, SessionError>;

/// The behaviour's error that carries the same cause as a handler's error.
pub open spec fn widened_error(e: HandlerSessionError) -> SessionError {
    match e {
        HandlerSessionError::Timeout { substream_timeout } => SessionError::Timeout {
            substream_timeout,
        },
        HandlerSessionError::IOError(io) => SessionError::IOError(io),
        HandlerSessionError::RemoteDoesntSupportProtocol { protocol_name } =>
            SessionError::RemoteDoesntSupportProtocol { protocol_name },
    }
}

/// The behaviour's event that carries the same content as a handler's event.
pub open spec fn widened_event<Query, Data>(e: ToBehaviourEvent<Query, Data>) -> Event<Query, Data> {
    match e {
        GenericEvent::NewInboundSession { query, inbound_session_id, peer_id } =>
            GenericEvent::NewInboundSession { query, inbound_session_id, peer_id },
        GenericEvent::ReceivedData { outbound_session_id, data } => GenericEvent::ReceivedData {
            outbound_session_id,
            data,
        },
        GenericEvent::SessionFailed { session_id, error } => GenericEvent::SessionFailed {
            session_id,
            error: widened_error(error),
        },
        GenericEvent::SessionClosedByRequest { session_id } =>
            GenericEvent::SessionClosedByRequest { session_id },
        GenericEvent::SessionClosedByPeer { session_id } => GenericEvent::SessionClosedByPeer {
            session_id,
        },
    }
}

impl From<HandlerSessionError> for SessionError {
    fn from(e: HandlerSessionError) -> (r: SessionError) {
        match e {
            HandlerSessionError::Timeout { substream_timeout } => SessionError::Timeout {
                substream_timeout,
            },
            HandlerSessionError::IOError(io) => SessionError::IOError(io),
            HandlerSessionError::RemoteDoesntSupportProtocol { protocol_name } =>
                SessionError::RemoteDoesntSupportProtocol { protocol_name },
        }
    }
}

impl vstd::std_specs::convert::FromSpecImpl<HandlerSessionError> for SessionError {
    open spec fn obeys_from_spec() -> bool {
        true
    }

    open spec fn from_spec(e: HandlerSessionError) -> SessionError {
        widened_error(e)
    }
}

impl<Query, Data> From<ToBehaviourEvent<Query, Data>> for Event<Query, Data> {
    fn from(event: ToBehaviourEvent<Query, Data>) -> (r: Event<Query, Data>) {
        match event {
            GenericEvent::NewInboundSession { query, inbound_session_id, peer_id } => {
                GenericEvent::NewInboundSession { query, inbound_session_id, peer_id }
            },
            GenericEvent::ReceivedData { outbound_session_id, data } => {
                GenericEvent::ReceivedData { outbound_session_id, data }
            },
            GenericEvent::SessionFailed { session_id, error } => {
                GenericEvent::SessionFailed { session_id, error: SessionError::from(error) }
            },
            GenericEvent::SessionClosedByRequest { session_id } => {
                GenericEvent::SessionClosedByRequest { session_id }
            },
            GenericEvent::SessionClosedByPeer { session_id } => {
                GenericEvent::SessionClosedByPeer { session_id }
            },
        }
    }
}

impl<Query, Data> vstd::std_specs::convert::FromSpecImpl<ToBehaviourEvent<Query, Data>> for Event<Query, Data> {
    open spec fn obeys_from_spec() -> bool {
        true
    }

    open spec fn from_spec(e: ToBehaviourEvent<Query, Data>) -> Event<Query, Data> {
        widened_event(e)
    }
}

} // verus!
