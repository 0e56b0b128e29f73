use std::io::{Error, ErrorKind};
use std::time::Duration;

use papyrus_network::behaviour::{
    Behaviour, FromSwarm, PeerNotConnected, SessionIdNotFoundError, ToSwarm,
};
use papyrus_network::event::{Config, GenericEvent, HandlerSessionError, SessionError};
use papyrus_network::handler::RequestFromBehaviourEvent;
use papyrus_network::peer::{ConnectionId, PeerId};
use papyrus_network::session_id::{InboundSessionId, OutboundSessionId, SessionId};

type Node = Behaviour<String, u32>;

fn config() -> Config {
    Config { protocol_name: "/app/proto/1.0.0".to_string(), substream_timeout: Duration::from_secs(5) }
}

fn peer(b: u8) -> PeerId {
    PeerId::from_bytes(vec![b, b, b])
}

fn conn(value: usize) -> ConnectionId {
    ConnectionId { value }
}

fn connected(peer_byte: u8, c: usize) -> Node {
    let mut node = Node::new(config());
    node.on_swarm_event(FromSwarm::ConnectionEstablished { peer_id: peer(peer_byte), connection_id: conn(c) });
    node
}

fn inbound_id(value: usize) -> SessionId {
    SessionId::InboundSessionId(InboundSessionId { value })
}

fn outbound_id(value: usize) -> SessionId {
    SessionId::OutboundSessionId(OutboundSessionId { value })
}

#[test]
fn send_query_routes_to_the_peers_connection() {
    let mut node = connected(7, 3);
    let first = node.send_query("Q1".to_string(), peer(7)).unwrap();
    let second = node.send_query("Q2".to_string(), peer(7)).unwrap();
    assert_eq!(first, OutboundSessionId { value: 0 });
    assert_eq!(second, OutboundSessionId { value: 1 });
    match node.poll() {
        Some(ToSwarm::NotifyHandler {
            peer_id,
            connection_id,
            event: RequestFromBehaviourEvent::CreateOutboundSession { query, outbound_session_id },
        }) => {
            assert_eq!(peer_id.bytes, vec![7, 7, 7]);
            assert_eq!(connection_id, conn(3));
            assert_eq!(query, "Q1");
            assert_eq!(outbound_session_id, first);
        }
        other => panic!("unexpected {:?}", other),
    }
    let (p, c) = node.get_peer_id_and_connection_id_from_session_id(outbound_id(1)).unwrap();
    assert_eq!(p.bytes, vec![7, 7, 7]);
    assert_eq!(c, conn(3));
}

#[test]
fn query_to_unconnected_peer_fails() {
    let mut node = connected(1, 1);
    assert_eq!(node.send_query("Q".to_string(), peer(2)), Err(PeerNotConnected));
    assert_eq!(node.next_outbound_session_id, OutboundSessionId { value: 0 });
    assert!(node.routes.is_empty());
    assert!(node.poll().is_none());
}

#[test]
fn unknown_session_ids_are_refused() {
    let mut node = connected(1, 1);
    assert_eq!(node.send_data(4, InboundSessionId { value: 0 }), Err(SessionIdNotFoundError));
    assert_eq!(node.close_session(outbound_id(0)), Err(SessionIdNotFoundError));
    assert!(node.get_peer_id_and_connection_id_from_session_id(inbound_id(0)).is_err());
    assert!(node.poll().is_none());
}

#[test]
fn inbound_session_is_routed_then_answered_and_closed() {
    let mut node = connected(9, 4);
    node.on_connection_handler_event(
        peer(9),
        conn(4),
        GenericEvent::NewInboundSession {
            query: "Q1".to_string(),
            inbound_session_id: InboundSessionId { value: 11 },
            peer_id: peer(9),
        },
    );
    assert!(matches!(node.poll(), Some(ToSwarm::GenerateEvent(GenericEvent::NewInboundSession { inbound_session_id, .. })) if inbound_session_id.value == 11));
    node.send_data(1, InboundSessionId { value: 11 }).unwrap();
    node.send_data(2, InboundSessionId { value: 11 }).unwrap();
    node.close_session(inbound_id(11)).unwrap();
    // The route stays until the handler reports the close.
    node.send_data(3, InboundSessionId { value: 11 }).unwrap();
    let mut data = Vec::new();
    let mut closes = 0;
    while let Some(ToSwarm::NotifyHandler { connection_id, event, .. }) = node.poll() {
        assert_eq!(connection_id, conn(4));
        match event {
            RequestFromBehaviourEvent::SendData { data: d, .. } => data.push(d),
            RequestFromBehaviourEvent::CloseSession { session_id } => {
                assert_eq!(session_id, inbound_id(11));
                assert_eq!(data, vec![1, 2]);
                closes += 1;
            }
            other => panic!("unexpected {:?}", other),
        }
    }
    assert_eq!(data, vec![1, 2, 3]);
    assert_eq!(closes, 1);
    node.on_connection_handler_event(peer(9), conn(4), GenericEvent::SessionClosedByRequest { session_id: inbound_id(11) });
    assert!(node.routes.is_empty());
    assert!(matches!(node.poll(), Some(ToSwarm::GenerateEvent(GenericEvent::SessionClosedByRequest { session_id })) if session_id == inbound_id(11)));
    assert_eq!(node.send_data(4, InboundSessionId { value: 11 }), Err(SessionIdNotFoundError));
}

#[test]
fn unsupported_protocol_fails_the_session_and_drops_its_route() {
    let mut node = connected(2, 8);
    let id = node.send_query("Q".to_string(), peer(2)).unwrap();
    node.poll();
    node.on_connection_handler_event(
        peer(2),
        conn(8),
        GenericEvent::SessionFailed {
            session_id: SessionId::OutboundSessionId(id),
            error: HandlerSessionError::RemoteDoesntSupportProtocol { protocol_name: "/app/proto/1.0.0".to_string() },
        },
    );
    match node.poll() {
        Some(ToSwarm::GenerateEvent(GenericEvent::SessionFailed {
            session_id,
            error: SessionError::RemoteDoesntSupportProtocol { protocol_name },
        })) => {
            assert_eq!(session_id, SessionId::OutboundSessionId(id));
            assert_eq!(protocol_name, "/app/proto/1.0.0");
        }
        other => panic!("unexpected {:?}", other),
    }
    assert!(node.get_peer_id_and_connection_id_from_session_id(SessionId::OutboundSessionId(id)).is_err());
}

#[test]
fn handler_errors_are_widened() {
    let mut node = connected(2, 8);
    node.send_query("Q".to_string(), peer(2)).unwrap();
    node.send_query("Q".to_string(), peer(2)).unwrap();
    node.poll();
    node.poll();
    node.on_connection_handler_event(
        peer(2),
        conn(8),
        GenericEvent::SessionFailed {
            session_id: outbound_id(0),
            error: HandlerSessionError::Timeout { substream_timeout: Duration::from_secs(5) },
        },
    );
    node.on_connection_handler_event(
        peer(2),
        conn(8),
        GenericEvent::SessionFailed {
            session_id: outbound_id(1),
            error: HandlerSessionError::IOError(Error::new(ErrorKind::Other, "reset")),
        },
    );
    assert!(matches!(node.poll(), Some(ToSwarm::GenerateEvent(GenericEvent::SessionFailed { error: SessionError::Timeout { substream_timeout }, .. })) if substream_timeout == Duration::from_secs(5)));
    assert!(matches!(node.poll(), Some(ToSwarm::GenerateEvent(GenericEvent::SessionFailed { error: SessionError::IOError(_), .. }))));
    assert!(node.routes.is_empty());
}

#[test]
fn received_data_keeps_the_route() {
    let mut node = connected(2, 8);
    let id = node.send_query("Q".to_string(), peer(2)).unwrap();
    node.poll();
    node.on_connection_handler_event(peer(2), conn(8), GenericEvent::ReceivedData { outbound_session_id: id, data: 42 });
    assert!(matches!(node.poll(), Some(ToSwarm::GenerateEvent(GenericEvent::ReceivedData { data: 42, .. }))));
    assert_eq!(node.routes.len(), 1);
    node.on_connection_handler_event(peer(2), conn(8), GenericEvent::SessionClosedByPeer { session_id: SessionId::OutboundSessionId(id) });
    assert!(node.routes.is_empty());
}

#[test]
fn connection_drop_fails_its_sessions_only() {
    let mut node = connected(1, 1);
    node.on_swarm_event(FromSwarm::ConnectionEstablished { peer_id: peer(2), connection_id: conn(2) });
    let a = node.send_query("Qa".to_string(), peer(1)).unwrap();
    let b = node.send_query("Qb".to_string(), peer(2)).unwrap();
    node.on_connection_handler_event(
        peer(1),
        conn(1),
        GenericEvent::NewInboundSession { query: "Qi".to_string(), inbound_session_id: InboundSessionId { value: 5 }, peer_id: peer(1) },
    );
    while node.poll().is_some() {}
    node.on_swarm_event(FromSwarm::ConnectionClosed { peer_id: peer(1), connection_id: conn(1) });
    assert!(matches!(node.poll(), Some(ToSwarm::GenerateEvent(GenericEvent::SessionFailed { session_id, error: SessionError::ConnectionClosed })) if session_id == SessionId::OutboundSessionId(a)));
    assert!(matches!(node.poll(), Some(ToSwarm::GenerateEvent(GenericEvent::SessionFailed { session_id, error: SessionError::ConnectionClosed })) if session_id == inbound_id(5)));
    assert!(node.poll().is_none());
    assert_eq!(node.routes.len(), 1);
    assert_eq!(node.routes[0].session_id, SessionId::OutboundSessionId(b));
    // The peer is no longer connected, and a second close reports nothing more.
    assert_eq!(node.send_query("Q".to_string(), peer(1)), Err(PeerNotConnected));
    assert_eq!(node.close_session(SessionId::OutboundSessionId(a)), Err(SessionIdNotFoundError));
    node.on_swarm_event(FromSwarm::ConnectionClosed { peer_id: peer(1), connection_id: conn(1) });
    assert!(node.poll().is_none());
}

#[test]
fn established_connection_is_registered_once() {
    let mut node = connected(3, 3);
    node.on_swarm_event(FromSwarm::ConnectionEstablished { peer_id: peer(3), connection_id: conn(3) });
    assert_eq!(node.connections.len(), 1);
    node.on_swarm_event(FromSwarm::ConnectionEstablished { peer_id: peer(3), connection_id: conn(4) });
    assert_eq!(node.connections.len(), 2);
    node.on_swarm_event(FromSwarm::Other);
    assert_eq!(node.connections.len(), 2);
}

#[test]
fn new_handlers_share_the_inbound_counter() {
    let node = Node::new(config());
    let a = node.handle_established_inbound_connection(conn(1), peer(1));
    let b = node.handle_established_outbound_connection(conn(2), peer(2));
    assert_eq!(a.listen_protocol().inbound_session_id, InboundSessionId { value: 0 });
    assert_eq!(b.listen_protocol().inbound_session_id, InboundSessionId { value: 1 });
    assert_eq!(b.peer_id.bytes, vec![2, 2, 2]);
}

#[test]
fn late_ending_event_is_dropped() {
    let mut node = connected(9, 4);
    node.on_connection_handler_event(
        peer(9),
        conn(4),
        GenericEvent::NewInboundSession { query: "Q".to_string(), inbound_session_id: InboundSessionId { value: 1 }, peer_id: peer(9) },
    );
    node.close_session(inbound_id(1)).unwrap();
    while node.poll().is_some() {}
    node.on_connection_handler_event(peer(9), conn(4), GenericEvent::SessionClosedByRequest { session_id: inbound_id(1) });
    // Flushing the closed session then fails: the application already heard that it ended.
    node.on_connection_handler_event(
        peer(9),
        conn(4),
        GenericEvent::SessionFailed {
            session_id: inbound_id(1),
            error: HandlerSessionError::IOError(Error::new(ErrorKind::Other, "reset")),
        },
    );
    assert!(matches!(node.poll(), Some(ToSwarm::GenerateEvent(GenericEvent::SessionClosedByRequest { session_id })) if session_id == inbound_id(1)));
    assert!(node.poll().is_none());
}

#[test]
fn ending_event_after_connection_loss_is_dropped() {
    let mut node = connected(2, 8);
    let id = node.send_query("Q".to_string(), peer(2)).unwrap();
    while node.poll().is_some() {}
    node.on_swarm_event(FromSwarm::ConnectionClosed { peer_id: peer(2), connection_id: conn(8) });
    node.on_connection_handler_event(peer(2), conn(8), GenericEvent::SessionClosedByPeer { session_id: SessionId::OutboundSessionId(id) });
    assert!(matches!(node.poll(), Some(ToSwarm::GenerateEvent(GenericEvent::SessionFailed { error: SessionError::ConnectionClosed, .. }))));
    assert!(node.poll().is_none());
}

#[test]
fn ending_event_for_unknown_session_is_dropped() {
    let mut node = connected(2, 8);
    node.on_connection_handler_event(peer(2), conn(8), GenericEvent::SessionClosedByPeer { session_id: inbound_id(77) });
    assert!(node.poll().is_none());
}
