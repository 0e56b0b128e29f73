use std::io::{Error, ErrorKind};
use std::sync::atomic::AtomicUsize;
use std::sync::Arc;
use std::time::Duration;

use papyrus_network::event::{Config, GenericEvent, HandlerSessionError};
use papyrus_network::handler::{
    DialUpgradeError, Handler, HandlerEvent, OutboundPoll, RequestFromBehaviourEvent,
};
use papyrus_network::inbound_session::InboundStep;
use papyrus_network::peer::PeerId;
use papyrus_network::session_id::{InboundSessionId, OutboundSessionId, SessionId};

fn config() -> Config {
    Config { protocol_name: "/app/proto/1.0.0".to_string(), substream_timeout: Duration::from_secs(10) }
}

fn handler(counter: Arc<AtomicUsize>) -> Handler<String, u32> {
    Handler::new(config(), counter, PeerId::from_bytes(vec![1, 2, 3]))
}

fn inbound(value: usize) -> InboundSessionId {
    InboundSessionId { value }
}

fn outbound(value: usize) -> OutboundSessionId {
    OutboundSessionId { value }
}

fn io_error() -> Error {
    Error::new(ErrorKind::Other, "broken pipe")
}

/// Drives the writes of the handler's inbound sessions until none has I/O to start, and
/// returns the frames written, in order.
fn drain_writes(h: &mut Handler<String, u32>) -> Vec<u32> {
    let mut written = Vec::new();
    loop {
        let mut progressed = false;
        for (id, step) in h.next_inbound_steps() {
            match step {
                InboundStep::Write(d) => {
                    written.push(d);
                    assert!(!h.on_inbound_io(id, Ok(())));
                    progressed = true;
                }
                InboundStep::CloseWrite => {
                    assert!(h.on_inbound_io(id, Ok(())));
                    progressed = true;
                }
                InboundStep::Idle => {}
            }
        }
        if !progressed {
            return written;
        }
    }
}

#[test]
fn inbound_session_round_trip() {
    let mut h = handler(Arc::new(AtomicUsize::new(0)));
    h.on_fully_negotiated_inbound("Q1".to_string(), inbound(0));
    match h.poll() {
        Some(HandlerEvent::NotifyBehaviour(GenericEvent::NewInboundSession {
            query,
            inbound_session_id,
            peer_id,
        })) => {
            assert_eq!(query, "Q1");
            assert_eq!(inbound_session_id, inbound(0));
            assert_eq!(peer_id.bytes, vec![1, 2, 3]);
        }
        other => panic!("unexpected {:?}", other),
    }
    h.on_behaviour_event(RequestFromBehaviourEvent::SendData { data: 1, inbound_session_id: inbound(0) });
    h.on_behaviour_event(RequestFromBehaviourEvent::SendData { data: 2, inbound_session_id: inbound(0) });
    h.on_behaviour_event(RequestFromBehaviourEvent::CloseSession {
        session_id: SessionId::InboundSessionId(inbound(0)),
    });
    match h.poll() {
        Some(HandlerEvent::NotifyBehaviour(GenericEvent::SessionClosedByRequest { session_id })) => {
            assert_eq!(session_id, SessionId::InboundSessionId(inbound(0)));
        }
        other => panic!("unexpected {:?}", other),
    }
    assert_eq!(drain_writes(&mut h), vec![1, 2]);
    // The queue is written: the next pass begins closing, and the close ends the session.
    assert!(h.poll().is_none());
    assert_eq!(drain_writes(&mut h), Vec::<u32>::new());
    assert!(h.inbound.is_empty());
    assert!(h.poll().is_none());
}

#[test]
fn data_after_close_is_dropped() {
    let mut h = handler(Arc::new(AtomicUsize::new(0)));
    h.on_fully_negotiated_inbound("Q".to_string(), inbound(4));
    h.on_behaviour_event(RequestFromBehaviourEvent::CloseSession {
        session_id: SessionId::InboundSessionId(inbound(4)),
    });
    h.on_behaviour_event(RequestFromBehaviourEvent::SendData { data: 3, inbound_session_id: inbound(4) });
    h.poll();
    h.poll();
    assert_eq!(drain_writes(&mut h), Vec::<u32>::new());
    assert!(h.inbound.is_empty());
}

#[test]
fn data_for_unknown_inbound_session_is_dropped() {
    let mut h = handler(Arc::new(AtomicUsize::new(0)));
    h.on_behaviour_event(RequestFromBehaviourEvent::SendData { data: 3, inbound_session_id: inbound(9) });
    assert!(h.inbound.is_empty());
    assert!(h.poll().is_none());
}

#[test]
fn frames_are_written_in_queueing_order() {
    let mut h = handler(Arc::new(AtomicUsize::new(0)));
    h.on_fully_negotiated_inbound("Q".to_string(), inbound(0));
    for d in [5, 3, 8, 3] {
        h.on_behaviour_event(RequestFromBehaviourEvent::SendData { data: d, inbound_session_id: inbound(0) });
    }
    assert_eq!(drain_writes(&mut h), vec![5, 3, 8, 3]);
}

#[test]
fn inbound_write_error_fails_the_session() {
    let mut h = handler(Arc::new(AtomicUsize::new(0)));
    h.on_fully_negotiated_inbound("Q".to_string(), inbound(2));
    h.poll();
    h.on_behaviour_event(RequestFromBehaviourEvent::SendData { data: 7, inbound_session_id: inbound(2) });
    let steps = h.next_inbound_steps();
    assert!(matches!(steps[0], (id, InboundStep::Write(7)) if id == inbound(2)));
    assert!(h.on_inbound_io(inbound(2), Err(io_error())));
    assert!(h.inbound.is_empty());
    match h.poll() {
        Some(HandlerEvent::NotifyBehaviour(GenericEvent::SessionFailed {
            session_id,
            error: HandlerSessionError::IOError(_),
        })) => assert_eq!(session_id, SessionId::InboundSessionId(inbound(2))),
        other => panic!("unexpected {:?}", other),
    }
}

#[test]
fn outbound_session_streams_data_until_end() {
    let mut h = handler(Arc::new(AtomicUsize::new(0)));
    h.on_behaviour_event(RequestFromBehaviourEvent::CreateOutboundSession {
        query: "Q1".to_string(),
        outbound_session_id: outbound(0),
    });
    match h.poll() {
        Some(HandlerEvent::OutboundSubstreamRequest { query, outbound_session_id, protocol_name, timeout }) => {
            assert_eq!(query, "Q1");
            assert_eq!(outbound_session_id, outbound(0));
            assert_eq!(protocol_name, "/app/proto/1.0.0");
            assert_eq!(timeout, Duration::from_secs(10));
        }
        other => panic!("unexpected {:?}", other),
    }
    h.on_fully_negotiated_outbound(outbound(0));
    assert!(h.on_outbound_poll(outbound(0), OutboundPoll::Item(1)));
    assert!(h.on_outbound_poll(outbound(0), OutboundPoll::Item(2)));
    assert!(!h.on_outbound_poll(outbound(0), OutboundPoll::End));
    let mut seen = Vec::new();
    while let Some(HandlerEvent::NotifyBehaviour(e)) = h.poll() {
        seen.push(e);
    }
    assert_eq!(seen.len(), 3);
    assert!(matches!(seen[0], GenericEvent::ReceivedData { outbound_session_id, data: 1 } if outbound_session_id == outbound(0)));
    assert!(matches!(seen[1], GenericEvent::ReceivedData { outbound_session_id, data: 2 } if outbound_session_id == outbound(0)));
    assert!(matches!(seen[2], GenericEvent::SessionClosedByPeer { session_id } if session_id == SessionId::OutboundSessionId(outbound(0))));
    // The session is gone: later outcomes for it are dropped.
    assert!(!h.on_outbound_poll(outbound(0), OutboundPoll::Item(3)));
    assert!(h.poll().is_none());
}

#[test]
fn outbound_read_error_fails_the_session() {
    let mut h = handler(Arc::new(AtomicUsize::new(0)));
    h.on_fully_negotiated_outbound(outbound(1));
    assert!(!h.on_outbound_poll(outbound(1), OutboundPoll::Error(io_error())));
    assert!(h.outbound.is_empty());
    assert!(matches!(
        h.poll(),
        Some(HandlerEvent::NotifyBehaviour(GenericEvent::SessionFailed {
            session_id: SessionId::OutboundSessionId(OutboundSessionId { value: 1 }),
            error: HandlerSessionError::IOError(_),
        }))
    ));
}

#[test]
fn concurrent_outbound_sessions_are_independent() {
    let mut h = handler(Arc::new(AtomicUsize::new(0)));
    h.on_fully_negotiated_outbound(outbound(1));
    h.on_fully_negotiated_outbound(outbound(2));
    h.on_outbound_poll(outbound(2), OutboundPoll::Item(20));
    h.on_outbound_poll(outbound(1), OutboundPoll::Item(10));
    assert!(matches!(h.poll(), Some(HandlerEvent::NotifyBehaviour(GenericEvent::ReceivedData { outbound_session_id, data: 20 })) if outbound_session_id == outbound(2)));
    assert!(matches!(h.poll(), Some(HandlerEvent::NotifyBehaviour(GenericEvent::ReceivedData { outbound_session_id, data: 10 })) if outbound_session_id == outbound(1)));
    h.on_outbound_poll(outbound(2), OutboundPoll::End);
    h.on_outbound_poll(outbound(1), OutboundPoll::End);
    assert!(h.outbound.is_empty());
}

#[test]
fn closing_an_outbound_session_drops_it() {
    let mut h = handler(Arc::new(AtomicUsize::new(0)));
    h.on_fully_negotiated_outbound(outbound(3));
    h.on_behaviour_event(RequestFromBehaviourEvent::CloseSession {
        session_id: SessionId::OutboundSessionId(outbound(3)),
    });
    assert!(h.outbound.is_empty());
    assert!(matches!(h.poll(), Some(HandlerEvent::NotifyBehaviour(GenericEvent::SessionClosedByRequest { session_id })) if session_id == SessionId::OutboundSessionId(outbound(3))));
}

#[test]
fn dial_errors_become_session_failures() {
    let mut h = handler(Arc::new(AtomicUsize::new(0)));
    h.on_dial_upgrade_error(outbound(0), DialUpgradeError::Timeout);
    h.on_dial_upgrade_error(outbound(1), DialUpgradeError::Apply(io_error()));
    h.on_dial_upgrade_error(outbound(2), DialUpgradeError::NegotiationFailed);
    h.on_dial_upgrade_error(outbound(3), DialUpgradeError::Io(io_error()));
    match h.poll() {
        Some(HandlerEvent::NotifyBehaviour(GenericEvent::SessionFailed {
            session_id,
            error: HandlerSessionError::Timeout { substream_timeout },
        })) => {
            assert_eq!(session_id, SessionId::OutboundSessionId(outbound(0)));
            assert_eq!(substream_timeout, Duration::from_secs(10));
        }
        other => panic!("unexpected {:?}", other),
    }
    assert!(matches!(h.poll(), Some(HandlerEvent::NotifyBehaviour(GenericEvent::SessionFailed { error: HandlerSessionError::IOError(_), .. }))));
    match h.poll() {
        Some(HandlerEvent::NotifyBehaviour(GenericEvent::SessionFailed {
            session_id,
            error: HandlerSessionError::RemoteDoesntSupportProtocol { protocol_name },
        })) => {
            assert_eq!(session_id, SessionId::OutboundSessionId(outbound(2)));
            assert_eq!(protocol_name, "/app/proto/1.0.0");
        }
        other => panic!("unexpected {:?}", other),
    }
    assert!(matches!(h.poll(), Some(HandlerEvent::NotifyBehaviour(GenericEvent::SessionFailed { error: HandlerSessionError::IOError(_), .. }))));
    assert!(h.poll().is_none());
}

#[test]
fn inbound_ids_increase_across_handlers() {
    let counter = Arc::new(AtomicUsize::new(0));
    let a = handler(counter.clone());
    let b = handler(counter);
    let first = a.listen_protocol();
    let second = b.listen_protocol();
    let third = a.listen_protocol();
    assert_eq!(first.inbound_session_id, inbound(0));
    assert_eq!(second.inbound_session_id, inbound(1));
    assert_eq!(third.inbound_session_id, inbound(2));
    assert_eq!(first.protocol_name, "/app/proto/1.0.0");
    assert_eq!(first.timeout, Duration::from_secs(10));
}

#[test]
fn handler_poll_hands_out_events_in_order() {
    let mut h = handler(Arc::new(AtomicUsize::new(0)));
    h.on_fully_negotiated_outbound(outbound(0));
    for d in 0..5 {
        h.on_outbound_poll(outbound(0), OutboundPoll::Item(d));
    }
    for d in 0..5 {
        assert!(matches!(h.poll(), Some(HandlerEvent::NotifyBehaviour(GenericEvent::ReceivedData { data, .. })) if data == d));
    }
    assert!(h.poll().is_none());
}
