use std::collections::VecDeque;
use std::sync::atomic::AtomicUsize;
use std::sync::Arc;

use vstd::prelude::*;

use crate::event::{widened_event, Config, Event, GenericEvent, SessionError, ToBehaviourEvent};
use crate::handler::{Handler, RequestFromBehaviourEvent};
use crate::peer::{ConnectionId, PeerId};
use crate::queue::popped_front;
use crate::session_id::{InboundSessionId, OutboundSessionId, SessionId};

verus! {

/// The given session identifier is not routed to any connection.
#[derive(Clone, Copy, Debug, PartialEq, Eq, Structural)]
pub struct SessionIdNotFoundError;

/// No connection to the given peer is established.
#[derive(Clone, Copy, Debug, PartialEq, Eq, Structural)]
pub struct PeerNotConnected;

/// What the behaviour hands to the swarm: an event for the application, or a command for the
/// handler of one connection.
#[derive(Debug)]
pub enum ToSwarm<Query, Data> {
    GenerateEvent(Event<Query, Data>),
    NotifyHandler {
        peer_id: PeerId,
        connection_id: ConnectionId,
        event: RequestFromBehaviourEvent<Query, Data>,
    },
}

/// What the swarm tells the behaviour of its connections.
#[derive(Debug)]
pub enum FromSwarm {
    ConnectionEstablished { peer_id: PeerId, connection_id: ConnectionId },
    ConnectionClosed { peer_id: PeerId, connection_id: ConnectionId },
    Other,
}

/// The connection that carries a live session.
#[derive(Debug)]
pub struct Route {
    pub session_id: SessionId,
    pub peer_id: PeerId,
    pub connection_id: ConnectionId,
}

/// An established connection to a peer.
#[derive(Debug)]
pub struct Connection {
    pub peer_id: PeerId,
    pub connection_id: ConnectionId,
}

/// The node's side of the protocol: routes sessions to the connections that carry them, and
/// hands the application's requests to those connections' handlers.
pub struct Behaviour<Query, Data> {
    pub config: Config,
    pub pending_events: VecDeque<ToSwarm<Query, Data>>,
    pub connections: Vec<Connection>,
    pub routes: Vec<Route>,
    pub next_outbound_session_id: OutboundSessionId,
    pub next_inbound_session_id: Arc<AtomicUsize>,
    /// The sessions for which an ending event was handed upward.
    pub ended: Ghost<Set<SessionId>>,
}

/// The event that reports a session lost with its connection.
pub open spec fn connection_closed_event<Query, Data>(session_id: SessionId) -> ToSwarm<Query, Data> {
    ToSwarm::GenerateEvent(
        GenericEvent::SessionFailed { session_id, error: SessionError::ConnectionClosed },
    )
}

/// Whether an outbound identifier was handed out before `next`.
pub open spec fn allocated_before(id: SessionId, next: OutboundSessionId) -> bool {
    match id {
        SessionId::OutboundSessionId(o) => o.value < next.value,
        SessionId::InboundSessionId(_) => true,
    }
}

impl<Query, Data> Behaviour<Query, Data> {
    pub open spec fn wf(&self) -> bool {
        &&& forall|i: int, j: int|
            0 <= i < j < self.routes@.len() ==> self.routes@[i].session_id
                != self.routes@[j].session_id
        &&& forall|i: int|
            0 <= i < self.routes@.len() ==> allocated_before(
                #[trigger] self.routes@[i].session_id,
                self.next_outbound_session_id,
            )
        &&& forall|s: SessionId|
            #[trigger] self.ended@.contains(s) ==> allocated_before(
                s,
                self.next_outbound_session_id,
            )
        &&& distinct_connections(self.connections@)
    }

    /// No session that was reported ended is still routed.
    pub open spec fn routes_exclude_ended(&self) -> bool {
        forall|i: int|
            0 <= i < self.routes@.len() ==> !self.ended@.contains(#[trigger] self.routes@[i].session_id)
    }

    /// A routed session has not been reported ended. Since an ending event is handed upward only
    /// for a routed session, and takes the route away, the application hears of each session's
    /// end at most once.
    pub proof fn lemma_routed_session_not_ended(&self, s: SessionId)
        requires
            self.routes_exclude_ended(),
            self.has_route(s),
        ensures
            !self.ended@.contains(s),
    {
        let i = choose|i: int| 0 <= i < self.routes@.len() && self.routes@[i].session_id == s;
        assert(!self.ended@.contains(self.routes@[i].session_id));
    }

    /// No session lost its route between `pre` and `post` without an ending event for it being
    /// handed upward, and no ended session is forgotten as ended.
    pub open spec fn ends_reported(pre: Self, post: Self) -> bool {
        &&& forall|s: SessionId|
            #[trigger] pre.has_route(s) && !post.has_route(s) ==> post.ended@.contains(s)
        &&& pre.ended@.subset_of(post.ended@)
    }

    /// Whether the session is routed to a connection.
    pub open spec fn has_route(&self, id: SessionId) -> bool {
        exists|i: int| 0 <= i < self.routes@.len() && self.routes@[i].session_id == id
    }

    /// Where the route of the session stands.
    pub open spec fn route_index(&self, id: SessionId) -> int {
        choose|i: int| 0 <= i < self.routes@.len() && self.routes@[i].session_id == id
    }

    /// Whether a connection to the peer is established.
    pub open spec fn is_connected(&self, peer: Seq<u8>) -> bool {
        exists|i: int| 0 <= i < self.connections@.len() && self.connections@[i].peer_id@ == peer
    }

    pub fn new(config: Config) -> (r: Self)
        ensures
            r.wf(),
            r.routes_exclude_ended(),
            r.config == config,
            r.pending_events@.len() == 0,
            r.connections@.len() == 0,
            r.routes@.len() == 0,
            r.next_outbound_session_id.value == 0,
            r.ended@ == Set::<SessionId>::empty(),
    {
        Behaviour {
            config,
            pending_events: VecDeque::new(),
            connections: Vec::new(),
            routes: Vec::new(),
            next_outbound_session_id: OutboundSessionId::default(),
            next_inbound_session_id: Arc::new(AtomicUsize::new(0)),
            ended: Ghost(Set::empty()),
        }
    }

    proof fn lemma_route_index(&self, k: int)
        requires
            self.wf(),
            0 <= k < self.routes@.len(),
        ensures
            self.has_route(self.routes@[k].session_id),
            self.route_index(self.routes@[k].session_id) == k,
    {
        let id = self.routes@[k].session_id;
        assert(0 <= k < self.routes@.len() && self.routes@[k].session_id == id);
        let j = self.route_index(id);
        if j != k {
            if j < k {
                assert(self.routes@[j].session_id != self.routes@[k].session_id);
            } else {
                assert(self.routes@[k].session_id != self.routes@[j].session_id);
            }
        }
    }

    fn find_route(&self, id: SessionId) -> (r: Option<usize>)
        requires
            self.wf(),
        ensures
            match r {
                Some(k) => k < self.routes@.len() && self.routes@[k as int].session_id == id
                    && self.has_route(id) && self.route_index(id) == k,
                None => !self.has_route(id),
            },
    {
        let mut k: usize = 0;
        while k < self.routes.len()
            invariant
                self.wf(),
                k <= self.routes@.len(),
                forall|i: int| 0 <= i < k ==> self.routes@[i].session_id != id,
            decreases self.routes@.len() - k,
        {
            if self.routes[k].session_id == id {
                proof {
                    self.lemma_route_index(k as int);
                }
                return Some(k);
            }
            k = k + 1;
        }
        None
    }

    /// The peer and the connection that carry the session.
    pub fn get_peer_id_and_connection_id_from_session_id(&self, session_id: SessionId) -> (r:
        Result<(PeerId, ConnectionId), SessionIdNotFoundError>)
        requires
            self.wf(),
        ensures
            r is Err <==> !self.has_route(session_id),
            match r {
                Ok((peer_id, connection_id)) => {
                    let route = self.routes@[self.route_index(session_id)];
                    peer_id@ == route.peer_id@ && connection_id == route.connection_id
                },
                Err(_) => true,
            },
    {
        match self.find_route(session_id) {
            Some(k) => Ok((self.routes[k].peer_id.duplicate(), self.routes[k].connection_id)),
            None => Err(SessionIdNotFoundError),
        }
    }

    /// A handler for a new connection to `peer_id`, sharing the node's counter of inbound
    /// session identifiers.
    pub fn handle_established_inbound_connection(
        &self,
        connection_id: ConnectionId,
        peer_id: PeerId,
    ) -> (r: Handler<Query, Data>)
        ensures
            r.wf(),
            r.peer_id@ == peer_id@,
            r.next_inbound_session_id == self.next_inbound_session_id,
            r.config.protocol_name@ == self.config.protocol_name@,
            r.config.substream_timeout == self.config.substream_timeout,
            r.inbound@.len() == 0,
            r.outbound@.len() == 0,
            r.pending_events@.len() == 0,
    {
        self.new_handler(peer_id)
    }

    /// A handler for a new connection to `peer_id`, sharing the node's counter of inbound
    /// session identifiers.
    pub fn handle_established_outbound_connection(
        &self,
        connection_id: ConnectionId,
        peer_id: PeerId,
    ) -> (r: Handler<Query, Data>)
        ensures
            r.wf(),
            r.peer_id@ == peer_id@,
            r.next_inbound_session_id == self.next_inbound_session_id,
            r.config.protocol_name@ == self.config.protocol_name@,
            r.config.substream_timeout == self.config.substream_timeout,
            r.inbound@.len() == 0,
            r.outbound@.len() == 0,
            r.pending_events@.len() == 0,
    {
        self.new_handler(peer_id)
    }

    fn new_handler(&self, peer_id: PeerId) -> (r: Handler<Query, Data>)
        ensures
            r.wf(),
            r.peer_id@ == peer_id@,
            r.next_inbound_session_id == self.next_inbound_session_id,
            r.config.protocol_name@ == self.config.protocol_name@,
            r.config.substream_timeout == self.config.substream_timeout,
            r.inbound@.len() == 0,
            r.outbound@.len() == 0,
            r.pending_events@.len() == 0,
    {
        let config = Config {
            protocol_name: self.config.protocol_name.clone(),
            substream_timeout: self.config.substream_timeout,
        };
        Handler::new(config, self.next_inbound_session_id.clone(), peer_id)
    }

    /// Hands out the oldest pending event or command, if any.
    pub fn poll(&mut self) -> (r: Option<ToSwarm<Query, Data>>)
        requires
            old(self).wf(),
        ensures
            final(self).wf(),
            final(self).routes_exclude_ended() == old(self).routes_exclude_ended(),
            final(self).routes@ == old(self).routes@,
            final(self).connections@ == old(self).connections@,
            final(self).ended@ == old(self).ended@,
            final(self).next_outbound_session_id == old(self).next_outbound_session_id,
            popped_front(old(self).pending_events@, final(self).pending_events@, r),
    {
        self.pending_events.pop_front()
    }

    fn find_connection(&self, peer_id: &PeerId) -> (r: Option<usize>)
        ensures
            match r {
                Some(k) => k < self.connections@.len() && self.connections@[k as int].peer_id@
                    == peer_id@,
                None => !self.is_connected(peer_id@),
            },
    {
        let mut k: usize = 0;
        while k < self.connections.len()
            invariant
                k <= self.connections@.len(),
                forall|i: int| 0 <= i < k ==> self.connections@[i].peer_id@ != peer_id@,
            decreases self.connections@.len() - k,
        {
            if self.connections[k].peer_id.same_as(peer_id) {
                return Some(k);
            }
            k = k + 1;
        }
        None
    }

    /// Opens an outbound session to the peer over one of its established connections, and
    /// returns the new session's identifier: the next one of the node's outbound counter. With
    /// no connection to the peer nothing changes.
    pub fn send_query(&mut self, query: Query, peer_id: PeerId) -> (r: Result<
        OutboundSessionId,
        PeerNotConnected,
    >)
        requires
            old(self).wf(),
            old(self).next_outbound_session_id.value < usize::MAX,
        ensures
            final(self).wf(),
            old(self).routes_exclude_ended() ==> final(self).routes_exclude_ended(),
            r is Err <==> !old(self).is_connected(peer_id@),
            r is Err ==> *final(self) == *old(self),
            r matches Ok(id) ==> {
                &&& id == old(self).next_outbound_session_id
                &&& final(self).next_outbound_session_id.value == id.value + 1
                &&& final(self).connections@ == old(self).connections@
                &&& final(self).ended@ == old(self).ended@
                &&& final(self).routes@.len() == old(self).routes@.len() + 1
                &&& final(self).routes@.drop_last() == old(self).routes@
                &&& final(self).pending_events@.len() == old(self).pending_events@.len() + 1
                &&& final(self).pending_events@.drop_last() == old(self).pending_events@
                &&& {
                    let route = final(self).routes@.last();
                    &&& route.session_id == SessionId::OutboundSessionId(id)
                    &&& route.peer_id@ == peer_id@
                    &&& exists|c: int|
                        0 <= c < old(self).connections@.len()
                            && old(self).connections@[c].peer_id@ == peer_id@ && old(
                            self,
                        ).connections@[c].connection_id == route.connection_id
                    &&& match final(self).pending_events@.last() {
                        ToSwarm::NotifyHandler { peer_id: p, connection_id, event } => {
                            &&& p@ == peer_id@
                            &&& connection_id == route.connection_id
                            &&& event == RequestFromBehaviourEvent::<Query, Data>::CreateOutboundSession {
                                query,
                                outbound_session_id: id,
                            }
                        },
                        _ => false,
                    }
                }
            },
    {
        let k = match self.find_connection(&peer_id) {
            Some(k) => k,
            None => {
                return Err(PeerNotConnected);
            },
        };
        let connection_id = self.connections[k].connection_id;
        let outbound_session_id = self.next_outbound_session_id;
        self.next_outbound_session_id = outbound_session_id.next();
        let session_id = SessionId::OutboundSessionId(outbound_session_id);
        proof {
            assert forall|i: int| 0 <= i < old(self).routes@.len() implies old(
                self,
            ).routes@[i].session_id != session_id by {
                assert(allocated_before(old(self).routes@[i].session_id, old(self).next_outbound_session_id));
            }
            assert(!old(self).ended@.contains(session_id));
        }
        self.routes.push(
            Route { session_id, peer_id: peer_id.duplicate(), connection_id },
        );
        self.pending_events.push_back(
            ToSwarm::NotifyHandler {
                peer_id,
                connection_id,
                event: RequestFromBehaviourEvent::CreateOutboundSession {
                    query,
                    outbound_session_id,
                },
            },
        );
        proof {
            let n = old(self).routes@.len() as int;
            assert forall|i: int, j: int|
                0 <= i < j < self.routes@.len() implies self.routes@[i].session_id
                != self.routes@[j].session_id by {
                if j == n {
                    assert(old(self).routes@[i].session_id != session_id);
                } else {
                    assert(old(self).routes@[i].session_id != old(self).routes@[j].session_id);
                }
            }
            assert forall|i: int| 0 <= i < self.routes@.len() implies allocated_before(
                #[trigger] self.routes@[i].session_id,
                self.next_outbound_session_id,
            ) by {
                if i < n {
                    assert(allocated_before(old(self).routes@[i].session_id, old(self).next_outbound_session_id));
                }
            }
            assert forall|s: SessionId| #[trigger] self.ended@.contains(s) implies allocated_before(
                s,
                self.next_outbound_session_id,
            ) by {
                assert(allocated_before(s, old(self).next_outbound_session_id));
            }
            assert(self.routes@.drop_last() =~= old(self).routes@);
            assert(self.pending_events@.drop_last() =~= old(self).pending_events@);
        }
        Ok(outbound_session_id)
    }

    /// Hands a data frame to the handler of the connection that carries the inbound session.
    /// Fails, changing nothing, where the session is not routed.
    pub fn send_data(&mut self, data: Data, inbound_session_id: InboundSessionId) -> (r: Result<
        (),
        SessionIdNotFoundError,
    >)
        requires
            old(self).wf(),
        ensures
            final(self).wf(),
            r is Err <==> !old(self).has_route(SessionId::InboundSessionId(inbound_session_id)),
            r is Err ==> *final(self) == *old(self),
            r is Ok ==> {
                let route = old(self).routes@[old(self).route_index(
                    SessionId::InboundSessionId(inbound_session_id),
                )];
                &&& final(self).routes@ == old(self).routes@
                &&& final(self).connections@ == old(self).connections@
                &&& final(self).ended@ == old(self).ended@
                &&& final(self).next_outbound_session_id == old(self).next_outbound_session_id
                &&& final(self).pending_events@.len() == old(self).pending_events@.len() + 1
                &&& final(self).pending_events@.drop_last() == old(self).pending_events@
                &&& match final(self).pending_events@.last() {
                    ToSwarm::NotifyHandler { peer_id, connection_id, event } => {
                        &&& peer_id@ == route.peer_id@
                        &&& connection_id == route.connection_id
                        &&& event == RequestFromBehaviourEvent::<Query, Data>::SendData {
                            data,
                            inbound_session_id,
                        }
                    },
                    _ => false,
                }
            },
    {
        let (peer_id, connection_id) = match self.get_peer_id_and_connection_id_from_session_id(
            SessionId::InboundSessionId(inbound_session_id),
        ) {
            Ok(found) => found,
            Err(e) => {
                return Err(e);
            },
        };
        self.pending_events.push_back(
            ToSwarm::NotifyHandler {
                peer_id,
                connection_id,
                event: RequestFromBehaviourEvent::SendData { data, inbound_session_id },
            },
        );
        assert(self.pending_events@.drop_last() =~= old(self).pending_events@);
        Ok(())
    }

    /// Asks the handler of the connection that carries the session to close it. The route is
    /// dropped later, when the handler reports that the session ended. Fails, changing nothing,
    /// where the session is not routed.
    pub fn close_session(&mut self, session_id: SessionId) -> (r: Result<(), SessionIdNotFoundError>)
        requires
            old(self).wf(),
        ensures
            final(self).wf(),
            r is Err <==> !old(self).has_route(session_id),
            r is Err ==> *final(self) == *old(self),
            r is Ok ==> {
                let route = old(self).routes@[old(self).route_index(session_id)];
                &&& final(self).routes@ == old(self).routes@
                &&& final(self).connections@ == old(self).connections@
                &&& final(self).ended@ == old(self).ended@
                &&& final(self).next_outbound_session_id == old(self).next_outbound_session_id
                &&& final(self).pending_events@.len() == old(self).pending_events@.len() + 1
                &&& final(self).pending_events@.drop_last() == old(self).pending_events@
                &&& match final(self).pending_events@.last() {
                    ToSwarm::NotifyHandler { peer_id, connection_id, event } => {
                        &&& peer_id@ == route.peer_id@
                        &&& connection_id == route.connection_id
                        &&& event == RequestFromBehaviourEvent::<Query, Data>::CloseSession {
                            session_id,
                        }
                    },
                    _ => false,
                }
            },
    {
        let (peer_id, connection_id) = match self.get_peer_id_and_connection_id_from_session_id(
            session_id,
        ) {
            Ok(found) => found,
            Err(e) => {
                return Err(e);
            },
        };
        self.pending_events.push_back(
            ToSwarm::NotifyHandler {
                peer_id,
                connection_id,
                event: RequestFromBehaviourEvent::CloseSession { session_id },
            },
        );
        assert(self.pending_events@.drop_last() =~= old(self).pending_events@);
        Ok(())
    }

    /// Drops the route at `k`, keeping the others in order.
    fn remove_route(&mut self, k: usize)
        requires
            old(self).wf(),
            k < old(self).routes@.len(),
        ensures
            final(self).wf(),
            final(self).routes@ == old(self).routes@.remove(k as int),
            final(self).config == old(self).config,
            final(self).pending_events@ == old(self).pending_events@,
            final(self).connections@ == old(self).connections@,
            final(self).ended@ == old(self).ended@,
            final(self).next_outbound_session_id == old(self).next_outbound_session_id,
            old(self).routes_exclude_ended() ==> final(self).routes_exclude_ended(),
    {
        self.routes.remove(k);
        proof {
            assert forall|i: int, j: int|
                0 <= i < j < self.routes@.len() implies self.routes@[i].session_id
                != self.routes@[j].session_id by {
                let oi = if i < k { i } else { i + 1 };
                let oj = if j < k { j } else { j + 1 };
                assert(old(self).routes@[oi].session_id != old(self).routes@[oj].session_id);
            }
            assert forall|i: int| 0 <= i < self.routes@.len() implies allocated_before(
                #[trigger] self.routes@[i].session_id,
                self.next_outbound_session_id,
            ) by {
                let oi = if i < k { i } else { i + 1 };
                assert(allocated_before(old(self).routes@[oi].session_id, self.next_outbound_session_id));
            }
            if old(self).routes_exclude_ended() {
                assert forall|i: int| 0 <= i < self.routes@.len() implies !self.ended@.contains(
                    #[trigger] self.routes@[i].session_id,
                ) by {
                    let oi = if i < k { i } else { i + 1 };
                    assert(!old(self).ended@.contains(old(self).routes@[oi].session_id));
                }
            }
        }
    }

    /// Takes an event of the handler of `connection_id` and passes it on to the application,
    /// with the handler's error widened to the application's. A new inbound session is routed
    /// to that connection; a session that ended loses its route. An ending event for a session
    /// that has no route (it ended already, or never started) is dropped, so that the
    /// application hears of each session's end once.
    pub fn on_connection_handler_event(
        &mut self,
        peer_id: PeerId,
        connection_id: ConnectionId,
        event: ToBehaviourEvent<Query, Data>,
    )
        requires
            old(self).wf(),
        ensures
            final(self).wf(),
            final(self).config == old(self).config,
            final(self).connections@ == old(self).connections@,
            final(self).next_outbound_session_id == old(self).next_outbound_session_id,
            event.is_terminal() && !old(self).has_route(event.session())
                ==> *final(self) == *old(self),
            !(event.is_terminal() && !old(self).has_route(event.session()))
                ==> final(self).pending_events@ == old(self).pending_events@.push(
                ToSwarm::GenerateEvent(widened_event(event)),
            ),
            event.is_terminal() && old(self).has_route(event.session()) ==> {
                &&& final(self).ended@ == old(self).ended@.insert(event.session())
                &&& !final(self).has_route(event.session())
                &&& final(self).routes@ == old(self).routes@.remove(
                    old(self).route_index(event.session()),
                )
            },
            !event.is_terminal() ==> final(self).ended@ == old(self).ended@,
            event is ReceivedData ==> final(self).routes@ == old(self).routes@,
            event is NewInboundSession ==> {
                let id = event.session();
                let route = final(self).routes@[final(self).route_index(id)];
                &&& final(self).has_route(id)
                &&& route.peer_id@ == peer_id@
                &&& route.connection_id == connection_id
                &&& forall|i: int|
                    0 <= i < old(self).routes@.len() && old(self).routes@[i].session_id != id
                        ==> final(self).routes@[i] == old(self).routes@[i]
                &&& old(self).has_route(id) ==> final(self).routes@.len() == old(
                    self,
                ).routes@.len()
                &&& !old(self).has_route(id) ==> final(self).routes@.len() == old(
                    self,
                ).routes@.len() + 1
            },
            old(self).routes_exclude_ended() && !(event is NewInboundSession && old(
                self,
            ).ended@.contains(event.session())) ==> final(self).routes_exclude_ended(),
            Self::ends_reported(*old(self), *final(self)),
    {
        let converted = Event::from(event);
        let ghost id = event.session();
        match &converted {
            GenericEvent::NewInboundSession { inbound_session_id, .. } => {
                let session_id = SessionId::InboundSessionId(*inbound_session_id);
                let route = Route { session_id, peer_id, connection_id };
                match self.find_route(session_id) {
                    Some(k) => {
                        self.routes.set(k, route);
                        proof {
                            assert forall|i: int, j: int|
                                0 <= i < j < self.routes@.len() implies self.routes@[i].session_id
                                != self.routes@[j].session_id by {
                                assert(old(self).routes@[i].session_id != old(self).routes@[j].session_id);
                            }
                            self.lemma_route_index(k as int);
                        }
                    },
                    None => {
                        self.routes.push(route);
                        proof {
                            let n = old(self).routes@.len() as int;
                            assert forall|i: int, j: int|
                                0 <= i < j < self.routes@.len() implies self.routes@[i].session_id
                                != self.routes@[j].session_id by {
                                if j == n {
                                    assert(old(self).routes@[i].session_id != session_id);
                                } else {
                                    assert(old(self).routes@[i].session_id != old(self).routes@[j].session_id);
                                }
                            }
                            self.lemma_route_index(n);
                        }
                    },
                }
                proof {
                    assert forall|i: int| 0 <= i < self.routes@.len() implies allocated_before(
                        #[trigger] self.routes@[i].session_id,
                        self.next_outbound_session_id,
                    ) by {
                        if i < old(self).routes@.len() && old(self).routes@[i].session_id != session_id {
                            assert(allocated_before(old(self).routes@[i].session_id, self.next_outbound_session_id));
                        }
                    }
                    if old(self).routes_exclude_ended() && !old(self).ended@.contains(session_id) {
                        assert forall|i: int| 0 <= i < self.routes@.len() implies !self.ended@.contains(
                            #[trigger] self.routes@[i].session_id,
                        ) by {
                            if i < old(self).routes@.len() && old(self).routes@[i].session_id != session_id {
                                assert(!old(self).ended@.contains(old(self).routes@[i].session_id));
                            }
                        }
                    }
                }
            },
            GenericEvent::ReceivedData { .. } => {},
            GenericEvent::SessionFailed { session_id, .. }
            | GenericEvent::SessionClosedByRequest { session_id }
            | GenericEvent::SessionClosedByPeer { session_id } => {
                let session_id = *session_id;
                match self.find_route(session_id) {
                    Some(k) => {
                        self.remove_route(k);
                        proof {
                            assert forall|i: int| 0 <= i < self.routes@.len() implies self.routes@[i].session_id != session_id by {
                                let oi = if i < k { i } else { i + 1 };
                                if oi < k {
                                    assert(old(self).routes@[oi].session_id != old(self).routes@[k as int].session_id);
                                } else {
                                    assert(old(self).routes@[k as int].session_id != old(self).routes@[oi].session_id);
                                }
                            }
                        }
                    },
                    None => {
                        return;
                    },
                }
                let ghost before = self.routes_exclude_ended();
                self.ended = Ghost(self.ended@.insert(session_id));
                proof {
                    if before {
                        assert forall|i: int| 0 <= i < self.routes@.len() implies !self.ended@.contains(
                            #[trigger] self.routes@[i].session_id,
                        ) by {
                            assert(self.routes@[i].session_id != session_id);
                        }
                    }
                }
            },
        }
        self.pending_events.push_back(ToSwarm::GenerateEvent(converted));
        proof {
            assert forall|s: SessionId|
                #[trigger] old(self).has_route(s) && !self.has_route(s) implies self.ended@.contains(s) by {
                let j = old(self).route_index(s);
                if s != id {
                    if event is NewInboundSession {
                        assert(self.routes@[j] == old(self).routes@[j]);
                    } else if event is ReceivedData {
                        assert(self.routes@[j] == old(self).routes@[j]);
                    } else {
                        let k = old(self).route_index(id);
                        if old(self).has_route(id) {
                            old(self).lemma_route_index(j);
                            old(self).lemma_route_index(k);
                            let nj = if j < k { j } else { j - 1 };
                            assert(self.routes@[nj] == old(self).routes@[j]);
                        } else {
                            assert(self.routes@[j] == old(self).routes@[j]);
                        }
                    }
                }
            }
        }
    }

    /// Takes what the swarm reports of its connections. A new connection is registered. When
    /// a connection closes it is forgotten, and each session that it carried is reported
    /// failed, with `ConnectionClosed`, and loses its route, in the order of the routing table.
    pub fn on_swarm_event(&mut self, event: FromSwarm)
        requires
            old(self).wf(),
        ensures
            final(self).wf(),
            final(self).config == old(self).config,
            final(self).next_outbound_session_id == old(self).next_outbound_session_id,
            old(self).routes_exclude_ended() ==> final(self).routes_exclude_ended(),
            match event {
                FromSwarm::ConnectionEstablished { peer_id, connection_id } => {
                    &&& final(self).routes@ == old(self).routes@
                    &&& final(self).pending_events@ == old(self).pending_events@
                    &&& final(self).ended@ == old(self).ended@
                    &&& final(self).connections@.len() >= old(self).connections@.len()
                    &&& final(self).connections@.subrange(0, old(self).connections@.len() as int)
                        == old(self).connections@
                    &&& Self::registers(
                        old(self).connections@,
                        final(self).connections@,
                        peer_id@,
                        connection_id,
                    )
                },
                FromSwarm::ConnectionClosed { peer_id, connection_id } => {
                    &&& final(self).routes@ == old(self).routes@.filter(
                        |r: Route| !carried_by(r, peer_id@, connection_id),
                    )
                    &&& final(self).pending_events@ == old(self).pending_events@ + lost_routes(
                        old(self).routes@,
                        peer_id@,
                        connection_id,
                    ).map_values(|r: Route| connection_closed_event::<Query, Data>(r.session_id))
                    &&& forall|s: SessionId|
                        #[trigger] final(self).ended@.contains(s) <==> old(self).ended@.contains(s)
                            || exists|j: int|
                            0 <= j < old(self).routes@.len() && carried_by(
                                old(self).routes@[j],
                                peer_id@,
                                connection_id,
                            ) && old(self).routes@[j].session_id == s
                    &&& final(self).connections@ == old(self).connections@.filter(
                        |c: Connection| !(c.peer_id@ == peer_id@ && c.connection_id == connection_id),
                    )
                },
                FromSwarm::Other => *final(self) == *old(self),
            },
            Self::ends_reported(*old(self), *final(self)),
    {
        match event {
            FromSwarm::ConnectionEstablished { peer_id, connection_id } => {
                self.register_connection(peer_id, connection_id);
            },
            FromSwarm::ConnectionClosed { peer_id, connection_id } => {
                self.drop_routes_of(&peer_id, connection_id);
                self.forget_connection(&peer_id, connection_id);
                proof {
                    let keep = |r: Route| !carried_by(r, peer_id@, connection_id);
                    assert forall|s: SessionId|
                        #[trigger] old(self).has_route(s) && !self.has_route(s) implies self.ended@.contains(s) by {
                        let j = old(self).route_index(s);
                        if !carried_by(old(self).routes@[j], peer_id@, connection_id) {
                            old(self).routes@.lemma_filter_contains(keep, j);
                            let m = choose|m: int| 0 <= m < self.routes@.len() && self.routes@[m] == old(self).routes@[j];
                            assert(self.routes@[m].session_id == s);
                        }
                    }
                }
            },
            FromSwarm::Other => {},
        }
    }

    /// `post` is the registry `pre` with the connection in it: added at the end unless it was
    /// there already.
    pub open spec fn registers(
        pre: Seq<Connection>,
        post: Seq<Connection>,
        peer: Seq<u8>,
        connection_id: ConnectionId,
    ) -> bool {
        let present = exists|i: int|
            0 <= i < pre.len() && pre[i].peer_id@ == peer && pre[i].connection_id == connection_id;
        &&& present ==> post == pre
        &&& !present ==> post.len() == pre.len() + 1 && post.last().peer_id@ == peer
            && post.last().connection_id == connection_id
    }

    fn register_connection(&mut self, peer_id: PeerId, connection_id: ConnectionId)
        requires
            old(self).wf(),
        ensures
            final(self).wf(),
            final(self).config == old(self).config,
            final(self).next_outbound_session_id == old(self).next_outbound_session_id,
            final(self).routes@ == old(self).routes@,
            final(self).pending_events@ == old(self).pending_events@,
            final(self).ended@ == old(self).ended@,
            final(self).connections@.len() >= old(self).connections@.len(),
            final(self).connections@.subrange(0, old(self).connections@.len() as int) == old(
                self,
            ).connections@,
            Self::registers(old(self).connections@, final(self).connections@, peer_id@, connection_id),
    {
        let mut k: usize = 0;
        while k < self.connections.len()
            invariant
                *self == *old(self),
                self.wf(),
                k <= self.connections@.len(),
                forall|i: int|
                    0 <= i < k ==> !(self.connections@[i].peer_id@ == peer_id@
                        && self.connections@[i].connection_id == connection_id),
            decreases self.connections@.len() - k,
        {
            if self.connections[k].connection_id == connection_id
                && self.connections[k].peer_id.same_as(&peer_id) {
                assert(self.connections@.subrange(0, self.connections@.len() as int) =~= self.connections@);
                return;
            }
            k = k + 1;
        }
        self.connections.push(Connection { peer_id, connection_id });
        assert(self.connections@.subrange(0, old(self).connections@.len() as int) =~= old(self).connections@);
        proof {
            let n = old(self).connections@.len() as int;
            assert forall|a: int, b: int| 0 <= a < b < self.connections@.len() implies !(
            self.connections@[a].peer_id@ == self.connections@[b].peer_id@
                && self.connections@[a].connection_id == self.connections@[b].connection_id) by {
                if b == n {
                    assert(!(old(self).connections@[a].peer_id@ == peer_id@
                        && old(self).connections@[a].connection_id == connection_id));
                } else {
                    assert(!(old(self).connections@[a].peer_id@ == old(self).connections@[b].peer_id@
                        && old(self).connections@[a].connection_id == old(self).connections@[b].connection_id));
                }
            }
        }
    }

    fn forget_connection(&mut self, peer_id: &PeerId, connection_id: ConnectionId)
        requires
            old(self).wf(),
        ensures
            final(self).wf(),
            final(self).config == old(self).config,
            final(self).next_outbound_session_id == old(self).next_outbound_session_id,
            final(self).routes@ == old(self).routes@,
            final(self).pending_events@ == old(self).pending_events@,
            final(self).ended@ == old(self).ended@,
            final(self).routes_exclude_ended() == old(self).routes_exclude_ended(),
            final(self).connections@ == old(self).connections@.filter(
                |c: Connection| !(c.peer_id@ == peer_id@ && c.connection_id == connection_id),
            ),
    {
        let ghost keep = |c: Connection| !(c.peer_id@ == peer_id@ && c.connection_id == connection_id);
        let ghost orig = self.connections@;
        let mut rest: Vec<Connection> = Vec::new();
        std::mem::swap(&mut self.connections, &mut rest);
        let mut kept: Vec<Connection> = Vec::new();
        let n = rest.len();
        let mut i: usize = 0;
        while i < n
            invariant
                n == orig.len(),
                i <= n,
                rest@ == orig.subrange(i as int, n as int),
                kept@ == orig.subrange(0, i as int).filter(keep),
                keep == (|c: Connection| !(c.peer_id@ == peer_id@ && c.connection_id == connection_id)),
            decreases n - i,
        {
            let c = rest.remove(0);
            proof {
                reveal(Seq::filter);
                assert(orig.subrange(0, i + 1).drop_last() =~= orig.subrange(0, i as int));
                assert(orig.subrange(0, i + 1).last() == c);
                assert(rest@ =~= orig.subrange(i + 1, n as int));
            }
            if !(c.connection_id == connection_id && c.peer_id.same_as(peer_id)) {
                kept.push(c);
            }
            i = i + 1;
        }
        assert(orig.subrange(0, n as int) =~= orig);
        self.connections = kept;
        proof {
            lemma_filter_keeps_connections_distinct(orig, keep);
        }
    }

    fn drop_routes_of(&mut self, peer_id: &PeerId, connection_id: ConnectionId)
        requires
            old(self).wf(),
        ensures
            final(self).wf(),
            final(self).config == old(self).config,
            final(self).next_outbound_session_id == old(self).next_outbound_session_id,
            final(self).connections@ == old(self).connections@,
            old(self).routes_exclude_ended() ==> final(self).routes_exclude_ended(),
            final(self).routes@ == old(self).routes@.filter(
                |r: Route| !carried_by(r, peer_id@, connection_id),
            ),
            final(self).pending_events@ == old(self).pending_events@ + old(self).routes@.filter(
                |r: Route| carried_by(r, peer_id@, connection_id),
            ).map_values(|r: Route| connection_closed_event::<Query, Data>(r.session_id)),
            forall|s: SessionId|
                #[trigger] final(self).ended@.contains(s) <==> old(self).ended@.contains(s)
                    || exists|j: int|
                    0 <= j < old(self).routes@.len() && carried_by(
                        old(self).routes@[j],
                        peer_id@,
                        connection_id,
                    ) && old(self).routes@[j].session_id == s,
    {
        let ghost keep = |r: Route| !carried_by(r, peer_id@, connection_id);
        let ghost lost = |r: Route| carried_by(r, peer_id@, connection_id);
        let ghost report = |r: Route| connection_closed_event::<Query, Data>(r.session_id);
        let ghost orig = self.routes@;
        let ghost events0 = self.pending_events@;
        let mut rest: Vec<Route> = Vec::new();
        std::mem::swap(&mut self.routes, &mut rest);
        let mut kept: Vec<Route> = Vec::new();
        let ghost mut idx: Seq<int> = Seq::empty();
        let n = rest.len();
        let mut i: usize = 0;
        while i < n
            invariant
                n == orig.len(),
                i <= n,
                rest@ == orig.subrange(i as int, n as int),
                kept@ == orig.subrange(0, i as int).filter(keep),
                self.pending_events@ == events0 + orig.subrange(0, i as int).filter(lost).map_values(
                    report,
                ),
                keep == (|r: Route| !carried_by(r, peer_id@, connection_id)),
                lost == (|r: Route| carried_by(r, peer_id@, connection_id)),
                report == (|r: Route| connection_closed_event::<Query, Data>(r.session_id)),
                idx.len() == kept@.len(),
                forall|m: int| 0 <= m < idx.len() ==> 0 <= #[trigger] idx[m] < i,
                forall|m: int| 0 <= m < idx.len() ==> kept@[m] == orig[#[trigger] idx[m]],
                forall|m: int| 0 <= m < idx.len() ==> !carried_by(orig[#[trigger] idx[m]], peer_id@, connection_id),
                forall|m1: int, m2: int| 0 <= m1 < m2 < idx.len() ==> idx[m1] < idx[m2],
                forall|a: int, b: int|
                    0 <= a < b < orig.len() ==> orig[a].session_id != orig[b].session_id,
                forall|a: int| 0 <= a < orig.len() ==> allocated_before(
                    #[trigger] orig[a].session_id,
                    old(self).next_outbound_session_id,
                ),
                forall|s: SessionId|
                    #[trigger] self.ended@.contains(s) <==> old(self).ended@.contains(s)
                        || exists|j: int|
                        0 <= j < i && carried_by(orig[j], peer_id@, connection_id)
                            && orig[j].session_id == s,
                orig == old(self).routes@,
                self.config == old(self).config,
                self.next_outbound_session_id == old(self).next_outbound_session_id,
                self.connections@ == old(self).connections@,
                old(self).wf(),
            decreases n - i,
        {
            let r = rest.remove(0);
            proof {
                reveal(Seq::filter);
                assert(orig.subrange(0, i + 1).drop_last() =~= orig.subrange(0, i as int));
                assert(orig.subrange(0, i + 1).last() == r);
                assert(rest@ =~= orig.subrange(i + 1, n as int));
                assert(r == orig[i as int]);
            }
            if r.connection_id == connection_id && r.peer_id.same_as(peer_id) {
                let ghost before = self.ended@;
                self.ended = Ghost(self.ended@.insert(r.session_id));
                proof {
                    let f = orig.subrange(0, i as int).filter(lost);
                    assert(orig.subrange(0, i + 1).filter(lost) == f.push(r));
                    assert(f.push(r).map_values(report) =~= f.map_values(report).push(report(r)));
                    assert forall|s: SessionId|
                        #[trigger] self.ended@.contains(s) <==> old(self).ended@.contains(s)
                            || exists|j: int|
                            0 <= j < i + 1 && carried_by(orig[j], peer_id@, connection_id)
                                && orig[j].session_id == s by {
                        if s == r.session_id {
                            assert(carried_by(orig[i as int], peer_id@, connection_id));
                        } else if before.contains(s) {
                        } else if exists|j: int|
                            0 <= j < i + 1 && carried_by(orig[j], peer_id@, connection_id)
                                && orig[j].session_id == s {
                            let j = choose|j: int|
                                0 <= j < i + 1 && carried_by(orig[j], peer_id@, connection_id)
                                    && orig[j].session_id == s;
                            assert(j != i);
                        }
                    }
                    assert(kept@ == orig.subrange(0, i + 1).filter(keep));
                }
                self.pending_events.push_back(
                    ToSwarm::GenerateEvent(
                        GenericEvent::SessionFailed {
                            session_id: r.session_id,
                            error: SessionError::ConnectionClosed,
                        },
                    ),
                );
                proof {
                    assert(self.pending_events@ =~= events0 + orig.subrange(0, i + 1).filter(lost).map_values(report));
                }
            } else {
                proof {
                    assert(!carried_by(r, peer_id@, connection_id));
                    assert(orig.subrange(0, i + 1).filter(keep) == kept@.push(r));
                    assert(orig.subrange(0, i + 1).filter(lost) == orig.subrange(0, i as int).filter(lost));
                    idx = idx.push(i as int);
                }
                kept.push(r);
                proof {
                    assert forall|s: SessionId|
                        #[trigger] self.ended@.contains(s) <==> old(self).ended@.contains(s)
                            || exists|j: int|
                            0 <= j < i + 1 && carried_by(orig[j], peer_id@, connection_id)
                                && orig[j].session_id == s by {
                        if exists|j: int|
                            0 <= j < i + 1 && carried_by(orig[j], peer_id@, connection_id)
                                && orig[j].session_id == s {
                            let j = choose|j: int|
                                0 <= j < i + 1 && carried_by(orig[j], peer_id@, connection_id)
                                    && orig[j].session_id == s;
                            assert(j != i);
                            assert(0 <= j < i && carried_by(orig[j], peer_id@, connection_id)
                                && orig[j].session_id == s);
                        }
                    }
                }
            }
            i = i + 1;
        }
        proof {
            assert(orig.subrange(0, n as int) =~= orig);
        }
        self.routes = kept;
        proof {
            assert forall|a: int, b: int|
                0 <= a < b < self.routes@.len() implies self.routes@[a].session_id
                != self.routes@[b].session_id by {
                assert(self.routes@[a] == orig[idx[a]]);
                assert(self.routes@[b] == orig[idx[b]]);
                assert(idx[a] < idx[b]);
            }
            assert forall|a: int| 0 <= a < self.routes@.len() implies allocated_before(
                #[trigger] self.routes@[a].session_id,
                self.next_outbound_session_id,
            ) by {
                assert(self.routes@[a] == orig[idx[a]]);
            }
            assert forall|s: SessionId| #[trigger] self.ended@.contains(s) implies allocated_before(
                s,
                self.next_outbound_session_id,
            ) by {
                if !old(self).ended@.contains(s) {
                    let j = choose|j: int|
                        0 <= j < n && carried_by(orig[j], peer_id@, connection_id)
                            && orig[j].session_id == s;
                    assert(allocated_before(orig[j].session_id, self.next_outbound_session_id));
                }
            }
            if old(self).routes_exclude_ended() {
                assert forall|a: int| 0 <= a < self.routes@.len() implies !self.ended@.contains(
                    #[trigger] self.routes@[a].session_id,
                ) by {
                    let o = idx[a];
                    assert(self.routes@[a] == orig[o]);
                    assert(!old(self).ended@.contains(orig[o].session_id));
                    if exists|j: int|
                        0 <= j < n && carried_by(orig[j], peer_id@, connection_id)
                            && orig[j].session_id == orig[o].session_id {
                        let j = choose|j: int|
                            0 <= j < n && carried_by(orig[j], peer_id@, connection_id)
                                && orig[j].session_id == orig[o].session_id;
                        assert(j != o);
                        if j < o {
                            assert(orig[j].session_id != orig[o].session_id);
                        } else {
                            assert(orig[o].session_id != orig[j].session_id);
                        }
                    }
                }
            }
        }
    }
}

/// No connection of `connections` is registered twice.
pub open spec fn distinct_connections(connections: Seq<Connection>) -> bool {
    forall|a: int, b: int|
        0 <= a < b < connections.len() ==> !(connections[a].peer_id@ == connections[b].peer_id@
            && connections[a].connection_id == connections[b].connection_id)
}

/// Dropping connections from a registry keeps each remaining one registered once.
proof fn lemma_filter_keeps_connections_distinct(
    connections: Seq<Connection>,
    keep: spec_fn(Connection) -> bool,
)
    requires
        distinct_connections(connections),
    ensures
        distinct_connections(connections.filter(keep)),
    decreases connections.len(),
{
    if connections.len() > 0 {
        let rest = connections.drop_last();
        let last = connections.last();
        assert(distinct_connections(rest));
        lemma_filter_keeps_connections_distinct(rest, keep);
        reveal(Seq::filter);
        if keep(last) {
            let f = rest.filter(keep);
            assert(connections.filter(keep) == f.push(last));
            assert forall|a: int, b: int| 0 <= a < b < f.len() + 1 implies !(f.push(last)[a].peer_id@
                == f.push(last)[b].peer_id@ && f.push(last)[a].connection_id
                == f.push(last)[b].connection_id) by {
                if b == f.len() {
                    assert(f.contains(f[a]));
                    rest.lemma_filter_contains_rev(keep, f[a]);
                    let i = choose|i: int| 0 <= i < rest.len() && rest[i] == f[a];
                    assert(connections[i] == f[a]);
                    assert(connections[connections.len() - 1] == last);
                }
            }
        }
    }
}

/// No two routes of `routes` are for the same session.
pub open spec fn distinct_sessions(routes: Seq<Route>) -> bool {
    forall|a: int, b: int| 0 <= a < b < routes.len() ==> routes[a].session_id != routes[b].session_id
}

/// The routes of `routes` that the given connection to the given peer carries, in order.
pub open spec fn lost_routes(routes: Seq<Route>, peer: Seq<u8>, connection_id: ConnectionId) -> Seq<Route> {
    routes.filter(|r: Route| carried_by(r, peer, connection_id))
}

/// When a connection closes, each session that it carried is reported failed exactly once: the
/// routes that the close reports on hold every route of that connection, and no session twice.
pub proof fn lemma_lost_sessions_reported_once(routes: Seq<Route>, peer: Seq<u8>, connection_id: ConnectionId)
    requires
        distinct_sessions(routes),
    ensures
        forall|j: int|
            0 <= j < routes.len() && carried_by(routes[j], peer, connection_id)
                ==> #[trigger] lost_routes(routes, peer, connection_id).contains(routes[j]),
        distinct_sessions(lost_routes(routes, peer, connection_id)),
    decreases routes.len(),
{
    let lost = |r: Route| carried_by(r, peer, connection_id);
    assert forall|j: int| 0 <= j < routes.len() && carried_by(routes[j], peer, connection_id) implies #[trigger] lost_routes(routes, peer, connection_id).contains(routes[j]) by {
        routes.lemma_filter_contains(lost, j);
    }
    if routes.len() > 0 {
        let rest = routes.drop_last();
        assert(distinct_sessions(rest));
        lemma_lost_sessions_reported_once(rest, peer, connection_id);
        reveal(Seq::filter);
        if lost(routes.last()) {
            let f = rest.filter(lost);
            assert(routes.filter(lost) == f.push(routes.last()));
            assert forall|a: int, b: int| 0 <= a < b < f.len() + 1 implies f.push(routes.last())[a].session_id != f.push(routes.last())[b].session_id by {
                if b == f.len() {
                    assert(f.contains(f[a]));
                    rest.lemma_filter_contains_rev(lost, f[a]);
                    let i = choose|i: int| 0 <= i < rest.len() && rest[i] == f[a];
                    assert(routes[i] == f[a]);
                    assert(routes[i].session_id != routes[routes.len() - 1].session_id);
                }
            }
        }
    }
}

/// Whether the route's session is carried by the given connection to the given peer.
pub open spec fn carried_by(r: Route, peer: Seq<u8>, connection_id: ConnectionId) -> bool {
    r.peer_id@ == peer && r.connection_id == connection_id
}

} // verus!
