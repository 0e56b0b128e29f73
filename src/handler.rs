use std::collections::VecDeque;
use std::sync::atomic::{AtomicUsize, Ordering};
use std::sync::Arc;

use vstd::prelude::*;

use crate::event::{Config, GenericEvent, HandlerSessionError, ToBehaviourEvent};
use crate::inbound_session::{FinishReason, InboundSession, InboundState, InboundStep};
use crate::peer::PeerId;
use crate::queue::popped_front;
use crate::session_id::{InboundSessionId, OutboundSessionId, SessionId};

verus! {

/// A command from the behaviour to the handler of one connection.
#[derive(Debug)]
pub enum RequestFromBehaviourEvent<Query, Data> {
    CreateOutboundSession { query: Query, outbound_session_id: OutboundSessionId },
    SendData { data: Data, inbound_session_id: InboundSessionId },
    CloseSession { session_id: SessionId },
}

/// What a handler hands to the swarm: a request for a new outbound substream, or an event for
/// the behaviour.
#[derive(Debug)]
pub enum HandlerEvent<Query, Data> {
    OutboundSubstreamRequest {
        query: Query,
        outbound_session_id: OutboundSessionId,
        protocol_name: String,
        timeout: std::time::Duration,
    },
    NotifyBehaviour(ToBehaviourEvent<Query, Data>),
}

/// The protocol that a handler listens on, and the identifier that an inbound session
/// negotiated on it will carry.
#[derive(Debug)]
pub struct ListenProtocol {
    pub protocol_name: String,
    pub timeout: std::time::Duration,
    pub inbound_session_id: InboundSessionId,
}

/// What reading the next frame of an outbound session gave.
#[derive(Debug)]
pub enum OutboundPoll<Data> {
    Item(Data),
    End,
    Error(std::io::Error),
}

/// Why the negotiation of an outbound substream failed.
#[derive(Debug)]
pub enum DialUpgradeError {
    Timeout,
    Apply(std::io::Error),
    NegotiationFailed,
    Io(std::io::Error),
}

/// A live inbound session of the connection, and whether the application asked to end it.
pub struct InboundEntry<Data> {
    pub id: InboundSessionId,
    pub session: InboundSession<Data>,
    pub marked_to_end: bool,
}

/// The sessions of one connection to one peer.
pub struct Handler<Query, Data> {
    pub config: Config,
    pub next_inbound_session_id: Arc<AtomicUsize>,
    pub peer_id: PeerId,
    pub inbound: Vec<InboundEntry<Data>>,
    pub outbound: Vec<OutboundSessionId>,
    pub pending_events: VecDeque<HandlerEvent<Query, Data>>,
}

impl<Query, Data> Handler<Query, Data> {
    pub open spec fn wf(&self) -> bool {
        &&& forall|i: int, j: int|
            0 <= i < j < self.inbound@.len() ==> self.inbound@[i].id != self.inbound@[j].id
        &&& forall|i: int| 0 <= i < self.inbound@.len() ==> self.inbound@[i].session.wf()
        &&& forall|i: int|
            0 <= i < self.inbound@.len() && !self.inbound@[i].marked_to_end
                ==> self.inbound@[i].session.accepts_data()
        &&& self.outbound@.no_duplicates()
    }

    /// Whether the connection holds a live inbound session with this identifier.
    pub open spec fn has_inbound(&self, id: InboundSessionId) -> bool {
        exists|i: int| 0 <= i < self.inbound@.len() && self.inbound@[i].id == id
    }

    /// Where the inbound session with this identifier stands.
    pub open spec fn inbound_index(&self, id: InboundSessionId) -> int {
        choose|i: int| 0 <= i < self.inbound@.len() && self.inbound@[i].id == id
    }

    /// Whether the connection holds a live outbound session with this identifier.
    pub open spec fn has_outbound(&self, id: OutboundSessionId) -> bool {
        self.outbound@.contains(id)
    }

    pub fn new(config: Config, next_inbound_session_id: Arc<AtomicUsize>, peer_id: PeerId) -> (r:
        Self)
        ensures
            r.wf(),
            r.config == config,
            r.next_inbound_session_id == next_inbound_session_id,
            r.peer_id@ == peer_id@,
            r.inbound@.len() == 0,
            r.outbound@.len() == 0,
            r.pending_events@.len() == 0,
    {
        Handler {
            config,
            next_inbound_session_id,
            peer_id,
            inbound: Vec::new(),
            outbound: Vec::new(),
            pending_events: VecDeque::new(),
        }
    }

    /// The protocol to accept inbound substreams on. Each call takes a fresh identifier from
    /// the counter that all connections of the node share.
    pub fn listen_protocol(&self) -> (r: ListenProtocol)
        ensures
            r.protocol_name@ == self.config.protocol_name@,
            r.timeout == self.config.substream_timeout,
    {
        let value = self.next_inbound_session_id.fetch_add(1, Ordering::AcqRel);
        ListenProtocol {
            protocol_name: self.config.protocol_name.clone(),
            timeout: self.config.substream_timeout,
            inbound_session_id: InboundSessionId { value },
        }
    }

    proof fn lemma_inbound_index(&self, k: int)
        requires
            self.wf(),
            0 <= k < self.inbound@.len(),
        ensures
            self.has_inbound(self.inbound@[k].id),
            self.inbound_index(self.inbound@[k].id) == k,
    {
        let id = self.inbound@[k].id;
        assert(0 <= k < self.inbound@.len() && self.inbound@[k].id == id);
        let j = self.inbound_index(id);
        if j != k {
            if j < k {
                assert(self.inbound@[j].id != self.inbound@[k].id);
            } else {
                assert(self.inbound@[k].id != self.inbound@[j].id);
            }
        }
    }

    fn find_inbound(&self, id: InboundSessionId) -> (r: Option<usize>)
        requires
            self.wf(),
        ensures
            match r {
                Some(k) => k < self.inbound@.len() && self.inbound@[k as int].id == id
                    && self.has_inbound(id) && self.inbound_index(id) == k,
                None => !self.has_inbound(id),
            },
    {
        let mut k: usize = 0;
        while k < self.inbound.len()
            invariant
                self.wf(),
                k <= self.inbound@.len(),
                forall|i: int| 0 <= i < k ==> self.inbound@[i].id != id,
            decreases self.inbound@.len() - k,
        {
            if self.inbound[k].id == id {
                proof {
                    self.lemma_inbound_index(k as int);
                }
                return Some(k);
            }
            k = k + 1;
        }
        None
    }

    fn find_outbound(&self, id: OutboundSessionId) -> (r: Option<usize>)
        ensures
            match r {
                Some(k) => k < self.outbound@.len() && self.outbound@[k as int] == id,
                None => !self.outbound@.contains(id),
            },
    {
        let mut k: usize = 0;
        while k < self.outbound.len()
            invariant
                k <= self.outbound@.len(),
                forall|i: int| 0 <= i < k ==> self.outbound@[i] != id,
            decreases self.outbound@.len() - k,
        {
            if self.outbound[k] == id {
                return Some(k);
            }
            k = k + 1;
        }
        None
    }

    /// `post` holds the inbound sessions of `pre`, where the one at `k` changed only in its
    /// session, as `changed` allows.
    pub open spec fn inbound_changed_at(
        pre: Seq<InboundEntry<Data>>,
        post: Seq<InboundEntry<Data>>,
        k: int,
    ) -> bool {
        &&& post.len() == pre.len()
        &&& forall|i: int| 0 <= i < pre.len() && i != k ==> post[i] == pre[i]
        &&& post[k].id == pre[k].id
        &&& post[k].marked_to_end == pre[k].marked_to_end
    }

    /// Takes a command of the behaviour. A new outbound session is requested from the swarm;
    /// data goes to the queue of its inbound session, unless that session is unknown or was
    /// asked to end; a close is reported at once, and for an outbound session drops it, while an
    /// inbound session is marked and closes once its queue is written.
    pub fn on_behaviour_event(&mut self, event: RequestFromBehaviourEvent<Query, Data>)
        requires
            old(self).wf(),
        ensures
            final(self).wf(),
            final(self).config == old(self).config,
            final(self).peer_id == old(self).peer_id,
            final(self).next_inbound_session_id == old(self).next_inbound_session_id,
            match event {
                RequestFromBehaviourEvent::CreateOutboundSession { query, outbound_session_id } => {
                    &&& final(self).inbound@ == old(self).inbound@
                    &&& final(self).outbound@ == old(self).outbound@
                    &&& final(self).pending_events@.len() == old(self).pending_events@.len() + 1
                    &&& final(self).pending_events@.drop_last() == old(self).pending_events@
                    &&& match final(self).pending_events@.last() {
                        HandlerEvent::OutboundSubstreamRequest {
                            query: q,
                            outbound_session_id: id,
                            protocol_name,
                            timeout,
                        } => q == query && id == outbound_session_id && protocol_name@
                            == old(self).config.protocol_name@ && timeout
                            == old(self).config.substream_timeout,
                        _ => false,
                    }
                },
                RequestFromBehaviourEvent::SendData { data, inbound_session_id } => {
                    &&& final(self).outbound@ == old(self).outbound@
                    &&& final(self).pending_events@ == old(self).pending_events@
                    &&& if old(self).has_inbound(inbound_session_id)
                        && !old(self).inbound@[old(self).inbound_index(
                        inbound_session_id,
                    )].marked_to_end {
                        let k = old(self).inbound_index(inbound_session_id);
                        &&& Self::inbound_changed_at(old(self).inbound@, final(self).inbound@, k)
                        &&& InboundSession::added(
                            old(self).inbound@[k].session,
                            final(self).inbound@[k].session,
                            data,
                        )
                        &&& final(self).inbound@[k].session.queue@ == old(
                            self,
                        ).inbound@[k].session.queue@.push(data)
                        &&& final(self).inbound@[k].session.queued@ == old(
                            self,
                        ).inbound@[k].session.queued@.push(data)
                    } else {
                        final(self).inbound@ == old(self).inbound@
                    }
                },
                RequestFromBehaviourEvent::CloseSession { session_id } => {
                    &&& final(self).pending_events@ == old(self).pending_events@.push(
                        HandlerEvent::NotifyBehaviour(
                            GenericEvent::SessionClosedByRequest { session_id },
                        ),
                    )
                    &&& match session_id {
                        SessionId::InboundSessionId(id) => {
                            &&& final(self).outbound@ == old(self).outbound@
                            &&& if old(self).has_inbound(id) {
                                let k = old(self).inbound_index(id);
                                &&& final(self).inbound@.len() == old(self).inbound@.len()
                                &&& forall|i: int|
                                    0 <= i < old(self).inbound@.len() && i != k
                                        ==> final(self).inbound@[i] == old(self).inbound@[i]
                                &&& final(self).inbound@[k].id == id
                                &&& final(self).inbound@[k].session == old(
                                    self,
                                ).inbound@[k].session
                                &&& final(self).inbound@[k].marked_to_end
                            } else {
                                final(self).inbound@ == old(self).inbound@
                            }
                        },
                        SessionId::OutboundSessionId(id) => {
                            &&& final(self).inbound@ == old(self).inbound@
                            &&& final(self).outbound@.to_set() == old(
                                self,
                            ).outbound@.to_set().remove(id)
                        },
                    }
                },
            },
    {
        match event {
            RequestFromBehaviourEvent::CreateOutboundSession { query, outbound_session_id } => {
                self.pending_events.push_back(
                    HandlerEvent::OutboundSubstreamRequest {
                        query,
                        outbound_session_id,
                        protocol_name: self.config.protocol_name.clone(),
                        timeout: self.config.substream_timeout,
                    },
                );
            },
            RequestFromBehaviourEvent::SendData { data, inbound_session_id } => {
                match self.find_inbound(inbound_session_id) {
                    Some(k) => {
                        // A session that was asked to end takes no more data.
                        if !self.inbound[k].marked_to_end {
                            let mut entry = self.inbound.remove(k);
                            entry.session.add_message_to_queue(data);
                            self.inbound.insert(k, entry);
                            assert(Self::inbound_changed_at(old(self).inbound@, self.inbound@, k as int));
                        }
                    },
                    // No such session: the data is dropped.
                    None => {},
                }
            },
            RequestFromBehaviourEvent::CloseSession { session_id } => {
                match session_id {
                    SessionId::InboundSessionId(id) => {
                        match self.find_inbound(id) {
                            Some(k) => {
                                let mut entry = self.inbound.remove(k);
                                entry.marked_to_end = true;
                                self.inbound.insert(k, entry);
                                assert(forall|i: int| 0 <= i < self.inbound@.len() ==> #[trigger] self.inbound@[i].id == old(self).inbound@[i].id);
                            },
                            None => {},
                        }
                    },
                    SessionId::OutboundSessionId(id) => {
                        self.remove_outbound(id);
                    },
                }
                self.pending_events.push_back(
                    HandlerEvent::NotifyBehaviour(GenericEvent::SessionClosedByRequest { session_id }),
                );
            },
        }
    }

    fn remove_outbound(&mut self, id: OutboundSessionId)
        requires
            old(self).wf(),
        ensures
            final(self).wf(),
            final(self).config == old(self).config,
            final(self).peer_id == old(self).peer_id,
            final(self).next_inbound_session_id == old(self).next_inbound_session_id,
            final(self).inbound@ == old(self).inbound@,
            final(self).pending_events@ == old(self).pending_events@,
            final(self).outbound@.to_set() == old(self).outbound@.to_set().remove(id),
            final(self).outbound@.len() <= old(self).outbound@.len(),
            !final(self).outbound@.contains(id),
    {
        match self.find_outbound(id) {
            Some(k) => {
                let ghost before = self.outbound@;
                self.outbound.remove(k);
                proof {
                    before.unique_seq_to_set();
                    assert(before =~= before.subrange(0, k as int) + seq![id] + before.subrange(k as int + 1, before.len() as int));
                    assert(self.outbound@ =~= before.remove(k as int));
                    assert(self.outbound@.no_duplicates()) by {
                        assert forall|i: int, j: int| 0 <= i < self.outbound@.len() && 0 <= j < self.outbound@.len() && i != j implies self.outbound@[i] != self.outbound@[j] by {
                            let oi = if i < k { i } else { i + 1 };
                            let oj = if j < k { j } else { j + 1 };
                            assert(self.outbound@[i] == before[oi]);
                            assert(self.outbound@[j] == before[oj]);
                        }
                    }
                    assert(self.outbound@.to_set() =~= before.to_set().remove(id)) by {
                        assert forall|x: OutboundSessionId| #[trigger] self.outbound@.to_set().contains(x) <==> before.to_set().remove(id).contains(x) by {
                            if self.outbound@.contains(x) {
                                let i = choose|i: int| 0 <= i < self.outbound@.len() && self.outbound@[i] == x;
                                let oi = if i < k { i } else { i + 1 };
                                assert(before[oi] == x);
                                assert(oi != k);
                                assert(x != id);
                            }
                            if before.contains(x) && x != id {
                                let i = choose|i: int| 0 <= i < before.len() && before[i] == x;
                                assert(i != k);
                                let ni = if i < k { i } else { i - 1 };
                                assert(self.outbound@[ni] == x);
                            }
                        }
                    }
                }
            },
            None => {
                assert(self.outbound@.to_set() =~= self.outbound@.to_set().remove(id));
            },
        }
        assert(!self.outbound@.contains(id)) by {
            if self.outbound@.contains(id) {
                assert(self.outbound@.to_set().contains(id));
            }
        }
    }

    /// Takes a remote peer's newly negotiated substream, whose query was read: the session is
    /// installed, with nothing queued, and reported.
    pub fn on_fully_negotiated_inbound(&mut self, query: Query, inbound_session_id: InboundSessionId)
        requires
            old(self).wf(),
        ensures
            final(self).wf(),
            final(self).config == old(self).config,
            final(self).peer_id == old(self).peer_id,
            final(self).next_inbound_session_id == old(self).next_inbound_session_id,
            final(self).outbound@ == old(self).outbound@,
            final(self).has_inbound(inbound_session_id),
            Self::is_fresh_entry(
                final(self).inbound@[final(self).inbound_index(inbound_session_id)],
                inbound_session_id,
            ),
            forall|i: int|
                0 <= i < old(self).inbound@.len() && old(self).inbound@[i].id != inbound_session_id
                    ==> final(self).inbound@[i] == old(self).inbound@[i],
            old(self).has_inbound(inbound_session_id) ==> final(self).inbound@.len() == old(
                self,
            ).inbound@.len(),
            !old(self).has_inbound(inbound_session_id) ==> final(self).inbound@.len() == old(
                self,
            ).inbound@.len() + 1,
            final(self).pending_events@.len() == old(self).pending_events@.len() + 1,
            final(self).pending_events@.drop_last() == old(self).pending_events@,
            match final(self).pending_events@.last() {
                HandlerEvent::NotifyBehaviour(
                    GenericEvent::NewInboundSession { query: q, inbound_session_id: id, peer_id },
                ) => q == query && id == inbound_session_id && peer_id@ == old(self).peer_id@,
                _ => false,
            },
    {
        self.pending_events.push_back(
            HandlerEvent::NotifyBehaviour(
                GenericEvent::NewInboundSession {
                    query,
                    inbound_session_id,
                    peer_id: self.peer_id.duplicate(),
                },
            ),
        );
        let entry = InboundEntry {
            id: inbound_session_id,
            session: InboundSession::new(),
            marked_to_end: false,
        };
        match self.find_inbound(inbound_session_id) {
            Some(k) => {
                self.inbound.set(k, entry);
                proof {
                    assert forall|i: int, j: int|
                        0 <= i < j < self.inbound@.len() implies self.inbound@[i].id
                        != self.inbound@[j].id by {
                        assert(old(self).inbound@[i].id != old(self).inbound@[j].id);
                    }
                    self.lemma_inbound_index(k as int);
                }
            },
            None => {
                self.inbound.push(entry);
                proof {
                    let n = old(self).inbound@.len() as int;
                    assert forall|i: int, j: int|
                        0 <= i < j < self.inbound@.len() implies self.inbound@[i].id
                        != self.inbound@[j].id by {
                        if j == n {
                            assert(old(self).inbound@[i].id != inbound_session_id);
                        } else {
                            assert(old(self).inbound@[i].id != old(self).inbound@[j].id);
                        }
                    }
                    self.lemma_inbound_index(n);
                }
            },
        }
    }

    /// An inbound session as it stands right after negotiation.
    pub open spec fn is_fresh_entry(e: InboundEntry<Data>, id: InboundSessionId) -> bool {
        &&& e.id == id
        &&& !e.marked_to_end
        &&& e.session.wf()
        &&& e.session.state == InboundState::Waiting
        &&& e.session.queue@.len() == 0
        &&& e.session.queued@.len() == 0
        &&& e.session.written@.len() == 0
    }

    /// Takes a newly negotiated outbound substream, over which the query was sent: from now on
    /// its frames are read.
    pub fn on_fully_negotiated_outbound(&mut self, outbound_session_id: OutboundSessionId)
        requires
            old(self).wf(),
        ensures
            final(self).wf(),
            final(self).config == old(self).config,
            final(self).peer_id == old(self).peer_id,
            final(self).next_inbound_session_id == old(self).next_inbound_session_id,
            final(self).inbound@ == old(self).inbound@,
            final(self).pending_events@ == old(self).pending_events@,
            final(self).outbound@.to_set() == old(self).outbound@.to_set().insert(
                outbound_session_id,
            ),
    {
        match self.find_outbound(outbound_session_id) {
            Some(_) => {
                assert(self.outbound@.to_set() =~= self.outbound@.to_set().insert(
                    outbound_session_id,
                ));
            },
            None => {
                self.outbound.push(outbound_session_id);
                proof {
                    let before = old(self).outbound@;
                    assert(self.outbound@.no_duplicates()) by {
                        assert forall|i: int, j: int|
                            0 <= i < self.outbound@.len() && 0 <= j < self.outbound@.len() && i
                                != j implies self.outbound@[i] != self.outbound@[j] by {
                            if i < before.len() && j < before.len() {
                            } else if i < before.len() {
                                assert(before.contains(before[i]));
                            } else {
                                assert(before.contains(before[j]));
                            }
                        }
                    }
                    assert(self.outbound@.to_set() =~= before.to_set().insert(outbound_session_id))
                        by {
                        assert forall|x: OutboundSessionId|
                            #[trigger] self.outbound@.to_set().contains(x) <==> before.to_set().insert(
                                outbound_session_id,
                            ).contains(x) by {
                            if self.outbound@.contains(x) {
                                let i = choose|i: int|
                                    0 <= i < self.outbound@.len() && self.outbound@[i] == x;
                                if i < before.len() {
                                    assert(before[i] == x);
                                }
                            }
                            if before.contains(x) {
                                let i = choose|i: int| 0 <= i < before.len() && before[i] == x;
                                assert(self.outbound@[i] == x);
                            }
                            if x == outbound_session_id {
                                assert(self.outbound@[before.len() as int] == x);
                            }
                        }
                    }
                }
            },
        }
    }

    /// The error that a failed negotiation of an outbound substream is reported with.
    pub open spec fn dial_error_as(
        config: Config,
        error: DialUpgradeError,
        reported: HandlerSessionError,
    ) -> bool {
        match error {
            DialUpgradeError::Timeout => reported == HandlerSessionError::Timeout {
                substream_timeout: config.substream_timeout,
            },
            DialUpgradeError::Apply(e) => reported == HandlerSessionError::IOError(e),
            DialUpgradeError::NegotiationFailed => match reported {
                HandlerSessionError::RemoteDoesntSupportProtocol { protocol_name } =>
                    protocol_name@ == config.protocol_name@,
                _ => false,
            },
            DialUpgradeError::Io(e) => reported == HandlerSessionError::IOError(e),
        }
    }

    /// Takes the failure of an outbound substream's negotiation: the session fails.
    pub fn on_dial_upgrade_error(
        &mut self,
        outbound_session_id: OutboundSessionId,
        error: DialUpgradeError,
    )
        requires
            old(self).wf(),
        ensures
            final(self).wf(),
            final(self).config == old(self).config,
            final(self).peer_id == old(self).peer_id,
            final(self).next_inbound_session_id == old(self).next_inbound_session_id,
            final(self).inbound@ == old(self).inbound@,
            final(self).outbound@ == old(self).outbound@,
            final(self).pending_events@.len() == old(self).pending_events@.len() + 1,
            final(self).pending_events@.drop_last() == old(self).pending_events@,
            match final(self).pending_events@.last() {
                HandlerEvent::NotifyBehaviour(GenericEvent::SessionFailed { session_id, error: e }) =>
                    session_id == SessionId::OutboundSessionId(outbound_session_id)
                    && Self::dial_error_as(old(self).config, error, e),
                _ => false,
            },
    {
        let session_error = match error {
            DialUpgradeError::Timeout => HandlerSessionError::Timeout {
                substream_timeout: self.config.substream_timeout,
            },
            DialUpgradeError::Apply(e) => HandlerSessionError::IOError(e),
            DialUpgradeError::NegotiationFailed => HandlerSessionError::RemoteDoesntSupportProtocol {
                protocol_name: self.config.protocol_name.clone(),
            },
            DialUpgradeError::Io(e) => HandlerSessionError::IOError(e),
        };
        self.pending_events.push_back(
            HandlerEvent::NotifyBehaviour(
                GenericEvent::SessionFailed {
                    session_id: SessionId::OutboundSessionId(outbound_session_id),
                    error: session_error,
                },
            ),
        );
    }

    /// Takes what reading the next frame of an outbound session gave: a frame is reported; the
    /// end of the substream or an error is reported and ends the session. Outcomes for a
    /// session that is no longer live are dropped, so an outbound session ends once. Returns
    /// whether the session goes on.
    pub fn on_outbound_poll(
        &mut self,
        outbound_session_id: OutboundSessionId,
        outcome: OutboundPoll<Data>,
    ) -> (alive: bool)
        requires
            old(self).wf(),
        ensures
            final(self).wf(),
            final(self).config == old(self).config,
            final(self).peer_id == old(self).peer_id,
            final(self).next_inbound_session_id == old(self).next_inbound_session_id,
            final(self).inbound@ == old(self).inbound@,
            !old(self).has_outbound(outbound_session_id) ==> !alive && final(self).outbound@ == old(
                self,
            ).outbound@ && final(self).pending_events@ == old(self).pending_events@,
            old(self).has_outbound(outbound_session_id) ==> match outcome {
                OutboundPoll::Item(data) => {
                    &&& alive
                    &&& final(self).outbound@ == old(self).outbound@
                    &&& final(self).pending_events@ == old(self).pending_events@.push(
                        HandlerEvent::NotifyBehaviour(
                            GenericEvent::ReceivedData { outbound_session_id, data },
                        ),
                    )
                },
                OutboundPoll::End => {
                    &&& !alive
                    &&& !final(self).has_outbound(outbound_session_id)
                    &&& final(self).outbound@.to_set() == old(self).outbound@.to_set().remove(
                        outbound_session_id,
                    )
                    &&& final(self).pending_events@ == old(self).pending_events@.push(
                        HandlerEvent::NotifyBehaviour(
                            GenericEvent::SessionClosedByPeer {
                                session_id: SessionId::OutboundSessionId(outbound_session_id),
                            },
                        ),
                    )
                },
                OutboundPoll::Error(e) => {
                    &&& !alive
                    &&& !final(self).has_outbound(outbound_session_id)
                    &&& final(self).outbound@.to_set() == old(self).outbound@.to_set().remove(
                        outbound_session_id,
                    )
                    &&& final(self).pending_events@ == old(self).pending_events@.push(
                        HandlerEvent::NotifyBehaviour(
                            GenericEvent::SessionFailed {
                                session_id: SessionId::OutboundSessionId(outbound_session_id),
                                error: HandlerSessionError::IOError(e),
                            },
                        ),
                    )
                },
            },
    {
        if self.find_outbound(outbound_session_id).is_none() {
            return false;
        }
        match outcome {
            OutboundPoll::Item(data) => {
                self.pending_events.push_back(
                    HandlerEvent::NotifyBehaviour(
                        GenericEvent::ReceivedData { outbound_session_id, data },
                    ),
                );
                true
            },
            OutboundPoll::End => {
                self.remove_outbound(outbound_session_id);
                self.pending_events.push_back(
                    HandlerEvent::NotifyBehaviour(
                        GenericEvent::SessionClosedByPeer {
                            session_id: SessionId::OutboundSessionId(outbound_session_id),
                        },
                    ),
                );
                false
            },
            OutboundPoll::Error(e) => {
                self.remove_outbound(outbound_session_id);
                self.pending_events.push_back(
                    HandlerEvent::NotifyBehaviour(
                        GenericEvent::SessionFailed {
                            session_id: SessionId::OutboundSessionId(outbound_session_id),
                            error: HandlerSessionError::IOError(e),
                        },
                    ),
                );
                false
            },
        }
    }

    /// Takes the outcome of the I/O that an inbound session had under way. A session that
    /// finishes is dropped; one that finishes on an error is reported as failed. A successful
    /// finish is not reported: the close was reported when it was asked for. Returns whether
    /// the session finished.
    pub fn on_inbound_io(
        &mut self,
        inbound_session_id: InboundSessionId,
        result: Result<(), std::io::Error>,
    ) -> (finished: bool)
        requires
            old(self).wf(),
        ensures
            final(self).wf(),
            final(self).config == old(self).config,
            final(self).peer_id == old(self).peer_id,
            final(self).next_inbound_session_id == old(self).next_inbound_session_id,
            final(self).outbound@ == old(self).outbound@,
            !old(self).has_inbound(inbound_session_id) ==> !finished && final(self).inbound@ == old(
                self,
            ).inbound@ && final(self).pending_events@ == old(self).pending_events@,
            old(self).has_inbound(inbound_session_id) ==> {
                let k = old(self).inbound_index(inbound_session_id);
                let pre = old(self).inbound@[k].session;
                &&& finished == (pre.state == InboundState::WriteQueued && result is Err
                    || pre.state == (InboundState::Closing { close_started: true }))
                &&& finished ==> final(self).inbound@ == old(self).inbound@.remove(k)
                &&& !finished ==> Self::inbound_changed_at(
                    old(self).inbound@,
                    final(self).inbound@,
                    k,
                ) && InboundSession::io_done(pre, final(self).inbound@[k].session, result, None)
                &&& match result {
                    Err(e) if finished => final(self).pending_events@ == old(
                        self,
                    ).pending_events@.push(
                        HandlerEvent::NotifyBehaviour(
                            GenericEvent::SessionFailed {
                                session_id: SessionId::InboundSessionId(inbound_session_id),
                                error: HandlerSessionError::IOError(e),
                            },
                        ),
                    ),
                    _ => final(self).pending_events@ == old(self).pending_events@,
                }
            },
    {
        let k = match self.find_inbound(inbound_session_id) {
            Some(k) => k,
            None => {
                return false;
            },
        };
        let mut entry = self.inbound.remove(k);
        let reason = entry.session.on_io_done(result);
        match reason {
            None => {
                self.inbound.insert(k, entry);
                assert(Self::inbound_changed_at(old(self).inbound@, self.inbound@, k as int));
                false
            },
            Some(reason) => {
                proof {
                    assert forall|i: int, j: int|
                        0 <= i < j < self.inbound@.len() implies self.inbound@[i].id
                        != self.inbound@[j].id by {
                        let oi = if i < k { i } else { i + 1 };
                        let oj = if j < k { j } else { j + 1 };
                        assert(old(self).inbound@[oi].id != old(self).inbound@[oj].id);
                    }
                }
                match reason {
                    FinishReason::Error(e) => {
                        self.pending_events.push_back(
                            HandlerEvent::NotifyBehaviour(
                                GenericEvent::SessionFailed {
                                    session_id: SessionId::InboundSessionId(inbound_session_id),
                                    error: HandlerSessionError::IOError(e),
                                },
                            ),
                        );
                    },
                    FinishReason::Success => {},
                }
                true
            },
        }
    }

    /// Decides, for each inbound session in turn, the I/O to start next; the result holds one
    /// entry per session, `Idle` where there is nothing to start.
    pub fn next_inbound_steps(&mut self) -> (r: Vec<(InboundSessionId, InboundStep<Data>)>)
        requires
            old(self).wf(),
        ensures
            final(self).wf(),
            final(self).config == old(self).config,
            final(self).peer_id == old(self).peer_id,
            final(self).next_inbound_session_id == old(self).next_inbound_session_id,
            final(self).outbound@ == old(self).outbound@,
            final(self).pending_events@ == old(self).pending_events@,
            final(self).inbound@.len() == old(self).inbound@.len(),
            r@.len() == old(self).inbound@.len(),
            forall|i: int|
                #![trigger final(self).inbound@[i]]
                #![trigger r@[i]]
                0 <= i < old(self).inbound@.len() ==> {
                    &&& final(self).inbound@[i].id == old(self).inbound@[i].id
                    &&& final(self).inbound@[i].marked_to_end == old(self).inbound@[i].marked_to_end
                    &&& r@[i].0 == old(self).inbound@[i].id
                    &&& InboundSession::stepped(
                        old(self).inbound@[i].session,
                        final(self).inbound@[i].session,
                        r@[i].1,
                    )
                },
    {
        let mut steps: Vec<(InboundSessionId, InboundStep<Data>)> = Vec::new();
        let n = self.inbound.len();
        let mut k: usize = 0;
        while k < n
            invariant
                n == self.inbound@.len(),
                n == old(self).inbound@.len(),
                k <= n,
                steps@.len() == k,
                self.config == old(self).config,
                self.peer_id == old(self).peer_id,
                self.next_inbound_session_id == old(self).next_inbound_session_id,
                self.outbound@ == old(self).outbound@,
                self.pending_events@ == old(self).pending_events@,
                forall|i: int| 0 <= i < n ==> self.inbound@[i].session.wf(),
                forall|i: int|
                    0 <= i < n && !self.inbound@[i].marked_to_end
                        ==> self.inbound@[i].session.accepts_data(),
                forall|i: int|
                    #![trigger self.inbound@[i]]
                    k <= i < n ==> self.inbound@[i] == old(self).inbound@[i],
                forall|i: int|
                    #![trigger self.inbound@[i]]
                    0 <= i < k ==> {
                        &&& self.inbound@[i].marked_to_end == old(
                            self,
                        ).inbound@[i].marked_to_end
                        &&& self.inbound@[i].id == old(self).inbound@[i].id
                        &&& steps@[i].0 == old(self).inbound@[i].id
                        &&& InboundSession::stepped(
                            old(self).inbound@[i].session,
                            self.inbound@[i].session,
                            steps@[i].1,
                        )
                    },
                old(self).wf(),
            decreases n - k,
        {
            let ghost prev = self.inbound@;
            let mut entry = self.inbound.remove(k);
            let step = entry.session.next_step();
            let id = entry.id;
            self.inbound.insert(k, entry);
            assert(self.inbound@ =~= prev.update(k as int, self.inbound@[k as int]));
            steps.push((id, step));
            k = k + 1;
        }
        proof {
            assert forall|i: int, j: int|
                0 <= i < j < self.inbound@.len() implies self.inbound@[i].id
                != self.inbound@[j].id by {
                assert(old(self).inbound@[i].id != old(self).inbound@[j].id);
            }
        }
        steps
    }

    /// One pass of the handler: each inbound session that was asked to end and has written its
    /// queue begins to close; then one pending event, the oldest, is handed out. The events of
    /// the sessions are queued before any is handed out, so that a high rate of events does not
    /// starve the sessions' I/O.
    pub fn poll(&mut self) -> (r: Option<HandlerEvent<Query, Data>>)
        requires
            old(self).wf(),
        ensures
            final(self).wf(),
            final(self).config == old(self).config,
            final(self).peer_id == old(self).peer_id,
            final(self).next_inbound_session_id == old(self).next_inbound_session_id,
            final(self).outbound@ == old(self).outbound@,
            popped_front(old(self).pending_events@, final(self).pending_events@, r),
            final(self).inbound@.len() == old(self).inbound@.len(),
            forall|i: int|
                #![trigger final(self).inbound@[i]]
                0 <= i < old(self).inbound@.len() ==> {
                    &&& final(self).inbound@[i].id == old(self).inbound@[i].id
                    &&& final(self).inbound@[i].marked_to_end == old(self).inbound@[i].marked_to_end
                    &&& old(self).inbound@[i].marked_to_end ==> InboundSession::closing_started(
                        old(self).inbound@[i].session,
                        final(self).inbound@[i].session,
                    )
                    &&& !old(self).inbound@[i].marked_to_end ==> final(self).inbound@[i].session
                        == old(self).inbound@[i].session
                },
    {
        let n = self.inbound.len();
        let mut k: usize = 0;
        while k < n
            invariant
                n == self.inbound@.len(),
                n == old(self).inbound@.len(),
                k <= n,
                self.config == old(self).config,
                self.peer_id == old(self).peer_id,
                self.next_inbound_session_id == old(self).next_inbound_session_id,
                self.outbound@ == old(self).outbound@,
                self.pending_events@ == old(self).pending_events@,
                forall|i: int| 0 <= i < n ==> self.inbound@[i].session.wf(),
                forall|i: int|
                    0 <= i < n && !self.inbound@[i].marked_to_end
                        ==> self.inbound@[i].session.accepts_data(),
                forall|i: int|
                    #![trigger self.inbound@[i]]
                    k <= i < n ==> self.inbound@[i] == old(self).inbound@[i],
                forall|i: int|
                    #![trigger self.inbound@[i]]
                    0 <= i < k ==> {
                        &&& self.inbound@[i].id == old(self).inbound@[i].id
                        &&& self.inbound@[i].marked_to_end == old(self).inbound@[i].marked_to_end
                        &&& old(self).inbound@[i].marked_to_end ==> InboundSession::closing_started(
                            old(self).inbound@[i].session,
                            self.inbound@[i].session,
                        )
                        &&& !old(self).inbound@[i].marked_to_end ==> self.inbound@[i].session
                            == old(self).inbound@[i].session
                    },
                old(self).wf(),
            decreases n - k,
        {
            if self.inbound[k].marked_to_end {
                let ghost prev = self.inbound@;
                let mut entry = self.inbound.remove(k);
                entry.session.start_closing();
                self.inbound.insert(k, entry);
                assert(self.inbound@ =~= prev.update(k as int, self.inbound@[k as int]));
            }
            k = k + 1;
        }
        proof {
            assert forall|i: int, j: int|
                0 <= i < j < self.inbound@.len() implies self.inbound@[i].id
                != self.inbound@[j].id by {
                assert(self.inbound@[i].id == old(self).inbound@[i].id);
                assert(self.inbound@[j].id == old(self).inbound@[j].id);
                assert(old(self).inbound@[i].id != old(self).inbound@[j].id);
            }
        }
        self.pending_events.pop_front()
    }
}

} // verus!
