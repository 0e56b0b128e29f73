use vstd::prelude::*;

verus! {

/// Identifier of a session that a remote peer opened to the local node.
#[derive(Clone, Copy, Debug, PartialEq, Eq, Structural, Hash)]
pub struct InboundSessionId {
    pub value: usize,
}

/// Identifier of a session that the local node opened to a remote peer.
#[derive(Clone, Copy, Debug, PartialEq, Eq, Structural, Hash)]
pub struct OutboundSessionId {
    pub value: usize,
}

/// Either kind of session identifier. The two spaces are disjoint.
#[derive(Clone, Copy, Debug, PartialEq, Eq, Structural, Hash)]
pub enum SessionId {
    InboundSessionId(InboundSessionId),
    OutboundSessionId(OutboundSessionId),
}

impl From<InboundSessionId> for SessionId {
    fn from(id: InboundSessionId) -> (r: SessionId) {
        SessionId::InboundSessionId(id)
    }
}

impl vstd::std_specs::convert::FromSpecImpl<InboundSessionId> for SessionId {
    open spec fn obeys_from_spec() -> bool {
        true
    }

    open spec fn from_spec(id: InboundSessionId) -> SessionId {
        SessionId::InboundSessionId(id)
    }
}

impl From<OutboundSessionId> for SessionId {
    fn from(id: OutboundSessionId) -> (r: SessionId) {
        SessionId::OutboundSessionId(id)
    }
}

impl vstd::std_specs::convert::FromSpecImpl<OutboundSessionId> for SessionId {
    open spec fn obeys_from_spec() -> bool {
        true
    }

    open spec fn from_spec(id: OutboundSessionId) -> SessionId {
        SessionId::OutboundSessionId(id)
    }
}

impl OutboundSessionId {
    /// The identifier allocated after this one.
    pub fn next(&self) -> (r: OutboundSessionId)
        requires
            self.value < usize::MAX,
        ensures
            r.value == self.value + 1,
    {
        OutboundSessionId { value: self.value + 1 }
    }
}

impl Default for OutboundSessionId {
    fn default() -> (r: OutboundSessionId)
        ensures
            r.value == 0,
    {
        OutboundSessionId { value: 0 }
    }
}

} // verus!
