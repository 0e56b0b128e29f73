use std::collections::VecDeque;

use vstd::prelude::*;

verus! {

/// How an inbound session ended.
#[derive(Debug)]
pub enum FinishReason {
    Success,
    Error(std::io::Error),
}

/// The phases of an inbound session. The query has been read when the session is created.
#[derive(Clone, Copy, Debug, PartialEq, Eq, Structural)]
pub enum InboundState {
    /// Nothing is being written and no close was asked for.
    Waiting,
    /// One data frame is being written.
    WriteQueued,
    /// Close was asked for; `close_started` tells whether the write half is being closed.
    Closing { close_started: bool },
    /// The substream is done with, cleanly or on an error.
    Finished,
}

/// The I/O that the driver of a session is to start next.
#[derive(Debug)]
pub enum InboundStep<Data> {
    /// Nothing to start now.
    Idle,
    /// Write this frame.
    Write(Data),
    /// Close the write half of the substream.
    CloseWrite,
}

/// The writing side of a session that a remote peer opened: frames queued by the application
/// are written in order, then the write half is closed.
pub struct InboundSession<Data> {
    pub state: InboundState,
    /// Frames queued and not yet handed to the substream.
    pub queue: VecDeque<Data>,
    /// Every frame that the session accepted, in the order of acceptance.
    pub queued: Ghost<Seq<Data>>,
    /// Every frame handed to the substream, in the order of writing.
    pub written: Ghost<Seq<Data>>,
}

impl<Data> InboundSession<Data> {
    pub open spec fn wf(&self) -> bool {
        &&& self.written@ + self.queue@ == self.queued@
        &&& self.state is Closing ==> self.queue@.len() == 0
    }

    /// A session whose query was read, with nothing queued.
    pub fn new() -> (r: InboundSession<Data>)
        ensures
            r.wf(),
            r.state == InboundState::Waiting,
            r.queue@ == Seq::<Data>::empty(),
            r.queued@ == Seq::<Data>::empty(),
            r.written@ == Seq::<Data>::empty(),
    {
        InboundSession {
            state: InboundState::Waiting,
            queue: VecDeque::new(),
            queued: Ghost(Seq::empty()),
            written: Ghost(Seq::empty()),
        }
    }

    /// Whether the session accepts more frames: it is neither closing nor finished.
    pub open spec fn accepts_data(&self) -> bool {
        self.state is Waiting || self.state is WriteQueued
    }

    /// `post` is `pre` after `data` was offered to it: queued behind the others unless closing
    /// has begun.
    pub open spec fn added(pre: Self, post: Self, data: Data) -> bool {
        &&& post.state == pre.state
        &&& post.written@ == pre.written@
        &&& pre.accepts_data() ==> post.queue@ == pre.queue@.push(data) && post.queued@
            == pre.queued@.push(data)
        &&& !pre.accepts_data() ==> post.queue@ == pre.queue@ && post.queued@ == pre.queued@
    }

    /// Queues a frame behind those already queued. Once closing has begun the frame is dropped.
    pub fn add_message_to_queue(&mut self, data: Data)
        requires
            old(self).wf(),
        ensures
            final(self).wf(),
            Self::added(*old(self), *final(self), data),
    {
        match self.state {
            InboundState::Waiting | InboundState::WriteQueued => {
                self.queue.push_back(data);
                self.queued = Ghost(self.queued@.push(data));
                assert(self.written@ + self.queue@ =~= self.queued@);
            },
            _ => {},
        }
    }

    /// True iff no write is pending or under way and closing has not begun.
    pub fn is_waiting(&self) -> (r: bool)
        ensures
            r == (self.state == InboundState::Waiting && self.queue@.len() == 0),
    {
        match self.state {
            InboundState::Waiting => self.queue.len() == 0,
            _ => false,
        }
    }

    /// `post` is `pre` after a request to begin closing.
    pub open spec fn closing_started(pre: Self, post: Self) -> bool {
        &&& post.queue@ == pre.queue@
        &&& post.queued@ == pre.queued@
        &&& post.written@ == pre.written@
        &&& (pre.state == InboundState::Waiting && pre.queue@.len() == 0) ==> post.state == (
        InboundState::Closing { close_started: false })
        &&& !(pre.state == InboundState::Waiting && pre.queue@.len() == 0) ==> post.state
            == pre.state
    }

    /// Begins closing a waiting session; a session that is already closing is left as it is.
    pub fn start_closing(&mut self)
        requires
            old(self).wf(),
        ensures
            final(self).wf(),
            Self::closing_started(*old(self), *final(self)),
    {
        if self.is_waiting() {
            self.state = InboundState::Closing { close_started: false };
        }
    }

    /// `post` is `pre` after it decided to start `step`.
    pub open spec fn stepped(pre: Self, post: Self, step: InboundStep<Data>) -> bool {
        &&& post.queued@ == pre.queued@
        &&& pre.state == InboundState::Waiting && pre.queue@.len() > 0 ==> {
            &&& step == InboundStep::Write(pre.queue@[0])
            &&& post.state == InboundState::WriteQueued
            &&& post.queue@ == pre.queue@.drop_first()
            &&& post.written@ == pre.written@.push(pre.queue@[0])
        }
        &&& pre.state == (InboundState::Closing { close_started: false }) ==> {
            &&& step is CloseWrite
            &&& post.state == (InboundState::Closing { close_started: true })
            &&& post.queue@ == pre.queue@
            &&& post.written@ == pre.written@
        }
        &&& !(pre.state == InboundState::Waiting && pre.queue@.len() > 0) && pre.state != (
        InboundState::Closing { close_started: false }) ==> {
            &&& step is Idle
            &&& post == pre
        }
    }

    /// Decides the I/O to start: the next queued frame when nothing is being written, the close
    /// of the write half once closing was asked for, else nothing.
    pub fn next_step(&mut self) -> (r: InboundStep<Data>)
        requires
            old(self).wf(),
        ensures
            final(self).wf(),
            Self::stepped(*old(self), *final(self), r),
    {
        match self.state {
            InboundState::Waiting => {
                if self.queue.len() > 0 {
                    let front = self.queue.pop_front();
                    match front {
                        Some(data) => {
                            self.state = InboundState::WriteQueued;
                            self.written = Ghost(self.written@.push(data));
                            assert(self.written@ + self.queue@ =~= self.queued@) by {
                                assert(old(self).queue@ =~= seq![data] + self.queue@);
                                assert(old(self).written@ + old(self).queue@ =~= old(self).written@.push(data) + self.queue@);
                            }
                            InboundStep::Write(data)
                        },
                        None => InboundStep::Idle,
                    }
                } else {
                    InboundStep::Idle
                }
            },
            InboundState::Closing { close_started: false } => {
                self.state = InboundState::Closing { close_started: true };
                InboundStep::CloseWrite
            },
            _ => InboundStep::Idle,
        }
    }

    /// `post` is `pre` after the I/O under way ended with `result`; `r` is what it reports.
    pub open spec fn io_done(
        pre: Self,
        post: Self,
        result: Result<(), std::io::Error>,
        r: Option<FinishReason>,
    ) -> bool {
        &&& post.queued@ == pre.queued@
        &&& post.written@ == pre.written@
        &&& post.queue@ == pre.queue@
        &&& pre.state == InboundState::WriteQueued ==> match result {
            Ok(()) => r is None && post.state == InboundState::Waiting,
            Err(e) => r == Some(FinishReason::Error(e)) && post.state == InboundState::Finished,
        }
        &&& pre.state == (InboundState::Closing { close_started: true }) ==> {
            &&& post.state == InboundState::Finished
            &&& match result {
                Ok(()) => r == Some(FinishReason::Success),
                Err(e) => r == Some(FinishReason::Error(e)),
            }
        }
        &&& pre.state != InboundState::WriteQueued && pre.state != (InboundState::Closing {
            close_started: true,
        }) ==> r is None && post == pre
    }

    /// Takes the outcome of the I/O that `next_step` started. A finished write lets the next
    /// one start; a finished close ends the session with success; an error ends it with that
    /// error. The reason is handed out once, when the session finishes.
    pub fn on_io_done(&mut self, result: Result<(), std::io::Error>) -> (r: Option<FinishReason>)
        requires
            old(self).wf(),
        ensures
            final(self).wf(),
            Self::io_done(*old(self), *final(self), result, r),
    {
        match self.state {
            InboundState::WriteQueued => match result {
                Ok(()) => {
                    self.state = InboundState::Waiting;
                    None
                },
                Err(e) => {
                    self.state = InboundState::Finished;
                    Some(FinishReason::Error(e))
                },
            },
            InboundState::Closing { close_started: true } => {
                self.state = InboundState::Finished;
                match result {
                    Ok(()) => Some(FinishReason::Success),
                    Err(e) => Some(FinishReason::Error(e)),
                }
            },
            _ => None,
        }
    }
}

/// Frames reach the substream in the order in which the session accepted them, with none
/// reordered, inserted or repeated: what was written is always a prefix of what was accepted,
/// and the frames still queued are exactly the rest.
pub proof fn lemma_frames_written_in_order<Data>(s: InboundSession<Data>)
    requires
        s.wf(),
    ensures
        s.written@.len() <= s.queued@.len(),
        s.written@ == s.queued@.subrange(0, s.written@.len() as int),
        s.queue@ == s.queued@.subrange(s.written@.len() as int, s.queued@.len() as int),
{
    assert(s.written@ =~= s.queued@.subrange(0, s.written@.len() as int));
    assert(s.queue@ =~= s.queued@.subrange(s.written@.len() as int, s.queued@.len() as int));
}

} // verus!
