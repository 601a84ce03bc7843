//! The connection task's state machine.
//!
//! A connection moves strictly forward through `Start`, `Reading`,
//! `Writing`, `Flushing` and the terminal `Done`/`Failed`, re-entering a
//! state only while it is incomplete (a partial read or write).  Every
//! socket operation is performed by the task's driver, which reports its
//! outcome as a plain event; the step functions here decide the next state
//! and the next action, and are verified for every possible outcome.

use vstd::prelude::*;
use crate::frame::{REQUEST_CAPACITY, RESPONSE_LEN, ends_with_terminator, request_complete};

verus! {

/// The outcome of one read attempt on the connection's socket.
pub enum ReadEvent {
    /// The read returned these bytes (at least one).
    Data(Vec<u8>),
    /// The read returned zero bytes: the peer closed its end.
    Eof,
    /// The read would block; a readiness notification will wake the task.
    WouldBlock,
    /// The read failed outright.
    Error,
}

/// The outcome of one write attempt on the connection's socket.
pub enum WriteEvent {
    /// The socket accepted this many bytes (at least one).
    Wrote(usize),
    /// The write returned zero bytes: the peer closed its end.
    Closed,
    /// The write would block; a readiness notification will wake the task.
    WouldBlock,
    /// The write failed outright.
    Error,
}

/// The outcome of one flush attempt on the connection's socket.
pub enum FlushEvent {
    /// Buffered output is fully flushed.
    Flushed,
    /// The flush would block; a readiness notification will wake the task.
    WouldBlock,
    /// The flush failed outright.
    Error,
}

/// What the task asks of its driver next.
pub enum Action {
    /// Attempt another read.
    Read,
    /// Attempt to write the fixed response from this offset on.
    Write(usize),
    /// Flush buffered output.
    Flush,
    /// No progress without external input: report the task pending.
    Suspend,
    /// The task is over: deregister its handle, close the socket, drop it.
    Finish,
}

/// The connection's position in the protocol.
pub enum ConnectionState {
    /// Nothing has happened yet; no buffer is allocated.
    Start,
    /// Accumulating request bytes until the terminator arrives; `buf` holds
    /// exactly the bytes read so far, so a later read can never overwrite
    /// an earlier one.
    Reading { buf: Vec<u8> },
    /// Sending the fixed response; `sent` bytes of it are already accepted.
    Writing { sent: usize },
    /// The whole response is accepted; output still needs flushing.
    Flushing,
    /// The exchange completed.
    Done,
    /// The connection was dropped: peer closed early, oversized request, or
    /// an I/O failure.
    Failed,
}

impl ConnectionState {
    /// Position in the forward order of states; `Done` and `Failed` share
    /// the terminal rank.
    pub open spec fn phase(self) -> int {
        match self {
            ConnectionState::Start => 0,
            ConnectionState::Reading { .. } => 1,
            ConnectionState::Writing { .. } => 2,
            ConnectionState::Flushing => 3,
            ConnectionState::Done => 4,
            ConnectionState::Failed => 4,
        }
    }

    /// The request bytes accumulated so far (empty outside `Reading`).
    pub open spec fn buffered(self) -> Seq<u8> {
        match self {
            ConnectionState::Reading { buf } => buf@,
            _ => Seq::<u8>::empty(),
        }
    }

    /// How many response bytes the peer has accepted (zero outside
    /// `Writing`; on entering `Flushing` all of them were).
    pub open spec fn sent(self) -> int {
        match self {
            ConnectionState::Writing { sent } => sent as int,
            _ => 0,
        }
    }

    pub open spec fn is_terminal(self) -> bool {
        self is Done || self is Failed
    }

    /// Internal invariant: while reading, the buffer is within capacity and
    /// does not yet end with the terminator; while writing, part of the
    /// response is still owed.
    pub open spec fn wf(self) -> bool {
        match self {
            ConnectionState::Reading { buf } => buf@.len() <= REQUEST_CAPACITY
                && !ends_with_terminator(buf@),
            ConnectionState::Writing { sent } => (sent as int) < RESPONSE_LEN,
            _ => true,
        }
    }

    /// Leaving `Start`: the driver has just registered the task's waker for
    /// its handle; allocate the empty request buffer and ask for a read.
    pub fn begin(&mut self) -> (a: Action)
        requires
            *old(self) is Start,
        ensures
            final(self).wf(),
            *final(self) is Reading,
            final(self).buffered() == Seq::<u8>::empty(),
            a == Action::Read,
    {
        *self = ConnectionState::Reading { buf: Vec::new() };
        Action::Read
    }

    /// Whether the task was never driven yet.
    pub fn at_start(&self) -> (b: bool)
        ensures
            b == (self is Start),
    {
        match self {
            ConnectionState::Start => true,
            _ => false,
        }
    }

    /// The action that re-enters the current state after a wake-up.
    pub fn resume_action(&self) -> (a: Action)
        requires
            !(self is Start),
        ensures
            self is Reading ==> a == Action::Read,
            self is Writing ==> a == Action::Write(self.sent() as usize),
            self is Flushing ==> a == Action::Flush,
            self.is_terminal() ==> a == Action::Finish,
    {
        match self {
            ConnectionState::Reading { .. } => Action::Read,
            ConnectionState::Writing { sent } => Action::Write(*sent),
            ConnectionState::Flushing => Action::Flush,
            ConnectionState::Done => Action::Finish,
            ConnectionState::Failed => Action::Finish,
            ConnectionState::Start => {
                proof {
                    assert(false);
                }
                Action::Finish
            },
        }
    }

    /// React to the outcome of a read.  Data extends the buffer exactly at
    /// the fill point; the terminator check always sees the whole
    /// accumulation, so a terminator split across reads is still found.  An
    /// oversized request fails the connection rather than overflow.
    pub fn on_read(&mut self, ev: ReadEvent) -> (a: Action)
        requires
            *old(self) is Reading,
            old(self).wf(),
            ev matches ReadEvent::Data(d) ==> d@.len() > 0,
        ensures
            final(self).wf(),
            final(self).phase() >= old(self).phase(),
            (ev matches ReadEvent::Data(d) ==> {
                let extended = old(self).buffered() + d@;
                &&& (extended.len() > REQUEST_CAPACITY ==> *final(self) is Failed && a
                    == Action::Finish)
                &&& (extended.len() <= REQUEST_CAPACITY && ends_with_terminator(extended)
                    ==> *final(self) is Writing && final(self).sent() == 0 && a == Action::Write(0))
                &&& (extended.len() <= REQUEST_CAPACITY && !ends_with_terminator(extended)
                    ==> *final(self) is Reading && final(self).buffered() == extended && a == Action::Read)
            }),
            ev is Eof ==> *final(self) is Failed && a == Action::Finish,
            ev is WouldBlock ==> *final(self) == *old(self) && a == Action::Suspend,
            ev is Error ==> *final(self) is Failed && a == Action::Finish,
    {
        match ev {
            ReadEvent::Data(mut d) => {
                let mut cur = ConnectionState::Failed;
                core::mem::swap(&mut cur, self);
                match cur {
                    ConnectionState::Reading { mut buf } => {
                        if d.len() > REQUEST_CAPACITY - buf.len() {
                            *self = ConnectionState::Failed;
                            Action::Finish
                        } else {
                            buf.append(&mut d);
                            if request_complete(&buf) {
                                *self = ConnectionState::Writing { sent: 0 };
                                Action::Write(0)
                            } else {
                                *self = ConnectionState::Reading { buf };
                                Action::Read
                            }
                        }
                    },
                    _ => {
                        proof {
                            assert(false);
                        }
                        Action::Finish
                    },
                }
            },
            ReadEvent::Eof => {
                *self = ConnectionState::Failed;
                Action::Finish
            },
            ReadEvent::WouldBlock => Action::Suspend,
            ReadEvent::Error => {
                *self = ConnectionState::Failed;
                Action::Finish
            },
        }
    }

    /// React to the outcome of a write of `response[sent..]`.  The driver
    /// never reports more bytes accepted than were offered.
    pub fn on_write(&mut self, ev: WriteEvent) -> (a: Action)
        requires
            *old(self) is Writing,
            old(self).wf(),
            ev matches WriteEvent::Wrote(n) ==> 0 < n <= RESPONSE_LEN - old(self).sent(),
        ensures
            final(self).wf(),
            final(self).phase() >= old(self).phase(),
            (ev matches WriteEvent::Wrote(n) ==> {
                let total = old(self).sent() + n;
                &&& (total == RESPONSE_LEN ==> *final(self) is Flushing && a == Action::Flush)
                &&& (total < RESPONSE_LEN ==> *final(self) is Writing && final(self).sent() == total && a
                    == Action::Write(total as usize))
            }),
            ev is Closed ==> *final(self) is Failed && a == Action::Finish,
            ev is WouldBlock ==> *final(self) == *old(self) && a == Action::Suspend,
            ev is Error ==> *final(self) is Failed && a == Action::Finish,
    {
        match ev {
            WriteEvent::Wrote(n) => {
                let cur = self.sent_offset();
                let total = cur + n;
                if total == RESPONSE_LEN {
                    *self = ConnectionState::Flushing;
                    Action::Flush
                } else {
                    *self = ConnectionState::Writing { sent: total };
                    Action::Write(total)
                }
            },
            WriteEvent::Closed => {
                *self = ConnectionState::Failed;
                Action::Finish
            },
            WriteEvent::WouldBlock => Action::Suspend,
            WriteEvent::Error => {
                *self = ConnectionState::Failed;
                Action::Finish
            },
        }
    }

    /// React to the outcome of a flush: success completes the exchange.
    pub fn on_flush(&mut self, ev: FlushEvent) -> (a: Action)
        requires
            *old(self) is Flushing,
        ensures
            final(self).wf(),
            final(self).phase() >= old(self).phase(),
            ev is Flushed ==> *final(self) is Done && a == Action::Finish,
            ev is WouldBlock ==> *final(self) == *old(self) && a == Action::Suspend,
            ev is Error ==> *final(self) is Failed && a == Action::Finish,
    {
        match ev {
            FlushEvent::Flushed => {
                *self = ConnectionState::Done;
                Action::Finish
            },
            FlushEvent::WouldBlock => Action::Suspend,
            FlushEvent::Error => {
                *self = ConnectionState::Failed;
                Action::Finish
            },
        }
    }

    /// How far into the response the writing has come.
    pub fn sent_offset(&self) -> (n: usize)
        requires
            self is Writing,
        ensures
            n == self.sent(),
    {
        match self {
            ConnectionState::Writing { sent } => *sent,
            _ => {
                proof {
                    assert(false);
                }
                0
            },
        }
    }
}

/// Law: whether the terminator is detected depends only on the bytes
/// accumulated, never on how they were split into reads — scanning after
/// each extension sees the same concatenation whatever the chunk boundary.
pub proof fn lemma_detection_chunk_independent(whole: Seq<u8>, k: int)
    requires
        0 <= k <= whole.len(),
    ensures
        ends_with_terminator(whole.take(k) + whole.skip(k)) == ends_with_terminator(whole),
{
    assert(whole.take(k) + whole.skip(k) =~= whole);
}

} // verus!
