//! The poll contract, and the connection task that implements it.
//!
//! `Future` is the uniform shape of every unit of cooperative work:
//! attempt progress now; report completion, or report "pending" having
//! first arranged — by registering the supplied waker with the reactor —
//! that a future readiness event re-admits the task.  The contract pins
//! that arrangement down: a pending task always leaves its handle
//! registered to the very waker it was polled with, and a completed task
//! always leaves the registry without its handle.
//!
//! `ConnectionHandler` drives the connection state machine over a
//! simulated socket, looping while operations succeed immediately and
//! suspending on the first would-block, exactly as a non-blocking server
//! must.

use vstd::prelude::*;
use crate::conn::{Action, ConnectionState};
use crate::frame::{
    ends_with_terminator, response_spec, response_bytes, REQUEST_CAPACITY, RESPONSE_LEN,
};
use crate::reactor::Reactor;
use crate::sched::Waker;
use crate::sim::SimSocket;

verus! {

/// Whether a script of pending read chunks, delivered one per read onto
/// an accumulation, completes the request: every read stays within
/// capacity, and after some chunk the accumulation ends with the
/// terminator.
pub open spec fn script_completes_request(buf: Seq<u8>, chunks: Seq<Vec<u8>>) -> bool
    decreases chunks.len(),
{
    &&& chunks.len() > 0
    &&& ({
        let ext = buf + chunks[0]@;
        &&& ext.len() <= REQUEST_CAPACITY
        &&& (ends_with_terminator(ext) || script_completes_request(ext, chunks.skip(1)))
    })
}

/// Whether the script leaves the request unfinished but alive: every
/// chunk fits and none completes the request, and once they run out the
/// socket would block rather than report end-of-file.
pub open spec fn script_starves_request(buf: Seq<u8>, chunks: Seq<Vec<u8>>, eof: bool) -> bool
    decreases chunks.len(),
{
    if chunks.len() == 0 {
        !eof
    } else {
        let ext = buf + chunks[0]@;
        &&& ext.len() <= REQUEST_CAPACITY
        &&& !ends_with_terminator(ext)
        &&& script_starves_request(ext, chunks.skip(1), eof)
    }
}

/// The bytes a script of read chunks carries, in order.
pub open spec fn chunks_bytes(chunks: Seq<Vec<u8>>) -> Seq<u8>
    decreases chunks.len(),
{
    if chunks.len() == 0 {
        Seq::<u8>::empty()
    } else {
        chunks[0]@ + chunks_bytes(chunks.skip(1))
    }
}

/// Law: completing a request depends only on the bytes the peer sends,
/// never on how the reads chunk them — one byte at a time included.  Any
/// chunking of a stream that fits the buffer and ends with the terminator
/// completes the request.
pub proof fn lemma_completion_chunking_independent(buf: Seq<u8>, chunks: Seq<Vec<u8>>)
    requires
        chunks.len() > 0,
        buf.len() + chunks_bytes(chunks).len() <= REQUEST_CAPACITY,
        ends_with_terminator(buf + chunks_bytes(chunks)),
    ensures
        script_completes_request(buf, chunks),
    decreases chunks.len(),
{
    let ext = buf + chunks[0]@;
    assert(chunks_bytes(chunks) == chunks[0]@ + chunks_bytes(chunks.skip(1)));
    if chunks.len() == 1 {
        assert(chunks_bytes(chunks.skip(1)) == Seq::<u8>::empty());
        assert(buf + chunks_bytes(chunks) =~= ext);
    } else {
        assert(ext + chunks_bytes(chunks.skip(1)) =~= buf + chunks_bytes(chunks));
        if !ends_with_terminator(ext) {
            lemma_completion_chunking_independent(ext, chunks.skip(1));
        }
    }
}

/// The poll contract.  `Some` means the task produced its output and owns
/// no registration any more; `None` means it is suspended and its handle
/// is registered to `waker`, so a readiness event can re-admit it.
pub trait Future {
    type Output;

    /// The watched I/O handle belonging to the task.
    spec fn handle(&self) -> u64;

    /// True until the task is first polled (nothing registered yet).
    spec fn fresh(&self) -> bool;

    /// True once the task is over.
    spec fn complete(&self) -> bool;

    /// How far the task has come; polling never moves it backwards.
    spec fn progress(&self) -> int;

    /// The task's internal invariant.
    spec fn inv(&self) -> bool;

    /// Attempt progress now.  The scheduler polls a task only while it is
    /// incomplete, and hands it a waker that is registered for its handle
    /// unless the task was never polled before.
    fn poll(&mut self, waker: Waker, reactor: &mut Reactor) -> (r: Option<Self::Output>)
        requires
            old(self).inv(),
            !old(self).complete(),
            old(self).fresh() ==> !old(reactor)@.contains_key(old(self).handle()),
            !old(self).fresh() ==> old(reactor)@.contains_key(old(self).handle())
                && old(reactor)@[old(self).handle()] == waker,
        ensures
            final(self).inv(),
            final(self).handle() == old(self).handle(),
            final(self).progress() >= old(self).progress(),
            !final(self).fresh(),
            r is None ==> final(reactor)@ == old(reactor)@.insert(old(self).handle(), waker)
                && !final(self).complete(),
            r is Some ==> final(reactor)@ == old(reactor)@.remove(old(self).handle())
                && final(self).complete(),
    ;
}

/// A connection task: one socket, one protocol state machine, and the
/// fixed response it serves.
pub struct ConnectionHandler {
    /// The watched I/O handle this connection owns.
    pub fd: u64,
    /// The connection's end of the (simulated) socket.
    pub sock: SimSocket,
    /// Where the connection stands in the protocol.
    pub state: ConnectionState,
    /// The fixed response, built once when the task is made.
    pub response: Vec<u8>,
}

/// Bytes of the response still owed while writing; positions outside
/// `Writing` rank above (before writing starts) or at zero (after).
pub open spec fn write_remaining(s: ConnectionState) -> int {
    match s {
        ConnectionState::Start => RESPONSE_LEN + 2,
        ConnectionState::Reading { .. } => RESPONSE_LEN + 1,
        ConnectionState::Writing { sent } => RESPONSE_LEN - sent,
        _ => 0,
    }
}

impl ConnectionHandler {
    /// What of the response the peer has accepted at each position:
    /// nothing before writing starts, exactly the sent prefix while
    /// writing, everything once flushing begins.  A failed connection
    /// promises nothing about its partial output.
    pub open spec fn accepted_matches(self) -> bool {
        match self.state {
            ConnectionState::Start => self.sock.accepted@ == Seq::<u8>::empty(),
            ConnectionState::Reading { .. } => self.sock.accepted@ == Seq::<u8>::empty(),
            ConnectionState::Writing { sent } => self.sock.accepted@ == response_spec().take(
                sent as int,
            ),
            ConnectionState::Flushing => self.sock.accepted@ == response_spec(),
            ConnectionState::Done => self.sock.accepted@ == response_spec(),
            ConnectionState::Failed => true,
        }
    }

    /// What of the request the task has seen at each position: before the
    /// first read nothing was delivered; while reading, the buffer holds
    /// every delivered byte, none lost, none duplicated; from the moment
    /// writing starts, what was delivered ended with the terminator.  A
    /// failed connection promises nothing.
    pub open spec fn request_tracked(self) -> bool {
        match self.state {
            ConnectionState::Start => self.sock.delivered@ == Seq::<u8>::empty(),
            ConnectionState::Reading { buf } => buf@ == self.sock.delivered@,
            ConnectionState::Writing { .. } => ends_with_terminator(self.sock.delivered@),
            ConnectionState::Flushing => ends_with_terminator(self.sock.delivered@),
            ConnectionState::Done => ends_with_terminator(self.sock.delivered@),
            ConnectionState::Failed => true,
        }
    }

    pub open spec fn wf(self) -> bool {
        &&& self.state.wf()
        &&& self.sock.wf()
        &&& self.response@ == response_spec()
        &&& self.accepted_matches()
        &&& self.request_tracked()
    }

    /// Whether the task is still gathering its request.
    pub open spec fn reading_phase(self) -> bool {
        self.state is Start || self.state is Reading
    }

    /// Whether the socket's remaining read script completes the request
    /// from the bytes buffered so far.
    pub open spec fn script_completes(self) -> bool {
        script_completes_request(self.state.buffered(), self.sock.incoming@)
    }

    /// Whether the socket's remaining read script starves the request:
    /// no completion, no end-of-file, so the task must wait.
    pub open spec fn script_starves(self) -> bool {
        script_starves_request(
            self.state.buffered(),
            self.sock.incoming@,
            self.sock.eof_when_drained,
        )
    }

    /// A task for a freshly accepted connection.
    pub fn new(fd: u64, sock: SimSocket) -> (h: ConnectionHandler)
        requires
            sock.wf(),
            sock.accepted@ == Seq::<u8>::empty(),
            sock.delivered@ == Seq::<u8>::empty(),
        ensures
            h.wf(),
            h.fd == fd,
            h.state is Start,
            h.sock == sock,
    {
        proof {
            crate::frame::lemma_response_len();
        }
        ConnectionHandler { fd, sock, state: ConnectionState::Start, response: response_bytes() }
    }
}

/// Law: a connection that completed its exchange delivered the fixed
/// response to its peer exactly, in full, and exactly once — whatever the
/// chunking of reads and writes along the way.
pub proof fn lemma_done_means_response_delivered(h: ConnectionHandler)
    requires
        h.wf(),
        h.state is Done,
    ensures
        h.sock.accepted@ == response_spec(),
        ends_with_terminator(h.sock.delivered@),
{
}

/// Law: a connection still reading has written nothing yet; combined with
/// the reading step's contract — a zero-length read fails the connection
/// at once, touching neither socket nor buffer — a peer that disconnects
/// mid-request never receives any part of a response.
pub proof fn lemma_reading_has_written_nothing(h: ConnectionHandler)
    requires
        h.wf(),
        h.state is Reading,
    ensures
        h.sock.accepted@ == Seq::<u8>::empty(),
{
}

impl Future for ConnectionHandler {
    type Output = ();

    open spec fn handle(&self) -> u64 {
        self.fd
    }

    open spec fn fresh(&self) -> bool {
        self.state is Start
    }

    open spec fn complete(&self) -> bool {
        self.state.is_terminal()
    }

    open spec fn progress(&self) -> int {
        self.state.phase()
    }

    open spec fn inv(&self) -> bool {
        self.wf()
    }

    /// Drive the connection while its socket operations succeed
    /// immediately; suspend on the first would-block, finish on
    /// completion or failure.  The socket is fully modeled, so the
    /// outcome is pinned by the script: a completed request with a
    /// willing peer is served in full; a starved request suspends with
    /// nothing written; end-of-file or an oversized request fails the
    /// connection, and nothing else does.
    fn poll(&mut self, waker: Waker, reactor: &mut Reactor) -> (r: Option<()>)
        ensures
            old(self).reading_phase() && old(self).script_completes()
                && old(self).sock.write_limit > 0 && old(self).sock.flush_ready
                ==> r is Some && final(self).state is Done
                    && final(self).sock.accepted@ == response_spec(),
            old(self).reading_phase() && old(self).script_completes()
                && old(self).sock.write_limit == 0
                ==> r is None && final(self).state is Writing,
            old(self).reading_phase() && old(self).script_completes()
                && old(self).sock.write_limit > 0 && !old(self).sock.flush_ready
                ==> r is None && final(self).state is Flushing
                    && final(self).sock.accepted@ == response_spec(),
            old(self).reading_phase() && old(self).script_starves()
                ==> r is None && final(self).state is Reading
                    && final(self).sock.incoming@.len() == 0
                    && final(self).sock.accepted@ == Seq::<u8>::empty(),
            old(self).reading_phase() && !old(self).script_completes()
                && !old(self).script_starves()
                ==> r is Some && final(self).state is Failed
                    && final(self).sock.accepted@ == Seq::<u8>::empty(),
            old(self).state is Reading && old(self).sock.incoming@.len() == 0
                && !old(self).sock.eof_when_drained
                ==> r is None && final(self).state == old(self).state
                    && final(self).sock.incoming@ == old(self).sock.incoming@
                    && final(self).sock.delivered@ == old(self).sock.delivered@
                    && final(self).sock.accepted == old(self).sock.accepted,
            old(self).state is Start && old(self).sock.incoming@.len() == 0
                && !old(self).sock.eof_when_drained
                ==> r is None && final(self).state is Reading
                    && final(self).state.buffered() == Seq::<u8>::empty()
                    && final(self).sock.incoming@ == old(self).sock.incoming@
                    && final(self).sock.accepted == old(self).sock.accepted,
            old(self).state is Writing && old(self).sock.write_limit > 0
                && old(self).sock.flush_ready
                ==> r is Some && final(self).state is Done
                    && final(self).sock.accepted@ == response_spec(),
            old(self).state is Writing && old(self).sock.write_limit == 0
                ==> r is None && *final(self) == *old(self),
            old(self).state is Writing && old(self).sock.write_limit > 0
                && !old(self).sock.flush_ready
                ==> r is None && final(self).state is Flushing
                    && final(self).sock.accepted@ == response_spec(),
            old(self).state is Flushing && old(self).sock.flush_ready
                ==> r is Some && final(self).state is Done
                    && final(self).sock.accepted@ == response_spec(),
            old(self).state is Flushing && !old(self).sock.flush_ready
                ==> r is None && *final(self) == *old(self),
            final(self).state is Failed
                ==> old(self).reading_phase() && !old(self).script_completes()
                    && !old(self).script_starves(),
    {
        proof {
            crate::frame::lemma_response_len();
        }
        let mut a: Action;
        if self.state.at_start() {
            reactor.add(self.fd, waker);
            a = self.state.begin();
        } else {
            a = self.state.resume_action();
            proof {
                assert(reactor@ =~= old(reactor)@.insert(self.fd, waker));
            }
        }
        loop
            invariant
                self.state.wf(),
                self.sock.wf(),
                self.response@ == response_spec(),
                self.accepted_matches(),
                self.request_tracked(),
                self.fd == old(self).fd,
                self.response == old(self).response,
                self.sock.eof_when_drained == old(self).sock.eof_when_drained,
                self.sock.write_limit == old(self).sock.write_limit,
                self.sock.flush_ready == old(self).sock.flush_ready,
                self.state.phase() >= old(self).state.phase(),
                !(self.state is Start),
                reactor@ == old(reactor)@.insert(self.fd, waker),
                a == Action::Read ==> self.state is Reading,
                (a matches Action::Write(o) ==> self.state is Writing && o == self.state.sent()),
                a == Action::Flush ==> self.state is Flushing,
                !(a is Suspend),
                !(a is Finish),
                response_spec().len() == RESPONSE_LEN,
                old(self).reading_phase() && old(self).script_completes() ==> (self.state
                    is Reading ==> self.script_completes()),
                old(self).reading_phase() && old(self).script_starves() ==> self.state is Reading
                    && self.script_starves(),
                old(self).reading_phase() && !old(self).script_completes()
                    && !old(self).script_starves()
                    ==> self.state is Reading && !self.script_completes()
                        && !self.script_starves(),
                old(self).reading_phase() && old(self).sock.write_limit == 0 ==> !(self.state
                    is Flushing),
                old(self).state is Writing || old(self).state is Flushing ==> !(self.state
                    is Reading),
                old(self).state is Flushing ==> self.state is Flushing,
                old(self).state is Writing && old(self).sock.write_limit == 0 ==> *self == *old(self),
                old(self).state is Flushing && !old(self).sock.flush_ready ==> *self == *old(self),
                old(self).state is Reading && old(self).sock.incoming@.len() == 0
                    && !old(self).sock.eof_when_drained
                    ==> self.state == old(self).state
                        && self.sock.incoming@ == old(self).sock.incoming@
                        && self.sock.delivered@ == old(self).sock.delivered@
                        && self.sock.accepted == old(self).sock.accepted,
                old(self).state is Start && old(self).sock.incoming@.len() == 0
                    && !old(self).sock.eof_when_drained
                    ==> self.state is Reading
                        && self.state.buffered() == Seq::<u8>::empty()
                        && self.sock.incoming@ == old(self).sock.incoming@
                        && self.sock.accepted == old(self).sock.accepted,
            decreases self.sock.incoming@.len(), write_remaining(self.state),
        {
            let ghost top = *self;
            match a {
                Action::Read => {
                    let ev = self.sock.read_event();
                    a = self.state.on_read(ev);
                    proof {
                        if self.state is Writing {
                            assert(response_spec().take(0) =~= Seq::<u8>::empty());
                        }
                        if top.sock.incoming@.len() > 0 {
                            // one chunk was delivered; relate the script
                            // predicates before and after its consumption
                            let ext = top.state.buffered() + top.sock.incoming@[0]@;
                            let rest = top.sock.incoming@.skip(1);
                            if ext.len() <= REQUEST_CAPACITY && !ends_with_terminator(ext) {
                                assert(top.script_completes() == script_completes_request(
                                    ext,
                                    rest,
                                ));
                                assert(top.script_starves() == script_starves_request(
                                    ext,
                                    rest,
                                    top.sock.eof_when_drained,
                                ));
                            }
                            if ext.len() > REQUEST_CAPACITY || ends_with_terminator(ext) {
                                assert(!script_starves_request(
                                    top.state.buffered(),
                                    top.sock.incoming@,
                                    top.sock.eof_when_drained,
                                ));
                            }
                        } else {
                            // nothing left to read: the script can neither
                            // complete nor consume anything further
                            assert(!top.script_completes());
                            assert(top.script_starves() == !top.sock.eof_when_drained);
                        }
                    }
                    match a {
                        Action::Suspend => {
                            return None;
                        },
                        Action::Finish => {
                            reactor.remove(self.fd);
                            proof {
                                assert(old(reactor)@.insert(self.fd, waker).remove(self.fd)
                                    =~= old(reactor)@.remove(self.fd));
                            }
                            return Some(());
                        },
                        _ => {},
                    }
                },
                Action::Write(o) => {
                    let ev = self.sock.write_event(&self.response, o);
                    proof {
                        if self.sock.write_limit > 0 {
                            let n = if self.sock.write_limit <= response_spec().len() - o {
                                self.sock.write_limit as int
                            } else {
                                response_spec().len() - o
                            };
                            assert(response_spec().take(o as int) + response_spec().subrange(
                                o as int,
                                o + n,
                            ) =~= response_spec().take(o + n));
                            if o + n == RESPONSE_LEN {
                                assert(response_spec().take(RESPONSE_LEN as int)
                                    =~= response_spec());
                            }
                        }
                    }
                    a = self.state.on_write(ev);
                    match a {
                        Action::Suspend => {
                            return None;
                        },
                        Action::Finish => {
                            // the modeled socket only accepts bytes or
                            // blocks, so a write can never end the task
                            proof {
                                assert(false);
                            }
                            reactor.remove(self.fd);
                            return Some(());
                        },
                        _ => {},
                    }
                },
                Action::Flush => {
                    let ev = self.sock.flush_event();
                    a = self.state.on_flush(ev);
                    match a {
                        Action::Suspend => {
                            return None;
                        },
                        Action::Finish => {
                            reactor.remove(self.fd);
                            proof {
                                assert(old(reactor)@.insert(self.fd, waker).remove(self.fd)
                                    =~= old(reactor)@.remove(self.fd));
                            }
                            return Some(());
                        },
                        _ => {
                            proof {
                                assert(false);
                            }
                        },
                    }
                },
                Action::Suspend => {
                    proof {
                        assert(false);
                    }
                    return None;
                },
                Action::Finish => {
                    proof {
                        assert(false);
                    }
                    return Some(());
                },
            }
        }
    }
}

} // verus!
