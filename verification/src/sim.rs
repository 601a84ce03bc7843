//! A scripted socket: a deterministic stand-in for one end of a
//! connection, used to drive tasks entirely in memory.
//!
//! Reads deliver pre-arranged chunks one per call; once they run out the
//! socket either reports end-of-file (the peer closed) or would block.
//! Writes accept at most a fixed number of bytes per call, recording
//! everything the peer accepted, in order.

use vstd::prelude::*;
use std::collections::VecDeque;
use crate::conn::{FlushEvent, ReadEvent, WriteEvent};

verus! {

/// One end of a simulated connection.
pub struct SimSocket {
    /// Chunks the peer will send, in order; a read delivers exactly one.
    pub incoming: VecDeque<Vec<u8>>,
    /// Once `incoming` is drained: end-of-file if true (the peer closed its
    /// end), otherwise further reads would block.
    pub eof_when_drained: bool,
    /// Every byte the reads have delivered so far, in order.
    pub delivered: Vec<u8>,
    /// Output bytes the peer has accepted so far, in order.
    pub accepted: Vec<u8>,
    /// The most bytes one write call accepts; zero makes writes block.
    pub write_limit: usize,
    /// Whether a flush succeeds now (otherwise it would block).
    pub flush_ready: bool,
}

impl SimSocket {
    /// Every pending chunk carries at least one byte, as a successful
    /// non-blocking read would.
    pub open spec fn wf(self) -> bool {
        forall|i: int|
            0 <= i < self.incoming@.len() ==> #[trigger] self.incoming@[i]@.len() > 0
    }

    /// One non-blocking read: deliver the next chunk whole, or report why
    /// nothing came.
    pub fn read_event(&mut self) -> (ev: ReadEvent)
        requires
            old(self).wf(),
        ensures
            final(self).wf(),
            final(self).eof_when_drained == old(self).eof_when_drained,
            final(self).accepted == old(self).accepted,
            final(self).write_limit == old(self).write_limit,
            final(self).flush_ready == old(self).flush_ready,
            old(self).incoming@.len() > 0 ==> {
                &&& ev == ReadEvent::Data(old(self).incoming@[0])
                &&& final(self).incoming@ == old(self).incoming@.skip(1)
                &&& final(self).delivered@ == old(self).delivered@ + old(self).incoming@[0]@
            },
            old(self).incoming@.len() == 0 ==> {
                &&& final(self).incoming@ == old(self).incoming@
                &&& final(self).delivered@ == old(self).delivered@
                &&& ev == (if old(self).eof_when_drained {
                    ReadEvent::Eof
                } else {
                    ReadEvent::WouldBlock
                })
            },
    {
        match self.incoming.pop_front() {
            Some(d) => {
                proof {
                    assert(old(self).incoming@.subrange(1, old(self).incoming@.len() as int)
                        =~= old(self).incoming@.skip(1));
                }
                let n = d.len();
                let mut i: usize = 0;
                while i < n
                    invariant
                        i <= n,
                        n == d@.len(),
                        d@ == old(self).incoming@[0]@,
                        self.incoming@ == old(self).incoming@.skip(1),
                        self.eof_when_drained == old(self).eof_when_drained,
                        self.accepted == old(self).accepted,
                        self.write_limit == old(self).write_limit,
                        self.flush_ready == old(self).flush_ready,
                        self.wf(),
                        self.delivered@ == old(self).delivered@ + d@.subrange(0, i as int),
                    decreases n - i,
                {
                    let b = d[i];
                    self.delivered.push(b);
                    proof {
                        assert(old(self).delivered@ + d@.subrange(0, i + 1)
                            =~= (old(self).delivered@ + d@.subrange(0, i as int)).push(d@[i as int]));
                    }
                    i = i + 1;
                }
                proof {
                    assert(d@.subrange(0, n as int) =~= d@);
                }
                ReadEvent::Data(d)
            },
            None => {
                if self.eof_when_drained {
                    ReadEvent::Eof
                } else {
                    ReadEvent::WouldBlock
                }
            },
        }
    }

    /// One non-blocking write of `data[from..]`: the peer accepts up to
    /// `write_limit` of the offered bytes, always at least one when the
    /// limit is positive.
    pub fn write_event(&mut self, data: &Vec<u8>, from: usize) -> (ev: WriteEvent)
        requires
            old(self).wf(),
            from < data@.len(),
        ensures
            final(self).wf(),
            final(self).incoming == old(self).incoming,
            final(self).eof_when_drained == old(self).eof_when_drained,
            final(self).delivered == old(self).delivered,
            final(self).write_limit == old(self).write_limit,
            final(self).flush_ready == old(self).flush_ready,
            old(self).write_limit == 0 ==> ev is WouldBlock && final(self).accepted == old(
                self,
            ).accepted,
            old(self).write_limit > 0 ==> ({
                let n = if old(self).write_limit <= data@.len() - from {
                    old(self).write_limit as int
                } else {
                    data@.len() - from
                };
                &&& ev == WriteEvent::Wrote(n as usize)
                &&& final(self).accepted@ == old(self).accepted@ + data@.subrange(
                    from as int,
                    from + n,
                )
            }),
    {
        if self.write_limit == 0 {
            return WriteEvent::WouldBlock;
        }
        let remaining = data.len() - from;
        let n = if self.write_limit <= remaining {
            self.write_limit
        } else {
            remaining
        };
        let mut i: usize = 0;
        while i < n
            invariant
                i <= n,
                from + n <= data@.len(),
                data@.len() <= usize::MAX,
                self.wf(),
                self.incoming == old(self).incoming,
                self.eof_when_drained == old(self).eof_when_drained,
                self.delivered == old(self).delivered,
                self.write_limit == old(self).write_limit,
                self.flush_ready == old(self).flush_ready,
                self.accepted@ == old(self).accepted@ + data@.subrange(
                    from as int,
                    from + i,
                ),
            decreases n - i,
        {
            let b = data[from + i];
            self.accepted.push(b);
            proof {
                assert(old(self).accepted@ + data@.subrange(from as int, from + i + 1)
                    =~= (old(self).accepted@ + data@.subrange(from as int, from + i as int)).push(
                    data@[from + i],
                ));
            }
            i = i + 1;
        }
        WriteEvent::Wrote(n)
    }

    /// One flush attempt.
    pub fn flush_event(&self) -> (ev: FlushEvent)
        ensures
            ev == (if self.flush_ready {
                FlushEvent::Flushed
            } else {
                FlushEvent::WouldBlock
            }),
    {
        if self.flush_ready {
            FlushEvent::Flushed
        } else {
            FlushEvent::WouldBlock
        }
    }
}

} // verus!
