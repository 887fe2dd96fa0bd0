//! Holds chunks back by `D` positions: a chunk goes out, unchanged and with
//! the id it arrived with, once `D - 1` later chunks have come in after it.

use vstd::prelude::*;

use crate::{Chunk, ChunkView};

verus! {

/// How many chunks have been released after `n` arrivals with delay `d`.
pub open spec fn delay_emitted(n: int, d: int) -> int
    recommends
        d >= 1,
{
    if n >= d {
        n - (d - 1)
    } else {
        0
    }
}

pub struct Delay<const S: usize, const D: usize> {
    queue: Vec<Chunk<S>>,
    fed: Ghost<Seq<ChunkView>>,
    sent: Ghost<Seq<ChunkView>>,
}

impl<const S: usize, const D: usize> Delay<S, D> {
    /// Every chunk ever accepted, in arrival order.
    pub closed spec fn fed(&self) -> Seq<ChunkView> {
        self.fed@
    }

    /// Every chunk ever released, in release order.
    pub closed spec fn sent(&self) -> Seq<ChunkView> {
        self.sent@
    }

    pub closed spec fn wf(&self) -> bool {
        &&& D as int >= 1
        &&& self.sent@.len() == delay_emitted(self.fed@.len() as int, D as int)
        &&& self.sent@ == self.fed@.take(self.sent@.len() as int)
        &&& self.queue@.len() == self.fed@.len() - self.sent@.len()
        &&& forall|i: int|
            0 <= i < self.queue@.len() ==> (#[trigger] self.queue@[i])@ == self.fed@[
                self.sent@.len() + i
            ]
    }

    pub fn new() -> (r: Self)
        requires
            D >= 1,
        ensures
            r.wf(),
            r.fed() == Seq::<ChunkView>::empty(),
            r.sent() == Seq::<ChunkView>::empty(),
    {
        let r = Delay { queue: Vec::new(), fed: Ghost(Seq::empty()), sent: Ghost(Seq::empty()) };
        proof {
            assert(r.sent@ =~= r.fed@.take(0));
        }
        r
    }

    /// Accept one chunk; release the oldest held chunk once the queue would
    /// otherwise exceed `D - 1` occupants.
    pub fn push(&mut self, chunk: Chunk<S>) -> (out: Option<Chunk<S>>)
        requires
            old(self).wf(),
        ensures
            final(self).wf(),
            final(self).fed() == old(self).fed().push(chunk@),
            if old(self).fed().len() + 1 >= D as int {
                &&& out is Some
                &&& out->Some_0@ == final(self).fed()[final(self).fed().len() - D as int]
                &&& final(self).sent() == old(self).sent().push(out->Some_0@)
            } else {
                &&& out is None
                &&& final(self).sent() == old(self).sent()
            },
    {
        let ghost prior = *self;
        proof {
            self.fed@ = prior.fed@.push(chunk@);
        }
        self.queue.push(chunk);
        if self.queue.len() >= D {
            let released = self.queue.remove(0);
            proof {
                self.sent@ = self.sent@.push(released@);
                assert(self.sent@ =~= self.fed@.take(self.sent@.len() as int));
            }
            Some(released)
        } else {
            proof {
                assert(self.sent@ =~= self.fed@.take(self.sent@.len() as int));
            }
            None
        }
    }

    /// Ordering: the k-th released chunk is the k-th accepted chunk, and the
    /// most recent `D - 1` accepted chunks (fewer, early on) are still held.
    pub proof fn lemma_ordering(&self)
        requires
            self.wf(),
        ensures
            forall|k: int| 0 <= k < self.sent().len() ==> self.sent()[k] == self.fed()[k],
            self.fed().len() - self.sent().len() == if self.fed().len() < D as int - 1 {
                self.fed().len() as int
            } else {
                D as int - 1
            },
    {
    }
}

} // verus!
