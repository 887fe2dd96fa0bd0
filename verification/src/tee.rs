//! Fans a chunk stream out to `N` identical downstream streams: each input
//! is handed to every branch, by value, in branch order.

use vstd::prelude::*;

use crate::{Chunk, ChunkView};

verus! {

pub struct Tee<const S: usize, const N: usize> {
    fed: Ghost<Seq<ChunkView>>,
    branches: Ghost<Seq<Seq<ChunkView>>>,
}

impl<const S: usize, const N: usize> Tee<S, N> {
    /// Every chunk ever accepted, in arrival order.
    pub closed spec fn fed(&self) -> Seq<ChunkView> {
        self.fed@
    }

    /// What branch `i` has been handed so far, in order.
    pub closed spec fn branch(&self, i: int) -> Seq<ChunkView> {
        self.branches@[i]
    }

    pub closed spec fn wf(&self) -> bool {
        &&& N as int >= 1
        &&& self.branches@.len() == N as int
        &&& forall|i: int| 0 <= i < N as int ==> #[trigger] self.branches@[i] == self.fed@
    }

    pub fn new() -> (r: Self)
        requires
            N >= 1,
        ensures
            r.wf(),
            r.fed() == Seq::<ChunkView>::empty(),
    {
        Tee {
            fed: Ghost(Seq::empty()),
            branches: Ghost(Seq::new(N as nat, |i: int| Seq::empty())),
        }
    }

    /// Hand one chunk to every branch: the returned vector holds, in branch
    /// order, the copy each branch receives.
    pub fn push(&mut self, chunk: &Chunk<S>) -> (out: Vec<Chunk<S>>)
        requires
            old(self).wf(),
        ensures
            final(self).wf(),
            out@.len() == N as int,
            forall|i: int| 0 <= i < N as int ==> (#[trigger] out@[i])@ == chunk@,
            final(self).fed() == old(self).fed().push(chunk@),
            forall|i: int|
                0 <= i < N as int ==> #[trigger] final(self).branch(i) == old(self).branch(i).push(
                    (out@[i])@,
                ),
    {
        let mut out: Vec<Chunk<S>> = Vec::new();
        let mut i: usize = 0;
        while i < N
            invariant
                i <= N,
                out@.len() == i as int,
                forall|j: int| 0 <= j < i as int ==> (#[trigger] out@[j])@ == chunk@,
            decreases N - i,
        {
            out.push(chunk.duplicate());
            i = i + 1;
        }
        proof {
            self.fed@ = self.fed@.push(chunk@);
            self.branches@ = Seq::new(N as nat, |i: int| old(self).branches@[i].push(chunk@));
        }
        out
    }

    /// Fidelity: every branch has received exactly the input sequence, in
    /// the same order.
    pub proof fn lemma_fidelity(&self)
        requires
            self.wf(),
        ensures
            forall|i: int| 0 <= i < N as int ==> #[trigger] self.branch(i) == self.fed(),
    {
    }
}

} // verus!
