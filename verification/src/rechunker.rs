//! Repacks a stream of `Chunk<I>` into a stream of `Chunk<O>`: samples are
//! buffered first-in first-out, and every time `O` of them are available they
//! leave as one output chunk with a fresh id counted from zero.

use vstd::prelude::*;
use vstd::arithmetic::div_mod::lemma_fundamental_div_mod_converse;

use crate::{Chunk, ChunkView};

verus! {

pub struct Rechunker<const I: usize, const O: usize> {
    buffer: Vec<i64>,
    next_id: u64,
    taken: Ghost<Seq<i64>>,
    sent: Ghost<Seq<ChunkView>>,
}

/// The samples of a sequence of chunks, concatenated in emission order.
pub open spec fn chunk_concat(s: Seq<ChunkView>) -> Seq<i64>
    decreases s.len(),
{
    if s.len() == 0 {
        Seq::empty()
    } else {
        chunk_concat(s.drop_last()) + s.last().samples
    }
}

impl<const I: usize, const O: usize> Rechunker<I, O> {
    /// Every sample ever accepted, in arrival order.
    pub closed spec fn taken(&self) -> Seq<i64> {
        self.taken@
    }

    /// Every chunk ever emitted, in emission order.
    pub closed spec fn sent(&self) -> Seq<ChunkView> {
        self.sent@
    }

    /// Samples accepted but not yet emitted, in arrival order.
    pub closed spec fn pending(&self) -> Seq<i64> {
        self.buffer@
    }

    pub closed spec fn wf(&self) -> bool {
        &&& O as int >= 1
        &&& self.next_id as int == self.sent@.len()
        &&& forall|k: int|
            0 <= k < self.sent@.len() ==> (#[trigger] self.sent@[k]).id == k
        &&& forall|k: int|
            0 <= k < self.sent@.len() ==> (#[trigger] self.sent@[k]).samples
                == self.taken@.subrange(k * O as int, (k + 1) * O as int)
        &&& self.buffer@ == self.taken@.skip(self.sent@.len() * O as int)
        &&& self.buffer@.len() < O as int
        &&& self.sent@.len() * O as int + self.buffer@.len() == self.taken@.len()
    }

    pub fn new() -> (r: Self)
        requires
            O >= 1,
        ensures
            r.wf(),
            r.taken() == Seq::<i64>::empty(),
            r.sent() == Seq::<ChunkView>::empty(),
            r.pending() == Seq::<i64>::empty(),
    {
        let r = Rechunker {
            buffer: Vec::new(),
            next_id: 0,
            taken: Ghost(Seq::empty()),
            sent: Ghost(Seq::empty()),
        };
        proof {
            assert(r.buffer@ =~= r.taken@.skip(0));
        }
        r
    }

    /// Accept one input chunk; emit every full output chunk this makes
    /// available, ids counting on from where they left off.
    pub fn push(&mut self, chunk: &Chunk<I>) -> (out: Vec<Chunk<O>>)
        requires
            old(self).wf(),
            chunk.wf(),
            old(self).taken().len() + I as int <= u64::MAX as int,
        ensures
            final(self).wf(),
            final(self).taken() == old(self).taken() + chunk@.samples,
            final(self).sent() == old(self).sent() + out@.map_values(|c: Chunk<O>| c@),
            out@.len() == (old(self).pending().len() + I as nat) / O as nat,
            final(self).pending() == (old(self).pending() + chunk@.samples).skip(
                out@.len() * O as int,
            ),
            forall|k: int|
                0 <= k < out@.len() ==> (#[trigger] out@[k])@ == final(self).sent()[
                    old(self).sent().len() + k
                ],
            forall|k: int|
                0 <= k < out@.len() ==> {
                    &&& (#[trigger] out@[k])@.id == old(self).sent().len() + k
                    &&& out@[k]@.samples == (old(self).pending() + chunk@.samples).subrange(
                        k * O as int,
                        (k + 1) * O as int,
                    )
                },
    {
        let ghost prior = *self;

        // Take in the new samples.
        let mut k: usize = 0;
        while k < chunk.samples.len()
            invariant
                k <= chunk.samples@.len(),
                self.buffer@ == prior.buffer@ + chunk.samples@.take(k as int),
                self.next_id == prior.next_id,
                self.taken@ == prior.taken@,
                self.sent@ == prior.sent@,
            decreases chunk.samples@.len() - k,
        {
            self.buffer.push(chunk.samples[k]);
            k = k + 1;
        }
        proof {
            assert(chunk.samples@.take(chunk.samples@.len() as int) =~= chunk.samples@);
            self.taken@ = prior.taken@ + chunk@.samples;
            assert(self.buffer@ =~= self.taken@.skip(self.sent@.len() * O as int));
            // The emitted prefix is untouched by appending new samples.
            assert forall|k: int| 0 <= k < self.sent@.len() implies (#[trigger] self.sent@[k]).samples
                == self.taken@.subrange(k * O as int, (k + 1) * O as int) by {
                assert((k + 1) * O as int <= self.sent@.len() * O as int) by (nonlinear_arith)
                    requires
                        0 <= k + 1 <= self.sent@.len(),
                        O as int >= 1,
                ;
                assert(k * O as int >= 0) by (nonlinear_arith)
                    requires
                        k >= 0,
                        O as int >= 1,
                ;
                assert(prior.wf());
                assert(self.sent@.len() * O as int <= prior.taken@.len());
                assert((k + 1) * O as int == k * O as int + O as int) by (nonlinear_arith);
                assert(self.taken@.subrange(k * O as int, (k + 1) * O as int)
                    =~= prior.taken@.subrange(k * O as int, (k + 1) * O as int));
            }
        }

        let ghost base = *self;
        let ghost buffer_in = self.buffer@;

        // Emit full output chunks while the buffer holds at least O samples.
        let mut out: Vec<Chunk<O>> = Vec::new();
        while self.buffer.len() >= O
            invariant
                O as int >= 1,
                self.taken@ == base.taken@,
                self.taken@.len() <= u64::MAX as int,
                self.next_id as int == self.sent@.len(),
                forall|j: int|
                    0 <= j < self.sent@.len() ==> (#[trigger] self.sent@[j]).id == j,
                forall|j: int|
                    0 <= j < self.sent@.len() ==> (#[trigger] self.sent@[j]).samples
                        == self.taken@.subrange(j * O as int, (j + 1) * O as int),
                self.buffer@ == self.taken@.skip(self.sent@.len() * O as int),
                self.sent@.len() * O as int + self.buffer@.len() == self.taken@.len(),
                self.sent@ == base.sent@ + out@.map_values(|c: Chunk<O>| c@),
                base.sent@.len() + out@.len() == self.sent@.len(),
                base.sent@.len() * O as int + buffer_in.len() == self.taken@.len(),
                forall|j: int|
                    0 <= j < out@.len() ==> (#[trigger] out@[j])@ == self.sent@[
                        base.sent@.len() + j
                    ],
            decreases self.buffer@.len(),
        {
            let ghost n = self.sent@.len() as int;
            let ghost buffer_round = self.buffer@;
            let ghost round = *self;
            proof {
                // One more emission still fits the id counter.
                assert((n + 1) * O as int <= self.taken@.len()) by (nonlinear_arith)
                    requires
                        n * O as int + buffer_round.len() == self.taken@.len(),
                        buffer_round.len() >= O as int,
                ;
                assert(n + 1 <= (n + 1) * O as int) by (nonlinear_arith)
                    requires
                        O as int >= 1,
                        n >= 0,
                ;
            }

            let mut out_samples: Vec<i64> = Vec::new();
            let mut j: usize = 0;
            while j < O
                invariant
                    j <= O,
                    buffer_round.len() >= O as int,
                    out_samples@ == buffer_round.take(j as int),
                    self.buffer@ == buffer_round.skip(j as int),
                    self.taken@ == round.taken@,
                    self.sent@ == round.sent@,
                    self.next_id == round.next_id,
                decreases O - j,
            {
                let s = self.buffer.remove(0);
                proof {
                    assert(buffer_round.skip(j as int).skip(1) =~= buffer_round.skip(j + 1));
                    assert(buffer_round.take(j as int).push(buffer_round.skip(j as int)[0])
                        =~= buffer_round.take(j + 1));
                }
                out_samples.push(s);
                j = j + 1;
            }
            let c = Chunk::<O>::new(self.next_id, out_samples);
            self.next_id = self.next_id + 1;
            proof {
                assert(c@.samples =~= self.taken@.subrange(n * O as int, (n + 1) * O as int)) by {
                    assert(buffer_round == self.taken@.skip(n * O as int));
                    assert(buffer_round.take(O as int)
                        =~= self.taken@.subrange(n * O as int, n * O as int + O as int));
                    assert(n * O as int + O as int == (n + 1) * O as int) by (nonlinear_arith);
                };
                self.sent@ = self.sent@.push(c@);
                assert(self.buffer@ =~= self.taken@.skip(self.sent@.len() * O as int)) by {
                    assert(buffer_round.skip(O as int)
                        =~= self.taken@.skip(n * O as int + O as int));
                    assert(n * O as int + O as int == (n + 1) * O as int) by (nonlinear_arith);
                };
                assert((n + 1) * O as int == n * O as int + O as int) by (nonlinear_arith);
            }
            out.push(c);
            proof {
                assert(self.sent@ =~= base.sent@ + out@.map_values(|cc: Chunk<O>| cc@));
            }
        }

        proof {
            // The number of emitted chunks is the buffered total divided by O.
            let m = out@.len() as int;
            let b0 = buffer_in.len() as int;
            assert(b0 == m * O as int + self.buffer@.len()) by (nonlinear_arith)
                requires
                    (base.sent@.len() as int) * O as int + b0 == self.taken@.len(),
                    (self.sent@.len() as int) * O as int + self.buffer@.len()
                        == self.taken@.len(),
                    base.sent@.len() + m == self.sent@.len(),
            ;
            lemma_fundamental_div_mod_converse(b0, O as int, m, self.buffer@.len() as int);
            assert(buffer_in.len() == prior.buffer@.len() + I as int);

            // Restate the emitted chunks and the leftover buffer over the
            // pre-call state.
            let ns = base.sent@.len() as int;
            assert(buffer_in =~= prior.buffer@ + chunk@.samples);
            assert(buffer_in == self.taken@.skip(ns * O as int));
            assert forall|k: int| 0 <= k < out@.len() implies ((#[trigger] out@[k])@.id == ns + k
                && out@[k]@.samples == buffer_in.subrange(k * O as int, (k + 1) * O as int)) by {
                assert(out@[k]@ == self.sent@[ns + k]);
                assert(self.sent@[ns + k].id == ns + k);
                assert(self.sent@[ns + k].samples == self.taken@.subrange(
                    (ns + k) * O as int,
                    (ns + k + 1) * O as int,
                ));
                assert((ns + k) * O as int == ns * O as int + k * O as int && (ns + k + 1)
                    * O as int == ns * O as int + (k + 1) * O as int) by (nonlinear_arith);
                assert(k * O as int >= 0 && (k + 1) * O as int <= buffer_in.len())
                    by (nonlinear_arith)
                    requires
                        0 <= k < m,
                        O as int >= 1,
                        m * O as int <= buffer_in.len(),
                ;
                let a = k * O as int;
                let b = (k + 1) * O as int;
                let wa = (ns + k) * O as int;
                let wb = (ns + k + 1) * O as int;
                assert(a >= 0 && a + O as int == b && ns * O as int >= 0 && wa == ns * O as int
                    + a && wb == ns * O as int + b) by (nonlinear_arith)
                    requires
                        0 <= k,
                        0 <= ns,
                        O as int >= 1,
                        a == k * O as int,
                        b == (k + 1) * O as int,
                        wa == (ns + k) * O as int,
                        wb == (ns + k + 1) * O as int,
                ;
                assert forall|i: int| 0 <= i < b - a implies self.taken@.subrange(wa, wb)[i]
                    == #[trigger] buffer_in.subrange(a, b)[i] by {
                    assert(self.taken@.subrange(wa, wb)[i] == self.taken@[wa + i]);
                    assert(buffer_in.subrange(a, b)[i] == buffer_in[a + i]);
                    assert(buffer_in[a + i] == self.taken@.skip(ns * O as int)[a + i]);
                    assert(self.taken@.skip(ns * O as int)[a + i] == self.taken@[ns * O as int + (a
                        + i)]);
                }
                assert(self.taken@.subrange(wa, wb) =~= buffer_in.subrange(a, b));
            }
            assert((ns + m) * O as int == ns * O as int + m * O as int) by (nonlinear_arith);
            assert(self.buffer@ =~= buffer_in.skip(m * O as int));
        }
        out
    }

    /// Conservation: the emitted chunks carry, in order, exactly the longest
    /// prefix of the accepted samples whose length is a multiple of `O`.
    pub proof fn lemma_conservation(&self)
        requires
            self.wf(),
        ensures
            chunk_concat(self.sent()) == self.taken().take((self.sent().len() * O as nat) as int),
            self.sent().len() * O as nat == (self.taken().len() / O as nat) * O as nat,
    {
        Self::lemma_concat_prefix(self.taken@, self.sent@);
        lemma_fundamental_div_mod_converse(
            self.taken@.len() as int,
            O as int,
            self.sent@.len() as int,
            self.buffer@.len() as int,
        );
    }

    /// Output ids are 0, 1, 2, ... strictly increasing in emission order.
    pub proof fn lemma_id_monotonic(&self)
        requires
            self.wf(),
        ensures
            forall|k: int| 0 <= k < self.sent().len() ==> (#[trigger] self.sent()[k]).id == k,
    {
    }

    proof fn lemma_concat_prefix(taken: Seq<i64>, sent: Seq<ChunkView>)
        requires
            O as int >= 1,
            forall|k: int|
                0 <= k < sent.len() ==> (#[trigger] sent[k]).samples == taken.subrange(
                    k * O as int,
                    (k + 1) * O as int,
                ),
            sent.len() * O as int <= taken.len(),
        ensures
            chunk_concat(sent) == taken.take((sent.len() * O as int) as int),
        decreases sent.len(),
    {
        if sent.len() == 0 {
            assert(chunk_concat(sent) =~= taken.take(0));
        } else {
            let n = sent.len() as int;
            assert((n - 1) * O as int <= n * O as int && n * O as int == (n - 1) * O as int
                + O as int) by (nonlinear_arith)
                requires
                    O as int >= 1,
                    n >= 1,
            ;
            Self::lemma_concat_prefix(taken, sent.drop_last());
            assert(chunk_concat(sent) == taken.take((n - 1) * O as int) + taken.subrange(
                (n - 1) * O as int,
                n * O as int,
            ));
            assert(taken.take((n - 1) * O as int) + taken.subrange((n - 1) * O as int, n * O as int)
                =~= taken.take(n * O as int));
        }
    }
}

} // verus!
