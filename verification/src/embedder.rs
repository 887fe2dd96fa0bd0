//! Aggregates mel-spectrogram frames: a rolling history of the most recent
//! 76 frames is kept, and once it is full every incoming batch yields the
//! flattened history, oldest first, as the embedding model's next input.

use vstd::prelude::*;

use crate::ring::{lemma_recent_push, recent, Ring};
use crate::specter::{Melspectogram, MEL_BINS};

verus! {

pub const NUM_SPECTOGRAMS: usize = 76;

/// Values per embedding vector.
pub const EMBEDDING_LEN: usize = 96;

/// One embedding: 96 fixed-point values.
pub struct Embedding {
    vals: Vec<i64>,
}

impl View for Embedding {
    type V = Seq<i64>;

    closed spec fn view(&self) -> Seq<i64> {
        self.vals@
    }
}

impl Embedding {
    pub open spec fn wf(&self) -> bool {
        self@.len() == EMBEDDING_LEN as int
    }

    pub fn new(vals: Vec<i64>) -> (r: Self)
        requires
            vals@.len() == EMBEDDING_LEN as int,
        ensures
            r@ == vals@,
            r.wf(),
    {
        Embedding { vals }
    }

    pub fn get(&self, i: usize) -> (v: i64)
        requires
            i < self@.len(),
        ensures
            v == self@[i as int],
    {
        self.vals[i]
    }

    pub fn values(&self) -> (r: &Vec<i64>)
        ensures
            r@ == self@,
    {
        &self.vals
    }
}

pub struct Embedder {
    history: Ring<Melspectogram>,
    seen: Ghost<int>,
}

impl Embedder {
    /// How many mel frames have entered the history so far.
    pub closed spec fn seen(&self) -> int {
        self.seen@
    }

    /// The frames currently held, oldest first.
    pub closed spec fn hist(&self) -> Seq<Seq<i64>> {
        self.history@.map_values(|m: Melspectogram| m@)
    }

    pub closed spec fn wf(&self) -> bool {
        &&& self.history.wf()
        &&& self.history.capacity() == NUM_SPECTOGRAMS as nat
        &&& self.seen@ >= 0
        &&& self.history@.len() == if self.seen@ < NUM_SPECTOGRAMS as int {
            self.seen@
        } else {
            NUM_SPECTOGRAMS as int
        }
        &&& forall|k: int| 0 <= k < self.history@.len() ==> (#[trigger] self.history@[k]).wf()
    }

    pub fn new() -> (r: Self)
        ensures
            r.wf(),
            r.seen() == 0,
    {
        Embedder { history: Ring::new(NUM_SPECTOGRAMS), seen: Ghost(0) }
    }

    /// Accept one batch of frames in order; once the history holds its 76th
    /// frame, emit the flattened window, oldest frame first. No output
    /// leaves before the 76th frame has entered.
    pub fn push(&mut self, frames: Vec<Melspectogram>) -> (out: Option<Vec<i64>>)
        requires
            old(self).wf(),
            forall|k: int| 0 <= k < frames@.len() ==> (#[trigger] frames@[k]).wf(),
        ensures
            final(self).wf(),
            final(self).seen() == old(self).seen() + frames@.len(),
            final(self).hist() == recent(
                old(self).hist() + frames@.map_values(|m: Melspectogram| m@),
                NUM_SPECTOGRAMS as int,
            ),
            out is Some <==> final(self).seen() >= NUM_SPECTOGRAMS as int,
            out is Some ==> {
                &&& out->Some_0@.len() == (NUM_SPECTOGRAMS * MEL_BINS) as int
                &&& forall|i: int, j: int|
                    0 <= i < NUM_SPECTOGRAMS as int && 0 <= j < MEL_BINS as int
                        ==> #[trigger] out->Some_0@[i * MEL_BINS as int + j]
                        == final(self).hist()[i][j]
            },
    {
        let n = frames.len();
        let mut k: usize = 0;
        proof {
            assert(frames@.take(0).map_values(|m: Melspectogram| m@) =~= Seq::<Seq<i64>>::empty());
            assert(old(self).hist() + frames@.take(0).map_values(|m: Melspectogram| m@)
                =~= old(self).hist());
        }
        while k < n
            invariant
                k <= n,
                n == frames@.len(),
                self.wf(),
                self.seen@ == old(self).seen() + k as int,
                self.hist() == recent(
                    old(self).hist() + frames@.take(k as int).map_values(|m: Melspectogram| m@),
                    NUM_SPECTOGRAMS as int,
                ),
                forall|j: int| 0 <= j < frames@.len() ==> (#[trigger] frames@[j]).wf(),
            decreases n - k,
        {
            let ghost prev_hist = self.hist();
            let ghost prev_all = old(self).hist() + frames@.take(k as int).map_values(
                |m: Melspectogram| m@,
            );
            let ghost was_full = self.history@.len() == NUM_SPECTOGRAMS as int;
            let f = move_frame(&frames, k);
            self.history.push(f);
            proof {
                self.seen@ = self.seen@ + 1;
                lemma_recent_push(prev_all, frames@[k as int]@, NUM_SPECTOGRAMS as int);
                assert(prev_all.push(frames@[k as int]@) =~= old(self).hist() + frames@.take(
                    k as int + 1,
                ).map_values(|m: Melspectogram| m@));
                if was_full {
                    assert(self.hist() =~= prev_hist.skip(1).push(frames@[k as int]@));
                } else {
                    assert(self.hist() =~= prev_hist.push(frames@[k as int]@));
                }
            }
            k = k + 1;
        }
        proof {
            assert(frames@.take(n as int).map_values(|m: Melspectogram| m@) =~= frames@.map_values(
                |m: Melspectogram| m@,
            ));
        }

        if !self.history.is_full() {
            return None;
        }

        let mut out: Vec<i64> = Vec::new();
        let mut i: usize = 0;
        while i < NUM_SPECTOGRAMS
            invariant
                i <= NUM_SPECTOGRAMS,
                self.wf(),
                self.history@.len() == NUM_SPECTOGRAMS as int,
                out@.len() == i as int * MEL_BINS as int,
                forall|g: int, j: int|
                    0 <= g < i as int && 0 <= j < MEL_BINS as int ==> #[trigger] out@[g
                        * MEL_BINS as int + j] == self.hist()[g][j],
            decreases NUM_SPECTOGRAMS - i,
        {
            let frame = self.history.get(i);
            let mut j: usize = 0;
            while j < MEL_BINS
                invariant
                    j <= MEL_BINS,
                    i < NUM_SPECTOGRAMS,
                    self.wf(),
                    self.history@.len() == NUM_SPECTOGRAMS as int,
                    *frame == self.history@[i as int],
                    frame.wf(),
                    out@.len() == i as int * MEL_BINS as int + j as int,
                    forall|g: int, jj: int|
                        0 <= g < i as int && 0 <= jj < MEL_BINS as int ==> #[trigger] out@[g
                            * MEL_BINS as int + jj] == self.hist()[g][jj],
                    forall|jj: int|
                        0 <= jj < j as int ==> #[trigger] out@[i as int * MEL_BINS as int + jj]
                            == self.hist()[i as int][jj],
                decreases MEL_BINS - j,
            {
                out.push(frame.get(j));
                j = j + 1;
            }
            i = i + 1;
        }
        Some(out)
    }
}

/// Copy the frame at `k` out of a batch.
fn move_frame(frames: &Vec<Melspectogram>, k: usize) -> (f: Melspectogram)
    requires
        k < frames@.len(),
        frames@[k as int].wf(),
    ensures
        f@ == frames@[k as int]@,
        f.wf(),
{
    let src = frames[k].values();
    let mut vals: Vec<i64> = Vec::new();
    let mut j: usize = 0;
    while j < src.len()
        invariant
            j <= src@.len(),
            vals@ =~= src@.take(j as int),
        decreases src@.len() - j,
    {
        vals.push(src[j]);
        j = j + 1;
    }
    proof {
        assert(vals@ =~= src@);
    }
    Melspectogram::new(vals)
}

} // verus!
