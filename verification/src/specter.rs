//! Mel-spectrogram preparation: a sliding history of the last three chunks
//! is combined into one windowed frame per step — the middle chunk plus
//! weighted, Hamming-windowed overlaps from its neighbours — and the raw
//! model output of a step is rebiased into five 32-value frames.

use vstd::prelude::*;

use crate::fixed::{lemma_mul_div_magnitude, mul_div, scale_value};
use crate::ring::Ring;
use crate::{Chunk, ChunkView, FP_ONE, SAMPLE_LIMIT};

verus! {

pub const SPECTOGRAM_SAMPLES: usize = 1280;

/// Half of a spectrogram chunk: the overlap reaches this far.
pub const HALF_WINDOW: usize = 640;

/// Values per mel-spectrogram frame.
pub const MEL_BINS: usize = 32;

/// Frames per model output batch.
pub const MEL_FRAMES: usize = 5;

/// One mel-spectrogram frame: 32 fixed-point values.
pub struct Melspectogram {
    vals: Vec<i64>,
}

impl View for Melspectogram {
    type V = Seq<i64>;

    closed spec fn view(&self) -> Seq<i64> {
        self.vals@
    }
}

impl Melspectogram {
    pub open spec fn wf(&self) -> bool {
        self@.len() == MEL_BINS as int
    }

    pub fn new(vals: Vec<i64>) -> (r: Self)
        requires
            vals@.len() == MEL_BINS as int,
        ensures
            r@ == vals@,
            r.wf(),
    {
        Melspectogram { vals }
    }

    pub fn get(&self, i: usize) -> (v: i64)
        requires
            i < self@.len(),
        ensures
            v == self@[i as int],
    {
        self.vals[i]
    }

    pub fn values(&self) -> (r: &Vec<i64>)
        ensures
            r@ == self@,
    {
        &self.vals
    }
}

/// The value at position `i` of the windowed frame built from the history
/// `(prev, cur, next)` under the window coefficients `w`: the first half
/// takes a 0.32-weighted overlap from the tail of `prev`, the second half a
/// 0.25-weighted overlap, through the reversed window, from the head of
/// `next`. The asymmetric weights and the reversed index on the trailing
/// side are deliberate fixed traits of this format, not a textbook
/// overlap-add; they must not be "corrected".
pub open spec fn windowed_at(
    prev: Seq<i64>,
    cur: Seq<i64>,
    next: Seq<i64>,
    w: Seq<i64>,
    i: int,
) -> int
    recommends
        0 <= i < SPECTOGRAM_SAMPLES as int,
{
    if i < HALF_WINDOW as int {
        cur[i] as int + mul_div(
            prev[i + HALF_WINDOW as int] as int,
            32 * w[i] as int,
            100 * FP_ONE as int,
        )
    } else {
        cur[i] as int + mul_div(
            next[i - HALF_WINDOW as int] as int,
            25 * w[SPECTOGRAM_SAMPLES as int - i - 1] as int,
            100 * FP_ONE as int,
        )
    }
}

/// One raw model output value rebiased for the embedding model: a tenth of
/// it, shifted up by two.
pub open spec fn mel_value(x: int) -> int {
    mul_div(x, 1, 10) + 2 * FP_ONE as int
}

pub struct Specter {
    window: Vec<i64>,
    history: Ring<Chunk<SPECTOGRAM_SAMPLES>>,
    received: Ghost<int>,
}

impl Specter {
    /// The Hamming window coefficients the stage was built with.
    pub closed spec fn window_spec(&self) -> Seq<i64> {
        self.window@
    }

    /// How many chunks have been accepted so far.
    pub closed spec fn received(&self) -> int {
        self.received@
    }

    /// The chunks currently held, oldest first.
    pub closed spec fn hist(&self) -> Seq<ChunkView> {
        self.history@.map_values(|c: Chunk<SPECTOGRAM_SAMPLES>| c@)
    }

    pub closed spec fn wf(&self) -> bool {
        &&& self.window@.len() == SPECTOGRAM_SAMPLES as int
        &&& forall|i: int| 0 <= i < self.window@.len() ==> 0 <= #[trigger] self.window@[i] <= FP_ONE
        &&& self.history.wf()
        &&& self.history.capacity() == 3
        &&& self.received@ >= 0
        &&& self.history@.len() == if self.received@ < 3 {
            self.received@
        } else {
            3
        }
        &&& forall|k: int|
            0 <= k < self.history@.len() ==> (#[trigger] self.history@[k])@.wf(
                SPECTOGRAM_SAMPLES as int,
            ) && self.history@[k]@.bounded()
    }

    /// Build the stage around precomputed window coefficients in `[0, 1]`.
    pub fn new(window: Vec<i64>) -> (r: Self)
        requires
            window@.len() == SPECTOGRAM_SAMPLES as int,
            forall|i: int| 0 <= i < window@.len() ==> 0 <= #[trigger] window@[i] <= FP_ONE,
        ensures
            r.wf(),
            r.received() == 0,
            r.window_spec() == window@,
    {
        Specter { window, history: Ring::new(3), received: Ghost(0) }
    }

    /// Accept one chunk; once three are held, emit the windowed frame for
    /// the middle one. No output leaves before the third input: the history
    /// must be full, so the first two chunks only accumulate.
    pub fn push(&mut self, chunk: Chunk<SPECTOGRAM_SAMPLES>) -> (out: Option<Vec<i64>>)
        requires
            old(self).wf(),
            chunk.wf(),
            chunk@.bounded(),
        ensures
            final(self).wf(),
            final(self).received() == old(self).received() + 1,
            final(self).window_spec() == old(self).window_spec(),
            final(self).hist() == if old(self).received() < 3 {
                old(self).hist().push(chunk@)
            } else {
                old(self).hist().skip(1).push(chunk@)
            },
            out is Some <==> final(self).received() >= 3,
            out is Some ==> {
                &&& out->Some_0@.len() == SPECTOGRAM_SAMPLES as int
                &&& forall|i: int|
                    0 <= i < SPECTOGRAM_SAMPLES as int ==> #[trigger] out->Some_0@[i] as int
                        == windowed_at(
                        final(self).hist()[0].samples,
                        final(self).hist()[1].samples,
                        final(self).hist()[2].samples,
                        final(self).window_spec(),
                        i,
                    )
            },
    {
        self.history.push(chunk);
        proof {
            self.received@ = self.received@ + 1;
            assert(self.hist() =~= if old(self).received() < 3 {
                old(self).hist().push(chunk@)
            } else {
                old(self).hist().skip(1).push(chunk@)
            });
        }
        if !self.history.is_full() {
            return None;
        }

        let prev = self.history.get(0);
        let cur = self.history.get(1);
        let next = self.history.get(2);

        let mut out: Vec<i64> = Vec::new();
        let mut i: usize = 0;
        while i < SPECTOGRAM_SAMPLES
            invariant
                i <= SPECTOGRAM_SAMPLES,
                out@.len() == i as int,
                self.wf(),
                self.history@.len() == 3,
                *prev == self.history@[0],
                *cur == self.history@[1],
                *next == self.history@[2],
                forall|j: int|
                    0 <= j < i as int ==> #[trigger] out@[j] as int == windowed_at(
                        prev@.samples,
                        cur@.samples,
                        next@.samples,
                        self.window@,
                        j,
                    ),
            decreases SPECTOGRAM_SAMPLES - i,
        {
            let contribution: i64 = if i < HALF_WINDOW {
                let num = 32 * self.window[i];
                proof {
                    lemma_mul_div_magnitude(
                        prev.samples@[i + HALF_WINDOW as int] as int,
                        num as int,
                        100 * FP_ONE as int,
                        SAMPLE_LIMIT as int,
                        32 * FP_ONE as int,
                        );
                }
                scale_value(prev.samples[i + HALF_WINDOW], num, 100 * FP_ONE)
            } else {
                let num = 25 * self.window[SPECTOGRAM_SAMPLES - i - 1];
                proof {
                    lemma_mul_div_magnitude(
                        next.samples@[i - HALF_WINDOW as int] as int,
                        num as int,
                        100 * FP_ONE as int,
                        SAMPLE_LIMIT as int,
                        32 * FP_ONE as int,
                        );
                }
                scale_value(next.samples[i - HALF_WINDOW], num, 100 * FP_ONE)
            };
            let s = cur.samples[i] + contribution;
            out.push(s);
            i = i + 1;
        }
        Some(out)
    }
}

/// Split a raw 160-value model output into five mel frames, each value
/// rebiased by [`mel_value`].
pub fn mel_post(raw: &Vec<i64>) -> (frames: Vec<Melspectogram>)
    requires
        raw@.len() == (MEL_FRAMES * MEL_BINS) as int,
    ensures
        frames@.len() == MEL_FRAMES as int,
        forall|f: int, j: int|
            0 <= f < MEL_FRAMES as int && 0 <= j < MEL_BINS as int ==> (#[trigger] frames@[f]@[j])
                as int == mel_value(raw@[f * MEL_BINS as int + j] as int),
        forall|f: int| 0 <= f < MEL_FRAMES as int ==> (#[trigger] frames@[f]).wf(),
{
    let mut frames: Vec<Melspectogram> = Vec::new();
    let mut f: usize = 0;
    while f < MEL_FRAMES
        invariant
            f <= MEL_FRAMES,
            raw@.len() == (MEL_FRAMES * MEL_BINS) as int,
            frames@.len() == f as int,
            forall|g: int, j: int|
                0 <= g < f as int && 0 <= j < MEL_BINS as int ==> (#[trigger] frames@[g]@[j]) as int
                    == mel_value(raw@[g * MEL_BINS as int + j] as int),
            forall|g: int| 0 <= g < f as int ==> (#[trigger] frames@[g]).wf(),
        decreases MEL_FRAMES - f,
    {
        let mut vals: Vec<i64> = Vec::new();
        let mut j: usize = 0;
        while j < MEL_BINS
            invariant
                j <= MEL_BINS,
                f < MEL_FRAMES,
                raw@.len() == (MEL_FRAMES * MEL_BINS) as int,
                vals@.len() == j as int,
                forall|k: int|
                    0 <= k < j as int ==> (#[trigger] vals@[k]) as int == mel_value(
                        raw@[f as int * MEL_BINS as int + k] as int,
                    ),
            decreases MEL_BINS - j,
        {
            proof {
                lemma_mul_div_magnitude(
                    raw@[f as int * MEL_BINS as int + j as int] as int,
                    1,
                    10,
                    i64::MAX as int + 1,
                    1,
                );
            }
            let tenth = scale_value(raw[f * MEL_BINS + j], 1, 10);
            vals.push(tenth + 2 * FP_ONE);
            j = j + 1;
        }
        frames.push(Melspectogram::new(vals));
        f = f + 1;
    }
    frames
}

} // verus!
