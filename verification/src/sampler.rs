//! Turns raw signed 16-bit little-endian PCM into fixed-point sample chunks:
//! each 16-bit sample is scaled by `preamp / 32767`, and every `S` samples
//! leave as one chunk with a strictly monotonic id counted from zero.

use vstd::prelude::*;

use crate::fixed::{lemma_mul_div_magnitude, mul_div, scale_value};
use crate::{Chunk, ChunkView, SAMPLE_LIMIT};

verus! {

pub const SAMPLE_RATE: usize = 16000;

/// Largest preamp magnitude accepted: one thousand times unit gain,
/// either sign.
pub const PREAMP_LIMIT: i64 = 1_000_000_000;

/// The signed value carried by two little-endian bytes.
pub open spec fn pcm16_of(b0: u8, b1: u8) -> int {
    let u = b0 as int + 256 * b1 as int;
    if u >= 32768 {
        u - 65536
    } else {
        u
    }
}

/// A 16-bit PCM sample scaled into fixed point by `preamp / 32767`.
pub open spec fn scaled_sample(s: int, preamp: int) -> int {
    mul_div(s, preamp, 32767)
}

/// Decode one signed 16-bit little-endian sample.
pub fn decode_i16_le(b0: u8, b1: u8) -> (s: i16)
    ensures
        s as int == pcm16_of(b0, b1),
{
    let u: u32 = b0 as u32 + 256 * (b1 as u32);
    if u >= 32768 {
        ((u as i32) - 65536) as i16
    } else {
        u as i16
    }
}

pub struct Sampler<const S: usize> {
    next_id: u64,
    preamp: i64,
    sent: Ghost<Seq<ChunkView>>,
}

impl<const S: usize> Sampler<S> {
    /// Every chunk ever produced, in production order.
    pub closed spec fn sent(&self) -> Seq<ChunkView> {
        self.sent@
    }

    pub closed spec fn preamp_spec(&self) -> int {
        self.preamp as int
    }

    pub closed spec fn wf(&self) -> bool {
        &&& -PREAMP_LIMIT <= self.preamp <= PREAMP_LIMIT
        &&& self.next_id as int == self.sent@.len()
        &&& forall|k: int| 0 <= k < self.sent@.len() ==> (#[trigger] self.sent@[k]).id == k
    }

    pub fn new(preamp: i64) -> (r: Self)
        requires
            -PREAMP_LIMIT <= preamp <= PREAMP_LIMIT,
        ensures
            r.wf(),
            r.preamp_spec() == preamp,
            r.sent() == Seq::<ChunkView>::empty(),
    {
        Sampler { next_id: 0, preamp, sent: Ghost(Seq::empty()) }
    }

    /// Scale `S` decoded PCM samples and wrap them as the next chunk.
    pub fn make_chunk(&mut self, pcm: &Vec<i16>) -> (c: Chunk<S>)
        requires
            old(self).wf(),
            pcm@.len() == S as int,
            old(self).sent().len() < u64::MAX as int,
        ensures
            final(self).wf(),
            final(self).preamp_spec() == old(self).preamp_spec(),
            final(self).sent() == old(self).sent().push(c@),
            c.wf(),
            c@.bounded(),
            c@.id == old(self).sent().len(),
            forall|k: int|
                0 <= k < S as int ==> c@.samples[k] == scaled_sample(
                    pcm@[k] as int,
                    old(self).preamp_spec(),
                ),
    {
        let mut samples: Vec<i64> = Vec::new();
        let mut k: usize = 0;
        while k < pcm.len()
            invariant
                k <= pcm@.len(),
                -PREAMP_LIMIT <= self.preamp <= PREAMP_LIMIT,
                samples@.len() == k as int,
                forall|j: int|
                    0 <= j < k as int ==> #[trigger] samples@[j] == scaled_sample(
                        pcm@[j] as int,
                        self.preamp as int,
                    ),
                forall|j: int|
                    0 <= j < k as int ==> -SAMPLE_LIMIT <= #[trigger] samples@[j] <= SAMPLE_LIMIT,
            decreases pcm@.len() - k,
        {
            let s = pcm[k];
            proof {
                lemma_mul_div_magnitude(s as int, self.preamp as int, 32767, 32768, PREAMP_LIMIT as int);
                assert((32768 * PREAMP_LIMIT as int) / 32767 <= SAMPLE_LIMIT);
            }
            let v = scale_value(s as i64, self.preamp, 32767);
            samples.push(v);
            k = k + 1;
        }
        let c = Chunk::<S>::new(self.next_id, samples);
        self.next_id = self.next_id + 1;
        proof {
            self.sent@ = self.sent@.push(c@);
        }
        c
    }
}

} // verus!
