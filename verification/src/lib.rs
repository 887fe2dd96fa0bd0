//! Core logic of a streaming wake-word detection pipeline.
//!
//! Audio flows through a chain of stages: a sampler decodes raw PCM into
//! fixed-size chunks, a tee fans the chunk stream out, rechunkers repack
//! chunks into new sizes, a delay stage holds chunks back, a spectrogram
//! stage windows overlapping chunks, sliding histories aggregate frames and
//! embeddings for the classifier models, and a matcher state machine turns
//! activation scores into actions.
//!
//! Every quantity that such a pipeline would carry as a 32-bit float is
//! represented here as a fixed-point integer with [`FP_ONE`] as the unit, so
//! that every transformation is exact and provable. Thread scheduling, queue
//! plumbing and model inference live outside this crate; the stages here are
//! the synchronous cores that those workers drive.

use vstd::prelude::*;

pub mod fixed;
pub mod ring;
pub mod rechunker;
pub mod delay;
pub mod tee;
pub mod sampler;
pub mod vad;
pub mod specter;
pub mod embedder;
pub mod runner;
pub mod config;
pub mod action;
pub mod matcher;
pub mod recorder;

pub use action::Action;
pub use config::{Config, MatchConfig, MatchStageConfig, ModelConfig, UtteranceConfig};
pub use delay::Delay;
pub use embedder::{Embedder, Embedding, NUM_SPECTOGRAMS};
pub use matcher::Matcher;
pub use rechunker::Rechunker;
pub use recorder::Recorder;
pub use runner::{NamedModel, Runner, NUM_EMBEDDINGS};
pub use sampler::Sampler;
pub use specter::{Melspectogram, Specter, SPECTOGRAM_SAMPLES};
pub use tee::Tee;
pub use vad::VAD;

verus! {

/// Fixed-point representation of 1.0: all scores, scales and samples are
/// integers in units of one millionth.
pub const FP_ONE: i64 = 1_000_000;

/// Largest magnitude a sample may carry: one million times full scale.
/// Keeps the spectrogram window arithmetic inside `i64`.
pub const SAMPLE_LIMIT: i64 = 1_000_000_000_000;

/// A fixed-size buffer of contiguous audio samples, tagged with a
/// monotonically increasing id.
pub struct Chunk<const S: usize> {
    pub id: u64,
    pub samples: Vec<i64>,
}

/// The mathematical content of a chunk: its id and the sequence of samples.
#[verifier::ext_equal]
pub struct ChunkView {
    pub id: u64,
    pub samples: Seq<i64>,
}

impl<const S: usize> View for Chunk<S> {
    type V = ChunkView;

    open spec fn view(&self) -> ChunkView {
        ChunkView { id: self.id, samples: self.samples@ }
    }
}

impl ChunkView {
    /// A chunk of size `s` carries exactly `s` samples.
    pub open spec fn wf(&self, s: int) -> bool {
        self.samples.len() == s
    }

    /// All samples stay within the fixed-point headroom.
    pub open spec fn bounded(&self) -> bool {
        forall|k: int|
            0 <= k < self.samples.len() ==> -SAMPLE_LIMIT <= #[trigger] self.samples[k]
                <= SAMPLE_LIMIT
    }
}

impl<const S: usize> Chunk<S> {
    /// A chunk carries exactly `S` samples.
    pub open spec fn wf(&self) -> bool {
        self@.wf(S as int)
    }

    pub fn new(id: u64, samples: Vec<i64>) -> (c: Self)
        requires
            samples@.len() == S as int,
        ensures
            c@ == (ChunkView { id, samples: samples@ }),
            c.wf(),
    {
        Chunk { id, samples }
    }

    /// An exact copy of the chunk; fanning out a stream is by value.
    pub fn duplicate(&self) -> (c: Self)
        ensures
            c@ == self@,
    {
        let mut samples: Vec<i64> = Vec::new();
        let mut k: usize = 0;
        while k < self.samples.len()
            invariant
                k <= self.samples@.len(),
                samples@ =~= self.samples@.take(k as int),
            decreases self.samples@.len() - k,
        {
            samples.push(self.samples[k]);
            k = k + 1;
        }
        proof {
            assert(samples@ =~= self.samples@);
        }
        Chunk { id: self.id, samples }
    }
}

} // verus!
