//! Voice-activity detection over 480-sample chunks: fixed-point samples are
//! rescaled to saturated 16-bit PCM and handed to the earshot classifier,
//! which answers voice or no voice once per chunk.

use vstd::prelude::*;

use crate::fixed::{scale_clamp, scale_value_clamped};
use crate::Chunk;

verus! {

/// How many samples each chunk handed to the detector carries.
pub const VAD_CHUNK: usize = 480;

/// A fixed-point sample rescaled to 16-bit PCM with saturation: multiplied
/// by 32767, raised to -32768, capped at 32767.
pub open spec fn sat16(v: int) -> int {
    scale_clamp(v, 32767, -32768, 32767)
}

#[verifier::external_type_specification]
#[verifier::external_body]
pub struct ExVoiceActivityDetector(earshot::VoiceActivityDetector);

/// Relies on earshot::VoiceActivityDetector::new: builds a fresh detector
/// with the VERY_AGGRESSIVE profile, as the pipeline runs it.
#[verifier::external_body]
fn new_detector() -> earshot::VoiceActivityDetector {
    earshot::VoiceActivityDetector::new(earshot::VoiceActivityProfile::VERY_AGGRESSIVE)
}

/// Relies on earshot::VoiceActivityDetector::predict_16khz: 480 samples is
/// an accepted frame size at 16 kHz (30 ms), so the call returns the model's
/// voice decision; the decision depends on the detector's internal state, so
/// nothing is claimed of the value.
#[verifier::external_body]
fn predict_voice(det: &mut earshot::VoiceActivityDetector, frame: &Vec<i16>) -> bool
    requires
        frame@.len() == 480,
{
    det.predict_16khz(frame.as_slice()).unwrap_or(false)
}

/// Rescale a chunk's fixed-point samples to saturated 16-bit PCM.
pub fn to_pcm16(samples: &Vec<i64>) -> (out: Vec<i16>)
    ensures
        out@.len() == samples@.len(),
        forall|k: int| 0 <= k < samples@.len() ==> #[trigger] out@[k] as int == sat16(samples@[k] as int),
{
    let mut out: Vec<i16> = Vec::new();
    let mut k: usize = 0;
    while k < samples.len()
        invariant
            k <= samples@.len(),
            out@.len() == k as int,
            forall|j: int| 0 <= j < k as int ==> #[trigger] out@[j] as int == sat16(samples@[j] as int),
        decreases samples@.len() - k,
    {
        let t = scale_value_clamped(samples[k], 32767, -32768, 32767);
        out.push(t as i16);
        k = k + 1;
    }
    out
}

pub struct VAD {
    det: earshot::VoiceActivityDetector,
}

impl VAD {
    pub fn new() -> Self {
        VAD { det: new_detector() }
    }

    /// One detection step: convert the chunk and ask the classifier whether
    /// it hears voice. The frame handed over is fixed exactly by
    /// [`to_pcm16`]; the boolean itself is the opaque classifier's decision,
    /// which depends on its internal state, so nothing can be promised of it.
    pub fn tick(&mut self, chunk: &Chunk<VAD_CHUNK>) -> bool
        requires
            chunk.wf(),
    {
        let frame = to_pcm16(&chunk.samples);
        predict_voice(&mut self.det, &frame)
    }
}

} // verus!
