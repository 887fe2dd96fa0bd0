use oww_rust_core::delay::Delay;
use oww_rust_core::rechunker::Rechunker;
use oww_rust_core::sampler::{decode_i16_le, Sampler};
use oww_rust_core::tee::Tee;
use oww_rust_core::vad::{to_pcm16, VAD};
use oww_rust_core::{Chunk, FP_ONE};

fn chunk<const S: usize>(id: u64, samples: Vec<i64>) -> Chunk<S> {
    Chunk::<S>::new(id, samples)
}

#[test]
fn rechunker_three_to_two() {
    let mut r = Rechunker::<3, 2>::new();
    let out1 = r.push(&chunk::<3>(0, vec![1, 2, 3]));
    assert_eq!(out1.len(), 1);
    assert_eq!(out1[0].id, 0);
    assert_eq!(out1[0].samples, vec![1, 2]);

    let out2 = r.push(&chunk::<3>(1, vec![4, 5, 6]));
    assert_eq!(out2.len(), 2);
    assert_eq!(out2[0].id, 1);
    assert_eq!(out2[0].samples, vec![3, 4]);
    assert_eq!(out2[1].id, 2);
    assert_eq!(out2[1].samples, vec![5, 6]);

    let out3 = r.push(&chunk::<3>(2, vec![7, 8, 9]));
    assert_eq!(out3.len(), 1);
    assert_eq!(out3[0].id, 3);
    assert_eq!(out3[0].samples, vec![7, 8]);
}

#[test]
fn rechunker_growing_chunks() {
    // Repacking into larger chunks: nothing leaves until five samples are in.
    let mut r = Rechunker::<2, 5>::new();
    assert_eq!(r.push(&chunk::<2>(0, vec![10, 11])).len(), 0);
    assert_eq!(r.push(&chunk::<2>(1, vec![12, 13])).len(), 0);
    let out = r.push(&chunk::<2>(2, vec![14, 15]));
    assert_eq!(out.len(), 1);
    assert_eq!(out[0].id, 0);
    assert_eq!(out[0].samples, vec![10, 11, 12, 13, 14]);
}

#[test]
fn rechunker_ids_restart_from_zero() {
    // Input ids do not carry over; outputs count from zero.
    let mut r = Rechunker::<2, 2>::new();
    let out = r.push(&chunk::<2>(77, vec![1, 2]));
    assert_eq!(out.len(), 1);
    assert_eq!(out[0].id, 0);
}

#[test]
fn delay_of_three_holds_two_back() {
    let mut d = Delay::<1, 3>::new();
    assert!(d.push(chunk::<1>(0, vec![100])).is_none());
    assert!(d.push(chunk::<1>(1, vec![101])).is_none());
    let a = d.push(chunk::<1>(2, vec![102])).expect("third push releases the first chunk");
    assert_eq!(a.id, 0);
    assert_eq!(a.samples, vec![100]);
    let b = d.push(chunk::<1>(3, vec![103])).expect("fourth push releases the second chunk");
    assert_eq!(b.id, 1);
    assert_eq!(b.samples, vec![101]);
}

#[test]
fn tee_hands_every_branch_the_same_chunk() {
    let mut t = Tee::<1, 2>::new();
    let out = t.push(&chunk::<1>(5, vec![42]));
    assert_eq!(out.len(), 2);
    for c in &out {
        assert_eq!(c.id, 5);
        assert_eq!(c.samples, vec![42]);
    }
}

#[test]
fn decode_pcm_little_endian() {
    assert_eq!(decode_i16_le(0x34, 0x12), 0x1234);
    assert_eq!(decode_i16_le(0xff, 0xff), -1);
    assert_eq!(decode_i16_le(0x00, 0x80), i16::MIN);
    assert_eq!(decode_i16_le(0xff, 0x7f), i16::MAX);
    assert_eq!(decode_i16_le(0, 0), 0);
}

#[test]
fn sampler_scales_and_numbers_chunks() {
    // preamp 0.1: full-scale positive becomes exactly 0.1.
    let mut s = Sampler::<2>::new(100_000);
    let c0 = s.make_chunk(&vec![i16::MAX, 0]);
    assert_eq!(c0.id, 0);
    assert_eq!(c0.samples, vec![100_000, 0]);
    // -32768 * 100000 / 32767, truncated toward zero.
    let c1 = s.make_chunk(&vec![i16::MIN, 16384]);
    assert_eq!(c1.id, 1);
    assert_eq!(c1.samples[0], -(32768i64 * 100_000 / 32767));
    assert_eq!(c1.samples[1], 16384i64 * 100_000 / 32767);
}

#[test]
fn sampler_accepts_negative_gain() {
    // An inverting preamp of -0.1 flips every sample's sign.
    let mut s = Sampler::<2>::new(-100_000);
    let c = s.make_chunk(&vec![i16::MAX, -16384]);
    assert_eq!(c.samples[0], -100_000);
    assert_eq!(c.samples[1], 16384i64 * 100_000 / 32767);
}

#[test]
fn pcm16_saturates_at_full_scale() {
    let out = to_pcm16(&vec![FP_ONE, -FP_ONE, 2 * FP_ONE, -2 * FP_ONE, FP_ONE / 2, 0]);
    assert_eq!(out, vec![32767, -32767, 32767, -32768, 16383, 0]);
}

#[test]
fn vad_accepts_silence() {
    let mut v = VAD::new();
    let silent = chunk::<480>(0, vec![0; 480]);
    // The decision is the model's; the call itself must complete per chunk.
    let first = v.tick(&silent);
    let second = v.tick(&silent);
    let _ = (first, second);
}
