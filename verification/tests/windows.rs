use oww_rust_core::embedder::{Embedder, Embedding, NUM_SPECTOGRAMS};
use oww_rust_core::runner::{NamedModel, Runner, NUM_EMBEDDINGS};
use oww_rust_core::specter::{mel_post, Melspectogram, Specter, SPECTOGRAM_SAMPLES};
use oww_rust_core::{Chunk, FP_ONE};

fn ramp(id: u64) -> Chunk<SPECTOGRAM_SAMPLES> {
    let samples: Vec<i64> = (0..SPECTOGRAM_SAMPLES as i64).collect();
    Chunk::<SPECTOGRAM_SAMPLES>::new(id, samples)
}

#[test]
fn specter_warm_up_takes_three_chunks() {
    let mut s = Specter::new(vec![0; SPECTOGRAM_SAMPLES]);
    assert!(s.push(ramp(0)).is_none());
    assert!(s.push(ramp(1)).is_none());
    assert!(s.push(ramp(2)).is_some());
    assert!(s.push(ramp(3)).is_some());
}

#[test]
fn specter_zero_window_passes_middle_chunk_through() {
    // With all window coefficients zero both overlaps vanish: the frame is
    // the middle chunk itself.
    let mut s = Specter::new(vec![0; SPECTOGRAM_SAMPLES]);
    s.push(Chunk::<SPECTOGRAM_SAMPLES>::new(0, vec![11; SPECTOGRAM_SAMPLES]));
    s.push(Chunk::<SPECTOGRAM_SAMPLES>::new(1, vec![22; SPECTOGRAM_SAMPLES]));
    let out = s.push(Chunk::<SPECTOGRAM_SAMPLES>::new(2, vec![33; SPECTOGRAM_SAMPLES])).unwrap();
    assert_eq!(out, vec![22; SPECTOGRAM_SAMPLES]);
}

#[test]
fn specter_overlap_weights() {
    // Full window coefficients: the first half adds 0.32 of the previous
    // chunk's tail, the second half 0.25 of the next chunk's head.
    let mut s = Specter::new(vec![FP_ONE; SPECTOGRAM_SAMPLES]);
    s.push(Chunk::<SPECTOGRAM_SAMPLES>::new(0, vec![100; SPECTOGRAM_SAMPLES]));
    s.push(Chunk::<SPECTOGRAM_SAMPLES>::new(1, vec![7; SPECTOGRAM_SAMPLES]));
    let out = s.push(Chunk::<SPECTOGRAM_SAMPLES>::new(2, vec![100; SPECTOGRAM_SAMPLES])).unwrap();
    assert_eq!(out[0], 7 + 32);
    assert_eq!(out[639], 7 + 32);
    assert_eq!(out[640], 7 + 25);
    assert_eq!(out[1279], 7 + 25);
}

#[test]
fn mel_post_rebias_of_zeros_is_two() {
    // A zero model output becomes five frames of exactly 2.0.
    let frames = mel_post(&vec![0; 160]);
    assert_eq!(frames.len(), 5);
    for f in &frames {
        for j in 0..32 {
            assert_eq!(f.get(j), 2 * FP_ONE);
        }
    }
}

#[test]
fn mel_post_truncates_toward_zero() {
    let mut raw = vec![0i64; 160];
    raw[0] = 19;
    raw[1] = -19;
    raw[2] = 10 * FP_ONE;
    let frames = mel_post(&raw);
    assert_eq!(frames[0].get(0), 1 + 2 * FP_ONE);
    assert_eq!(frames[0].get(1), -1 + 2 * FP_ONE);
    assert_eq!(frames[0].get(2), FP_ONE + 2 * FP_ONE);
}

#[test]
fn embedder_emits_only_once_full() {
    let mut e = Embedder::new();
    // 15 batches of five frames: 75 frames, never full.
    for _ in 0..15 {
        let batch: Vec<Melspectogram> =
            (0..5).map(|_| Melspectogram::new(vec![0; 32])).collect();
        assert!(e.push(batch).is_none());
    }
    // The 16th batch carries the 76th frame.
    let batch: Vec<Melspectogram> = (0..5).map(|_| Melspectogram::new(vec![0; 32])).collect();
    let out = e.push(batch).expect("window must be full");
    assert_eq!(out.len(), NUM_SPECTOGRAMS * 32);
}

#[test]
fn embedder_flattens_oldest_first() {
    let mut e = Embedder::new();
    let batch: Vec<Melspectogram> =
        (0..NUM_SPECTOGRAMS as i64).map(|i| Melspectogram::new(vec![i; 32])).collect();
    let out = e.push(batch).expect("exactly full after one batch");
    for i in 0..NUM_SPECTOGRAMS {
        for j in 0..32 {
            assert_eq!(out[i * 32 + j], i as i64);
        }
    }
}

#[test]
fn runner_emits_only_after_sixteen_embeddings() {
    let mut r = Runner::new();
    for i in 0..NUM_EMBEDDINGS - 1 {
        assert!(r.push_embedding(Embedding::new(vec![i as i64; 96])).is_none());
    }
    let out = r
        .push_embedding(Embedding::new(vec![99; 96]))
        .expect("sixteenth embedding fills the window");
    assert_eq!(out.len(), NUM_EMBEDDINGS * 96);
    // Oldest first; the last 96 values are the newest embedding.
    assert_eq!(out[0], 0);
    assert_eq!(out[out.len() - 1], 99);
}

#[test]
fn runner_filters_and_names_scores() {
    let mut r = Runner::new();
    r.add_model(NamedModel::new("w".to_string(), FP_ONE));
    r.add_model(NamedModel::new("c".to_string(), 2 * FP_ONE));
    let acts = r.activations(&vec![900_000, 300_000]);
    assert_eq!(acts.len(), 2);
    assert_eq!(acts[0].0, "w");
    assert_eq!(acts[0].1, 900_000);
    // 0.3 scaled by 2.0 is 0.6.
    assert_eq!(acts[1].0, "c");
    assert_eq!(acts[1].1, 600_000);
}

#[test]
fn runner_filter_clamps_into_unit_band() {
    let mut r = Runner::new();
    r.add_model(NamedModel::new("w".to_string(), FP_ONE));
    let high = r.activations(&vec![2 * FP_ONE]);
    assert_eq!(high[0].1, FP_ONE);
    let low = r.activations(&vec![-FP_ONE]);
    assert_eq!(low[0].1, 0);
    // The clamp boundaries themselves pass through unchanged.
    let bounds = r.activations(&vec![0]);
    assert_eq!(bounds[0].1, 0);
    let unit = r.activations(&vec![FP_ONE]);
    assert_eq!(unit[0].1, FP_ONE);
}

#[test]
fn runner_accepts_negative_scale() {
    // A negative scale flips the raw score; the default clamp then floors
    // any positive input at zero and an inverted negative input can pass.
    let mut r = Runner::new();
    r.add_model(NamedModel::new("w".to_string(), -FP_ONE));
    assert_eq!(r.activations(&vec![500_000])[0].1, 0);
    assert_eq!(r.activations(&vec![-500_000])[0].1, 500_000);
}

#[test]
fn embedder_window_slides_across_batches() {
    // Fill with 76 frames of one value, then push five more: the window must
    // hold the five newest at its end and drop five from its start.
    let mut e = Embedder::new();
    let first: Vec<Melspectogram> =
        (0..NUM_SPECTOGRAMS as i64).map(|i| Melspectogram::new(vec![i; 32])).collect();
    assert!(e.push(first).is_some());
    let next: Vec<Melspectogram> = (0..5).map(|_| Melspectogram::new(vec![1000; 32])).collect();
    let out = e.push(next).expect("still full");
    // Oldest remaining frame is the one that carried value 5.
    assert_eq!(out[0], 5);
    // The last five frames carry the new value.
    for i in NUM_SPECTOGRAMS - 5..NUM_SPECTOGRAMS {
        assert_eq!(out[i * 32], 1000);
    }
}

#[test]
fn runner_replaces_model_with_same_name() {
    let mut r = Runner::new();
    r.add_model(NamedModel::new("a".to_string(), FP_ONE));
    r.add_model(NamedModel::new("b".to_string(), FP_ONE));
    // Reinstalling "a" drops the old slot and appends the new one.
    r.add_model(NamedModel::new("a".to_string(), 2 * FP_ONE));
    let acts = r.activations(&vec![100_000, 100_000]);
    assert_eq!(acts[0].0, "b");
    assert_eq!(acts[1].0, "a");
    assert_eq!(acts[1].1, 200_000);
}
