use audio_capture_core::ring::LevelRing;
use audio_capture_core::stats::{batch_level_permille, isqrt, near_silent, peak_abs, sum_squares};

#[test]
fn ring_keeps_last_240_in_order() {
    let mut ring = LevelRing::new();
    for i in 0..500u16 {
        ring.push(i % 1001);
    }
    let v = ring.to_vec();
    assert_eq!(v.len(), 240);
    for (k, &lvl) in v.iter().enumerate() {
        let expected = (260 + k as u16) % 1001;
        assert_eq!(lvl, expected);
    }
}

#[test]
fn ring_never_exceeds_capacity() {
    let mut ring = LevelRing::new();
    for i in 0..1000u16 {
        ring.push(i);
        assert!(ring.len() <= 240);
    }
}

#[test]
fn ring_clamps_levels_to_permille() {
    let mut ring = LevelRing::new();
    ring.push(1500);
    ring.push(1000);
    ring.push(3);
    assert_eq!(ring.to_vec(), vec![1000, 1000, 3]);
}

#[test]
fn peak_abs_exact() {
    assert_eq!(peak_abs(&[]), 0);
    assert_eq!(peak_abs(&[0, -5, 3]), 5);
    assert_eq!(peak_abs(&[i16::MIN]), 32768);
    assert_eq!(peak_abs(&[32767, -32767]), 32767);
}

#[test]
fn sum_squares_exact() {
    assert_eq!(sum_squares(&[]), 0);
    assert_eq!(sum_squares(&[3, -4]), 25);
    assert_eq!(sum_squares(&[32767]), 32767u128 * 32767u128);
}

#[test]
fn isqrt_exact() {
    assert_eq!(isqrt(0), 0);
    assert_eq!(isqrt(1), 1);
    assert_eq!(isqrt(3), 1);
    assert_eq!(isqrt(4), 2);
    assert_eq!(isqrt(999_999), 999);
    assert_eq!(isqrt(1_000_000), 1000);
    assert_eq!(isqrt(u128::MAX), (1u128 << 64) - 1);
}

#[test]
fn level_is_zero_for_empty_batch() {
    assert_eq!(batch_level_permille(&[]), 0);
}

#[test]
fn level_of_full_scale_square_wave_is_clamped_to_one() {
    let batch: Vec<i16> = vec![32767, -32767, 32767, -32767];
    assert_eq!(batch_level_permille(&batch), 1000);
}

#[test]
fn level_stays_in_unit_range_for_all_encodings() {
    // Batches as each native encoding hands them in, quantized the way the
    // capture callback does, must land in [0, 1] after gain and clamp.
    let f32_batch: Vec<f32> = vec![-1.0, -0.5, 0.0, 0.5, 1.0, 0.9999];
    let i16_batch: Vec<i16> = vec![i16::MIN, -1, 0, 1, i16::MAX];
    let u16_batch: Vec<u16> = vec![0, 1, 32768, 65534, 65535];

    let q_f32: Vec<i16> = f32_batch
        .iter()
        .map(|s| (s.clamp(-1.0, 1.0) * 32767.0) as i16)
        .collect();
    let q_i16: Vec<i16> = i16_batch
        .iter()
        .map(|s| {
            let norm = *s as f32 / i16::MAX as f32;
            (norm.clamp(-1.0, 1.0) * 32767.0) as i16
        })
        .collect();
    let q_u16: Vec<i16> = u16_batch
        .iter()
        .map(|s| {
            let norm = (*s as f32 / u16::MAX as f32) * 2.0 - 1.0;
            (norm.clamp(-1.0, 1.0) * 32767.0) as i16
        })
        .collect();

    for batch in [q_f32, q_i16, q_u16] {
        let level = batch_level_permille(&batch);
        assert!(level <= 1000);
        let peak = peak_abs(&batch);
        assert!(peak <= 32768);
    }
}

#[test]
fn small_signal_level_exact() {
    // One sample of 327: rms = 327/32767, level = floor(3000 * 327 / 32767).
    let level = batch_level_permille(&[327]);
    assert_eq!(level as u64, isqrt(9_000_000u128 * 327 * 327 / (32767 * 32767)) as u64);
    assert_eq!(level, 29);
}

#[test]
fn near_silence_dual_threshold() {
    assert!(near_silent(&[0; 100]));
    assert!(!near_silent(&[32767; 4]));
    // A lone 327 is quiet in peak but loud in RMS: not near-silent.
    assert!(!near_silent(&[327]));
    // Diluted across ten samples the RMS drops below its floor too.
    assert!(near_silent(&[327, 0, 0, 0, 0, 0, 0, 0, 0, 0]));
    assert!(!near_silent(&[328, 0, 0, 0, 0, 0, 0, 0, 0, 0]));
}
