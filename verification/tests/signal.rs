//! Tests for the filter, power extraction and ring buffer stages.

use music_vibes::filter::{alpha, low_pass};
use music_vibes::fixed::UNIT;
use music_vibes::pipeline::process_buffer;
use music_vibes::power::{avg, calculate_power, isqrt};
use music_vibes::ring::{buffer_capacity, SampleRingBuffer};

const U: i64 = UNIT;

#[test]
fn alpha_is_time_fraction() {
    // dt = 1 ms, rc = 50 us (a 20 kHz cutoff): a = 1000 * UNIT / 1050.
    assert_eq!(alpha(1000, 50), 952_380);
    // rc = 0: a = 1 exactly.
    assert_eq!(alpha(1000, 0), U);
    // dt = 0: a = 0 exactly.
    assert_eq!(alpha(0, 50), 0);
}

#[test]
fn filter_output_length_matches_input() {
    let samples: Vec<i64> = vec![1, 2, 3, 4, 5, 6];
    let out = low_pass(&samples, 1000, 50, 2);
    assert_eq!(out.len(), 6);
    let out = low_pass(&samples, 1000, 50, 6);
    assert_eq!(out.len(), 6);
}

#[test]
fn filter_short_input_yields_empty_output() {
    let samples: Vec<i64> = vec![7];
    let out = low_pass(&samples, 1000, 50, 2);
    assert!(out.is_empty());
    let empty: Vec<i64> = vec![];
    let out = low_pass(&empty, 1000, 50, 1);
    assert!(out.is_empty());
}

#[test]
fn filter_constant_input_converges_to_constant() {
    // A constant lane converges to the constant (steady-state
    // pass-through), to within one micro-unit.
    let k: i64 = 800_000;
    let samples: Vec<i64> = vec![k; 64];
    let out = low_pass(&samples, 1000, 50, 1);
    let last = out[out.len() - 1];
    assert!((last - k).abs() <= 1, "last = {last}");
    // Once settled it stays settled.
    let prev = out[out.len() - 2];
    assert_eq!(prev, last);
}

#[test]
fn filter_constant_input_converges_per_channel() {
    let l: i64 = 600_000;
    let r: i64 = -400_000;
    let mut samples: Vec<i64> = Vec::new();
    for _ in 0..64 {
        samples.push(l);
        samples.push(r);
    }
    let out = low_pass(&samples, 1000, 50, 2);
    let n = out.len();
    assert!((out[n - 2] - l).abs() <= 1);
    assert!((out[n - 1] - r).abs() <= 1);
}

#[test]
fn filter_unit_alpha_is_identity() {
    // rc = 0: a = 1 and every sample passes through unchanged.
    let samples: Vec<i64> = vec![250_000, -750_000, 0, 999_999];
    let out = low_pass(&samples, 1000, 0, 2);
    assert_eq!(out, samples);
}

#[test]
fn filter_zero_dt_passes_nothing() {
    // a = 0: every output is zero no matter the input.
    let samples: Vec<i64> = vec![900_000, -900_000, 123, 456];
    let out = low_pass(&samples, 0, 50, 1);
    assert_eq!(out, vec![0, 0, 0, 0]);
}

#[test]
fn isqrt_exact_values() {
    assert_eq!(isqrt(0), 0);
    assert_eq!(isqrt(1), 1);
    assert_eq!(isqrt(3), 1);
    assert_eq!(isqrt(4), 2);
    assert_eq!(isqrt(999_999), 999);
    assert_eq!(isqrt(1_000_000_000_000), 1_000_000);
    assert_eq!(isqrt(u64::MAX), 0xFFFF_FFFF);
}

#[test]
fn rms_all_zero_buffer_yields_zero() {
    let samples: Vec<i64> = vec![0; 8];
    let powers = calculate_power(&samples, 2);
    assert_eq!(powers, vec![0, 0]);
    assert_eq!(avg(&powers), 0);
}

#[test]
fn rms_constant_single_channel_is_exact() {
    let a: i64 = 600_000;
    let samples: Vec<i64> = vec![a; 10];
    let powers = calculate_power(&samples, 1);
    assert_eq!(powers, vec![a]);
}

#[test]
fn rms_constant_negative_amplitude_is_magnitude() {
    let samples: Vec<i64> = vec![-600_000; 10];
    let powers = calculate_power(&samples, 1);
    assert_eq!(powers, vec![600_000]);
}

#[test]
fn rms_is_clamped_to_unit() {
    // Amplitude above full scale: the channel power is clamped to UNIT.
    let samples: Vec<i64> = vec![3 * U; 4];
    let powers = calculate_power(&samples, 1);
    assert_eq!(powers, vec![U]);
}

#[test]
fn rms_ignores_trailing_partial_frame() {
    // Seven samples in two channels: three whole frames, the last sample
    // is ignored.
    let samples: Vec<i64> = vec![100_000, 200_000, 100_000, 200_000, 100_000, 200_000, 999_999];
    let powers = calculate_power(&samples, 2);
    assert_eq!(powers, vec![100_000, 200_000]);
}

#[test]
fn avg_is_exact_mean() {
    let powers: Vec<i64> = vec![200_000, 400_000];
    assert_eq!(avg(&powers), 300_000);
    let powers: Vec<i64> = vec![U, U, U];
    assert_eq!(avg(&powers), U);
}

#[test]
fn ring_buffer_starts_zero_filled_at_capacity() {
    let ring = SampleRingBuffer::new(4);
    assert_eq!(ring.contents(), &vec![0i64, 0, 0, 0]);
}

#[test]
fn ring_buffer_prepends_batch_reversed() {
    let mut ring = SampleRingBuffer::new(4);
    let batch: Vec<i64> = vec![1, 2, 3];
    ring.push_samples(&batch);
    assert_eq!(ring.contents(), &vec![3i64, 2, 1, 0]);
}

#[test]
fn ring_buffer_truncates_to_capacity() {
    let mut ring = SampleRingBuffer::new(4);
    ring.push_samples(&vec![1, 2, 3]);
    ring.push_samples(&vec![4, 5]);
    // [5, 4] ahead of what survives of [3, 2, 1, 0].
    assert_eq!(ring.contents(), &vec![5i64, 4, 3, 2]);
    ring.push_samples(&vec![6, 7, 8, 9, 10]);
    // A batch larger than the capacity fills the whole buffer, newest
    // first.
    assert_eq!(ring.contents(), &vec![10i64, 9, 8, 7]);
}

#[test]
fn buffer_capacity_follows_format() {
    // 48 kHz stereo, 20 ms of buffer: 960 samples per channel.
    assert_eq!(buffer_capacity(48_000, 2, 20), 1920);
    assert_eq!(buffer_capacity(44_100, 1, 20), 882);
    assert_eq!(buffer_capacity(48_000, 2, 0), 0);
}

#[test]
fn process_buffer_of_silence_is_zero() {
    let samples: Vec<i64> = vec![0; 1920];
    assert_eq!(process_buffer(&samples, 1000, 50, 2), 0);
}

#[test]
fn process_buffer_constant_full_scale() {
    // A constant full-scale signal settles at full scale; RMS of the
    // constant is exact, only the filter's settling transient is below it.
    let samples: Vec<i64> = vec![U; 4800];
    let loudness = process_buffer(&samples, 1000, 50, 2);
    assert!(loudness <= U);
    assert!(loudness >= U - 2_000, "loudness = {loudness}");
}
