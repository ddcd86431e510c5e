//! Tests for the envelope persistence state machine.

use music_vibes::envelope::{scale_loudness, EnvelopeState, PersistenceConfig};
use music_vibes::fixed::UNIT;

const U: i64 = UNIT;

fn enabled_cfg(hold_delay_us: u64, decay_rate_per_sec: i64) -> PersistenceConfig {
    PersistenceConfig { enabled: true, hold_delay_us, decay_rate_per_sec }
}

#[test]
fn disabled_persistence_passes_raw_through() {
    let mut st = EnvelopeState { current_level: U, hold_started_at: Some(5) };
    let cfg = PersistenceConfig { enabled: false, hold_delay_us: 500_000, decay_rate_per_sec: U };
    st.tick(123_456, 10, 10, &cfg);
    assert_eq!(st.current_level, 123_456);
    assert!(st.hold_started_at.is_none());
}

#[test]
fn rising_loudness_is_adopted_immediately() {
    let mut st = EnvelopeState { current_level: 200_000, hold_started_at: Some(5) };
    let cfg = enabled_cfg(500_000, U);
    st.tick(900_000, 10, 10, &cfg);
    assert_eq!(st.current_level, 900_000);
    assert!(st.hold_started_at.is_none());
}

#[test]
fn decay_is_linear_and_floored_by_raw() {
    // hold_delay = 0, decay 1.0/s, loudness drops from 1.0 to 0.0 at t = 0:
    // after half a second the level is exactly 0.5.
    let mut st = EnvelopeState { current_level: U, hold_started_at: None };
    let cfg = enabled_cfg(0, U);
    st.tick(0, 500_000, 500_000, &cfg);
    assert_eq!(st.current_level, 500_000);
    // Another half second reaches the floor at the raw loudness.
    st.tick(0, 1_000_000, 500_000, &cfg);
    assert_eq!(st.current_level, 0);
    // Decay never undershoots a non-zero raw loudness either.
    let mut st = EnvelopeState { current_level: U, hold_started_at: None };
    st.tick(800_000, 500_000, 500_000, &cfg);
    assert_eq!(st.current_level, 800_000);
}

#[test]
fn decay_accumulates_over_ticks() {
    let mut st = EnvelopeState { current_level: U, hold_started_at: None };
    let cfg = enabled_cfg(0, U);
    st.tick(0, 100_000, 100_000, &cfg);
    assert_eq!(st.current_level, 900_000);
    st.tick(0, 200_000, 100_000, &cfg);
    assert_eq!(st.current_level, 800_000);
}

#[test]
fn hold_keeps_peak_flat_inside_window() {
    // hold_delay = 200 ms; the drop at t = 0 starts the hold, and at
    // t = 100 ms the pre-drop peak is still reported.
    let mut st = EnvelopeState { current_level: U, hold_started_at: None };
    let cfg = enabled_cfg(200_000, U);
    st.tick(0, 0, 16_000, &cfg);
    assert_eq!(st.current_level, U);
    assert_eq!(st.hold_started_at, Some(0));
    st.tick(0, 100_000, 100_000, &cfg);
    assert_eq!(st.current_level, U);
    assert_eq!(st.hold_started_at, Some(0));
}

#[test]
fn decay_starts_once_hold_elapses() {
    let mut st = EnvelopeState { current_level: U, hold_started_at: None };
    let cfg = enabled_cfg(200_000, U);
    st.tick(0, 0, 16_000, &cfg);
    // At t = 250 ms the hold window (200 ms) has elapsed; this tick covers
    // 150 ms, so the level falls by 0.15.
    st.tick(0, 250_000, 150_000, &cfg);
    assert_eq!(st.current_level, 850_000);
}

#[test]
fn non_positive_decay_rate_snaps_to_raw() {
    let mut st = EnvelopeState { current_level: U, hold_started_at: None };
    let cfg = enabled_cfg(0, 0);
    st.tick(300_000, 10, 10, &cfg);
    assert_eq!(st.current_level, 300_000);
}

#[test]
fn new_state_is_at_rest() {
    let st = EnvelopeState::new();
    assert_eq!(st.current_level, 0);
    assert!(st.hold_started_at.is_none());
}

#[test]
fn default_config_matches_documented_defaults() {
    let cfg = PersistenceConfig::default();
    assert!(!cfg.enabled);
    assert_eq!(cfg.hold_delay_us, 0);
    assert_eq!(cfg.decay_rate_per_sec, 2 * U);
}

#[test]
fn scale_loudness_squares_the_volume() {
    // Volume 2.0: the multiplier is 4.0, and the result is clamped.
    assert_eq!(scale_loudness(200_000, 2 * U), 800_000);
    assert_eq!(scale_loudness(300_000, 2 * U), U);
    // Volume 1.0 passes through; volume 0 silences.
    assert_eq!(scale_loudness(700_000, U), 700_000);
    assert_eq!(scale_loudness(700_000, 0), 0);
}
