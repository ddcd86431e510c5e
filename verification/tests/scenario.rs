//! End-to-end scenario and the remaining control-loop decisions.

use music_vibes::envelope::{EnvelopeState, PersistenceConfig};
use music_vibes::fixed::UNIT;
use music_vibes::mapping::{DeviceProps, VibratorProps};
use music_vibes::pipeline::{fan_out_speeds, get_device, poll_interval_us, process_buffer, GetDeviceError};
use music_vibes::shared::SharedF32;

const U: i64 = UNIT;

#[test]
fn full_scale_sine_maps_to_its_rms() {
    // 48 kHz stereo, one second of a full-scale sine, 20 kHz cutoff (no
    // audible filtering), persistence disabled: the loudness settles near
    // the sine's RMS (~0.707), and a single enabled actuator with unit
    // mapping transmits it.
    let sample_rate = 48_000usize;
    let mut samples: Vec<i64> = Vec::with_capacity(sample_rate * 2);
    for i in 0..sample_rate {
        let t = i as f64 / sample_rate as f64;
        let v = (2.0 * std::f64::consts::PI * 440.0 * t).sin();
        let scaled = (v * U as f64) as i64;
        // Both channels carry the same signal.
        samples.push(scaled);
        samples.push(scaled);
    }
    // dt = 1 ms of capture granularity, rc = 1 / 20 kHz = 50 us.
    let loudness = process_buffer(&samples, 1000, 50, 2);
    let rms = 707_106;
    assert!(
        (loudness - rms).abs() <= 20_000,
        "loudness = {loudness}, expected about {rms}"
    );

    // Persistence disabled: the envelope passes the loudness through.
    let mut envelope = EnvelopeState::new();
    let cfg = PersistenceConfig::default();
    envelope.tick(loudness, 0, 16_000, &cfg);
    assert_eq!(envelope.current_level, loudness);

    // One enabled actuator, multiplier 1, min 0, max 1.
    let dev = DeviceProps {
        is_enabled: true,
        multiplier: U,
        min: 0,
        max: U,
        vibrators: vec![VibratorProps { is_enabled: true, multiplier: U, min: 0, max: U }],
    };
    let speeds = dev.device_command(envelope.current_level);
    assert_eq!(speeds.len(), 1);
    assert!((speeds[0] - rms).abs() <= 20_000, "speed = {}", speeds[0]);
}

#[test]
fn poll_interval_prefers_custom_rate_with_floor() {
    // Custom polling: the configured rate in milliseconds, floored at 1 ms.
    assert_eq!(poll_interval_us(1000, 480, 48_000, true, 20), 20_000);
    assert_eq!(poll_interval_us(1000, 480, 48_000, true, 0), 1000);
    // Otherwise: time to fill about half the capture buffer.
    assert_eq!(poll_interval_us(1000, 480, 48_000, false, 20), 1000 * 480 / 48_000 / 1000 / 2);
}

#[test]
fn get_device_wants_exactly_one() {
    assert!(matches!(get_device(1), Ok(0)));
    assert!(matches!(get_device(0), Err(GetDeviceError::ZeroDevices)));
    assert!(matches!(get_device(5), Err(GetDeviceError::MoreThanOneDevice)));
}

#[test]
fn fan_out_stereo_maps_channels_to_actuators() {
    let powers: Vec<i64> = vec![200_000, 400_000];
    let speeds = fan_out_speeds(&powers, true, 2, 2, 2 * U);
    assert_eq!(speeds, vec![400_000, 800_000]);
}

#[test]
fn fan_out_replicates_scaled_average() {
    let powers: Vec<i64> = vec![200_000, 400_000];
    // Not stereo: the average (0.3), doubled, on every actuator.
    let speeds = fan_out_speeds(&powers, false, 3, 2, 2 * U);
    assert_eq!(speeds, vec![600_000, 600_000, 600_000]);
    // The scaled average is clamped to full scale.
    let speeds = fan_out_speeds(&powers, false, 1, 2, 10 * U);
    assert_eq!(speeds, vec![U]);
}

#[test]
fn shared_cell_round_trips_float_bits() {
    let cell = SharedF32::new(0.0f32.to_bits());
    cell.store(0.707f32.to_bits());
    assert_eq!(f32::from_bits(cell.load()), 0.707f32);
    // Clones share the same cell.
    let other = cell.clone();
    other.store(0.25f32.to_bits());
    assert_eq!(f32::from_bits(cell.load()), 0.25f32);
}
