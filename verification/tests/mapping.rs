//! Tests for the device and actuator mapping stage.

use music_vibes::fixed::UNIT;
use music_vibes::mapping::{
    DeviceProps, DeviceSettings, MinCutoff, VibratorProps, VibratorSettings,
};

const U: i64 = UNIT;

fn plain_device(multiplier: i64, min: i64, max: i64, vibrators: Vec<VibratorProps>) -> DeviceProps {
    DeviceProps { is_enabled: true, multiplier, min, max, vibrators }
}

#[test]
fn min_cutoff_zeroes_below_threshold() {
    assert_eq!(250_000i64.min_cutoff(300_000), 0);
    assert_eq!(300_000i64.min_cutoff(300_000), 300_000);
    assert_eq!(350_000i64.min_cutoff(300_000), 350_000);
}

#[test]
fn cutoff_zeroes_output_but_keeps_visual() {
    // min_cutoff = 0.3, mapped speed 0.25: the actuator gets 0, the UI
    // still shows 0.25 with the below-minimum flag set.
    let dev = plain_device(U, 300_000, U, vec![]);
    let (visual, below_min) = dev.calculate_visual_output(250_000);
    assert_eq!(visual, 250_000);
    assert!(below_min);
    assert_eq!(dev.calculate_output(250_000), 0);
}

#[test]
fn visual_flag_clear_at_threshold() {
    let dev = plain_device(U, 300_000, U, vec![]);
    let (visual, below_min) = dev.calculate_visual_output(300_000);
    assert_eq!(visual, 300_000);
    assert!(!below_min);
    assert_eq!(dev.calculate_output(300_000), 300_000);
}

#[test]
fn clamp_caps_output_at_max() {
    // multiplier = 10, max = 0.5, level = 1.0: the mapped speed is exactly
    // 0.5, never above the clamp.
    let dev = plain_device(10 * U, 0, 500_000, vec![]);
    let (visual, below_min) = dev.calculate_visual_output(U);
    assert_eq!(visual, 500_000);
    assert!(!below_min);
    assert_eq!(dev.calculate_output(U), 500_000);
}

#[test]
fn disabled_device_transmits_zero() {
    let vibes = vec![
        VibratorProps { is_enabled: true, multiplier: U, min: 0, max: U },
        VibratorProps { is_enabled: true, multiplier: 5 * U, min: 0, max: U },
    ];
    let mut dev = plain_device(10 * U, 0, U, vibes);
    dev.is_enabled = false;
    assert_eq!(dev.device_command(U), vec![0, 0]);
}

#[test]
fn disabled_vibrator_transmits_zero_among_enabled() {
    let vibes = vec![
        VibratorProps { is_enabled: false, multiplier: 5 * U, min: 0, max: U },
        VibratorProps { is_enabled: true, multiplier: U, min: 0, max: U },
    ];
    let dev = plain_device(U, 0, U, vibes);
    assert_eq!(dev.device_command(600_000), vec![0, 600_000]);
}

#[test]
fn actuator_mapping_composes_on_device_speed() {
    // Device: multiplier 0.5; actuator: multiplier 2 clamped at 0.6.
    let vibes = vec![VibratorProps { is_enabled: true, multiplier: 2 * U, min: 0, max: 600_000 }];
    let dev = plain_device(500_000, 0, U, vibes);
    // level 0.8 -> device speed 0.4 -> actuator 0.8 clamped at 0.6.
    assert_eq!(dev.device_command(800_000), vec![600_000]);
}

#[test]
fn actuator_cutoff_applies_to_device_mapped_value() {
    // The actuator cutoff sees the device-mapped speed, not the raw level.
    let vibes = vec![VibratorProps { is_enabled: true, multiplier: U, min: 500_000, max: U }];
    let dev = plain_device(500_000, 0, U, vibes);
    // level 0.8 -> device speed 0.4 -> below the actuator cutoff 0.5.
    assert_eq!(dev.device_command(800_000), vec![0]);
    // level 1.0 -> device speed 0.5 -> at the cutoff, transmitted.
    assert_eq!(dev.device_command(U), vec![500_000]);
}

#[test]
fn device_cutoff_silences_every_actuator() {
    let vibes = vec![VibratorProps { is_enabled: true, multiplier: U, min: 0, max: U }];
    let dev = plain_device(U, 300_000, U, vibes);
    assert_eq!(dev.device_command(250_000), vec![0]);
}

#[test]
fn default_vibrator_props() {
    let v = VibratorProps::default();
    assert!(v.is_enabled);
    assert_eq!(v.multiplier, U);
    assert_eq!(v.min, 0);
    assert_eq!(v.max, U);
}

#[test]
fn from_settings_without_saved_state_uses_defaults() {
    let dev = DeviceProps::from_settings(3, None);
    assert!(!dev.is_enabled);
    assert_eq!(dev.multiplier, U);
    assert_eq!(dev.min, 0);
    assert_eq!(dev.max, U);
    assert_eq!(dev.vibrators.len(), 3);
    for v in &dev.vibrators {
        assert!(v.is_enabled);
        assert_eq!(v.multiplier, U);
    }
}

#[test]
fn from_settings_restores_and_pads() {
    let saved = DeviceSettings {
        is_enabled: true,
        multiplier: 2 * U,
        min: 100_000,
        max: 900_000,
        vibrators: vec![VibratorSettings {
            is_enabled: false,
            multiplier: 3 * U,
            min: 200_000,
            max: 800_000,
        }],
    };
    let dev = DeviceProps::from_settings(3, Some(&saved));
    // The device always starts disabled, whatever was saved.
    assert!(!dev.is_enabled);
    assert_eq!(dev.multiplier, 2 * U);
    assert_eq!(dev.min, 100_000);
    assert_eq!(dev.max, 900_000);
    assert_eq!(dev.vibrators.len(), 3);
    assert!(!dev.vibrators[0].is_enabled);
    assert_eq!(dev.vibrators[0].multiplier, 3 * U);
    assert_eq!(dev.vibrators[0].min, 200_000);
    assert_eq!(dev.vibrators[0].max, 800_000);
    assert!(dev.vibrators[1].is_enabled);
    assert_eq!(dev.vibrators[2].multiplier, U);
}

#[test]
fn from_settings_keeps_extra_saved_vibrators() {
    let saved = DeviceSettings {
        is_enabled: false,
        multiplier: U,
        min: 0,
        max: U,
        vibrators: vec![
            VibratorSettings { is_enabled: true, multiplier: U, min: 0, max: U },
            VibratorSettings { is_enabled: true, multiplier: 2 * U, min: 0, max: U },
        ],
    };
    let dev = DeviceProps::from_settings(1, Some(&saved));
    assert_eq!(dev.vibrators.len(), 2);
}

#[test]
fn to_settings_clears_enabled_flag() {
    let vibes = vec![VibratorProps { is_enabled: true, multiplier: 2 * U, min: 1, max: U }];
    let dev = plain_device(3 * U, 5, U, vibes);
    let saved = dev.to_settings();
    assert!(!saved.is_enabled);
    assert_eq!(saved.multiplier, 3 * U);
    assert_eq!(saved.min, 5);
    assert_eq!(saved.max, U);
    assert_eq!(saved.vibrators.len(), 1);
    assert!(saved.vibrators[0].is_enabled);
    assert_eq!(saved.vibrators[0].multiplier, 2 * U);
}
