//! Verified core of an audio-driven actuator controller.
//!
//! The library derives a smoothed, clamped actuation signal from live audio
//! loudness and fans it out to a variable number of independently configured
//! actuators.  The pipeline is: a fixed-capacity sample ring buffer, a
//! single-pole low-pass filter, per-channel RMS power extraction with
//! cross-channel averaging, a peak-hold/decay envelope state machine, and a
//! per-device/per-actuator mapping stage (multiplier, minimum cutoff, maximum
//! clamp).
//!
//! All signal values are fixed-point integers in micro-units: the integer
//! [`fixed::UNIT`] stands for the real value `1.0`.  Audio capture and the
//! device transport are external collaborators; they exchange plain scaled
//! integers with this library at its boundary.

pub mod envelope;
pub mod filter;
pub mod fixed;
pub mod mapping;
pub mod pipeline;
pub mod power;
pub mod ring;
pub mod shared;
