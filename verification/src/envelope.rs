//! Peak-hold/decay envelope persistence state machine.
//!
//! Once per control tick the machine consumes the raw loudness scalar and
//! produces a smoothed vibration level: a new peak is adopted immediately, a
//! drop is first held flat for a configurable grace period, and afterwards
//! the level falls at a constant rate, never below the current raw loudness.

use crate::fixed::clamp_spec;
use crate::fixed::fp_mul;
use crate::fixed::mul_unit;
use crate::fixed::UNIT;
use vstd::math::max;
use vstd::prelude::*;

verus! {

/// Hold delays shorter than this (one millisecond, in micro-seconds) are
/// treated as no hold at all.
pub const MIN_HOLD_US: u64 = 1000;

/// Largest decay rate (scaled units per second) the machine accepts; keeps
/// the decay product inside the fixed-point multipliers' range.
pub const RATE_LIMIT: i64 = 0x8000_0000;

/// Largest tick length (micro-seconds) the machine accepts.
pub const DELTA_LIMIT: u64 = 0x8000_0000;

/// Largest main-volume factor accepted by [`scale_loudness`]; keeps the
/// squared volume inside the fixed-point multipliers' range.
pub const VOLUME_LIMIT: i64 = 32_000_000;

/// Configuration of the envelope persistence stage.
pub struct PersistenceConfig {
    /// Whether persistence is applied at all; when off, the raw loudness
    /// passes straight through.
    pub enabled: bool,
    /// Grace period (micro-seconds) after a loudness drop during which the
    /// level is held flat.
    pub hold_delay_us: u64,
    /// Rate (scaled units per second) at which the level falls once the
    /// hold window has elapsed; a non-positive rate snaps the level straight
    /// to the raw loudness.
    pub decay_rate_per_sec: i64,
}

impl PersistenceConfig {
    /// A configuration the machine can run with.
    pub open spec fn wf(&self) -> bool {
        self.decay_rate_per_sec <= RATE_LIMIT
    }
}

impl Default for PersistenceConfig {
    /// Persistence off, no hold, a decay of two units per second.
    fn default() -> (r: Self)
        ensures
            !r.enabled,
            r.hold_delay_us == 0,
            r.decay_rate_per_sec == 2 * UNIT,
            r.wf(),
    {
        PersistenceConfig { enabled: false, hold_delay_us: 0, decay_rate_per_sec: 2 * UNIT }
    }
}

/// The envelope's state between control ticks.
pub struct EnvelopeState {
    /// The persisted vibration level, always in `[0, UNIT]`.
    pub current_level: i64,
    /// The time (micro-seconds) at which a drop below the held level was
    /// first observed, while the hold window is relevant.
    pub hold_started_at: Option<u64>,
}

/// How much the level falls in one tick: the decay rate times the tick
/// length in seconds.
pub open spec fn decay_amount(rate: int, delta_us: int) -> int {
    (rate * delta_us) / (UNIT as int)
}

/// The hold window is open at `now_us`: a drop was recorded and the hold
/// delay has not yet elapsed.
pub open spec fn held(prev: EnvelopeState, now_us: int, cfg: PersistenceConfig) -> bool {
    match prev.hold_started_at {
        None => false,
        Some(t) => now_us - t < cfg.hold_delay_us,
    }
}

/// The hold window does not apply at `now_us`: either no drop was recorded
/// and the configured delay is below the threshold, or the recorded hold
/// has elapsed.
pub open spec fn hold_over(prev: EnvelopeState, now_us: int, cfg: PersistenceConfig) -> bool {
    match prev.hold_started_at {
        None => cfg.hold_delay_us < MIN_HOLD_US,
        Some(t) => now_us - t >= cfg.hold_delay_us,
    }
}

/// The envelope transition: the state after one control tick that consumed
/// the raw loudness `raw` at time `now_us`, `delta_us` after the previous
/// tick.
pub open spec fn envelope_next(
    prev: EnvelopeState,
    raw: int,
    now_us: int,
    delta_us: int,
    cfg: PersistenceConfig,
) -> EnvelopeState {
    let level = prev.current_level as int;
    let unit = UNIT as int;
    if !cfg.enabled {
        EnvelopeState { current_level: clamp_spec(raw, 0, unit) as i64, hold_started_at: None }
    } else if raw >= level {
        EnvelopeState { current_level: clamp_spec(raw, 0, unit) as i64, hold_started_at: None }
    } else {
        match prev.hold_started_at {
            None => {
                if cfg.hold_delay_us >= MIN_HOLD_US {
                    EnvelopeState {
                        current_level: clamp_spec(level, 0, unit) as i64,
                        hold_started_at: Some(now_us as u64),
                    }
                } else if cfg.decay_rate_per_sec <= 0 {
                    EnvelopeState {
                        current_level: clamp_spec(raw, 0, unit) as i64,
                        hold_started_at: None,
                    }
                } else {
                    EnvelopeState {
                        current_level: clamp_spec(
                            max(
                                level - decay_amount(cfg.decay_rate_per_sec as int, delta_us),
                                raw,
                            ),
                            0,
                            unit,
                        ) as i64,
                        hold_started_at: None,
                    }
                }
            },
            Some(t) => {
                if now_us - t >= cfg.hold_delay_us {
                    if cfg.decay_rate_per_sec <= 0 {
                        EnvelopeState {
                            current_level: clamp_spec(raw, 0, unit) as i64,
                            hold_started_at: None,
                        }
                    } else {
                        EnvelopeState {
                            current_level: clamp_spec(
                                max(
                                    level - decay_amount(cfg.decay_rate_per_sec as int, delta_us),
                                    raw,
                                ),
                                0,
                                unit,
                            ) as i64,
                            hold_started_at: Some(t),
                        }
                    }
                } else {
                    EnvelopeState {
                        current_level: clamp_spec(level, 0, unit) as i64,
                        hold_started_at: Some(t),
                    }
                }
            },
        }
    }
}

impl EnvelopeState {
    /// A state the machine can run with.
    pub open spec fn wf(&self) -> bool {
        0 <= self.current_level <= UNIT
    }

    /// The state at control-loop start: level zero, no hold.
    pub fn new() -> (r: Self)
        ensures
            r.current_level == 0,
            r.hold_started_at is None,
            r.wf(),
    {
        EnvelopeState { current_level: 0, hold_started_at: None }
    }

    /// One control tick.
    ///
    /// The caller supplies a monotonic clock reading `now_us` and the time
    /// `delta_us` since the previous tick.
    pub fn tick(&mut self, raw: i64, now_us: u64, delta_us: u64, cfg: &PersistenceConfig)
        requires
            old(self).wf(),
            cfg.wf(),
            0 <= raw <= UNIT,
            delta_us <= DELTA_LIMIT,
            old(self).hold_started_at matches Some(t) ==> t <= now_us,
        ensures
            *final(self) == envelope_next(
                *old(self),
                raw as int,
                now_us as int,
                delta_us as int,
                *cfg,
            ),
            final(self).wf(),
            final(self).hold_started_at matches Some(t) ==> t <= now_us,
            // Persistence off: the raw loudness passes straight through.
            !cfg.enabled ==> final(self).current_level == raw
                && final(self).hold_started_at is None,
            // A new peak is adopted immediately, with no smoothing upward.
            cfg.enabled && raw >= old(self).current_level ==> final(self).current_level == raw
                && final(self).hold_started_at is None,
            // Inside the hold window the peak is held flat.
            cfg.enabled && raw < old(self).current_level && held(*old(self), now_us as int, *cfg)
                ==> final(self).current_level == old(self).current_level,
            // Once the hold window has elapsed (or never applied) the level
            // decays linearly, floored at the raw loudness.
            cfg.enabled && raw < old(self).current_level && 0 < cfg.decay_rate_per_sec && hold_over(
                *old(self),
                now_us as int,
                *cfg,
            ) ==> final(self).current_level == max(
                old(self).current_level - decay_amount(
                    cfg.decay_rate_per_sec as int,
                    delta_us as int,
                ),
                raw as int,
            ),
            // A non-positive decay rate snaps the level to the raw loudness.
            cfg.enabled && raw < old(self).current_level && cfg.decay_rate_per_sec <= 0 && hold_over(
                *old(self),
                now_us as int,
                *cfg,
            ) ==> final(self).current_level == raw,
    {
        if !cfg.enabled {
            self.current_level = raw;
            self.hold_started_at = None;
            return ;
        }
        if raw >= self.current_level {
            self.current_level = raw;
            self.hold_started_at = None;
            return ;
        }
        match self.hold_started_at {
            None => {
                if cfg.hold_delay_us >= MIN_HOLD_US {
                    self.hold_started_at = Some(now_us);
                } else if cfg.decay_rate_per_sec <= 0 {
                    self.current_level = raw;
                } else {
                    self.current_level = decayed_level(
                        self.current_level,
                        raw,
                        cfg.decay_rate_per_sec,
                        delta_us,
                    );
                }
            },
            Some(t) => {
                if now_us - t >= cfg.hold_delay_us {
                    if cfg.decay_rate_per_sec <= 0 {
                        self.current_level = raw;
                        self.hold_started_at = None;
                    } else {
                        self.current_level = decayed_level(
                            self.current_level,
                            raw,
                            cfg.decay_rate_per_sec,
                            delta_us,
                        );
                    }
                }
            },
        }
    }
}

/// The decayed level for one tick: the old level less the decay amount, but
/// never below the raw loudness.
fn decayed_level(level: i64, raw: i64, rate: i64, delta_us: u64) -> (r: i64)
    requires
        0 <= raw <= level <= UNIT,
        0 < rate <= RATE_LIMIT,
        delta_us <= DELTA_LIMIT,
    ensures
        r == max(level - decay_amount(rate as int, delta_us as int), raw as int),
        raw <= r <= level,
{
    proof {
        assert(0 <= (rate as int) * (delta_us as int) <= 0x4000_0000_0000_0000int)
            by (nonlinear_arith)
            requires
                0 < rate as int <= RATE_LIMIT as int,
                0 <= delta_us as int <= DELTA_LIMIT as int,
                RATE_LIMIT == 0x8000_0000i64,
                DELTA_LIMIT == 0x8000_0000u64,
        ;
        vstd::arithmetic::div_mod::lemma_div_pos_is_pos(
            (rate as int) * (delta_us as int),
            UNIT as int,
        );
    }
    let amount: u128 = (rate as u128) * (delta_us as u128) / (UNIT as u128);
    if amount >= (level as u128) {
        raw
    } else {
        let fallen: i64 = level - (amount as i64);
        if fallen >= raw {
            fallen
        } else {
            raw
        }
    }
}

/// Scale the raw loudness by the squared main-volume factor, clamped into
/// `[0, UNIT]`: the per-tick pre-scaling applied before the envelope runs.
pub fn scale_loudness(raw: i64, main_volume: i64) -> (r: i64)
    requires
        0 <= raw <= UNIT,
        0 <= main_volume <= VOLUME_LIMIT,
    ensures
        r == clamp_spec(
            fp_mul(raw as int, fp_mul(main_volume as int, main_volume as int)),
            0,
            UNIT as int,
        ),
        0 <= r <= UNIT,
{
    let vol2 = mul_unit(main_volume, main_volume);
    proof {
        assert(0 <= fp_mul(main_volume as int, main_volume as int) <= 0x8000_0000int) by {
            assert(0 <= (main_volume as int) * (main_volume as int) <= 0x8000_0000int * (
            UNIT as int)) by (nonlinear_arith)
                requires
                    0 <= main_volume as int <= VOLUME_LIMIT as int,
                    VOLUME_LIMIT == 32_000_000i64,
            ;
            vstd::arithmetic::div_mod::lemma_div_pos_is_pos(
                (main_volume as int) * (main_volume as int),
                UNIT as int,
            );
            vstd::arithmetic::div_mod::lemma_div_is_ordered(
                (main_volume as int) * (main_volume as int),
                0x8000_0000int * (UNIT as int),
                UNIT as int,
            );
            vstd::arithmetic::div_mod::lemma_div_multiples_vanish(0x8000_0000int, UNIT as int);
            assert(0x8000_0000int * (UNIT as int) == (UNIT as int) * 0x8000_0000int)
                by (nonlinear_arith);
        }
    }
    let scaled = mul_unit(raw, vol2);
    crate::fixed::clamp_i64(scaled, 0, UNIT)
}

} // verus!
