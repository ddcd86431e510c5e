//! Per-device and per-actuator mapping of the vibration level.
//!
//! For each device the current vibration level is multiplied, clamped to the
//! device's maximum, and zeroed below the device's minimum cutoff; each
//! enabled sub-actuator then applies its own multiplier, clamp and cutoff to
//! the device-mapped value.  Disabled devices and disabled sub-actuators
//! always emit zero.

use crate::fixed::clamp_i64;
use crate::fixed::clamp_spec;
use crate::fixed::fp_mul;
use crate::fixed::lemma_fp_mul_unit_bound;
use crate::fixed::mul_unit;
use crate::fixed::UNIT;
use vstd::prelude::*;

verus! {

/// Largest mapping multiplier accepted; keeps fixed-point products inside
/// `i64`.
pub const MULTIPLIER_LIMIT: i64 = 0x8000_0000;

/// Zeroing of a value that falls below a minimum cutoff.
pub trait MinCutoff: Sized {
    /// What [`MinCutoff::min_cutoff`] returns.
    spec fn min_cutoff_spec(self, min: Self) -> Self;

    /// The value itself, or zero when it is below `min`.
    fn min_cutoff(self, min: Self) -> (r: Self)
        ensures
            r == self.min_cutoff_spec(min),
    ;
}

impl MinCutoff for i64 {
    open spec fn min_cutoff_spec(self, min: i64) -> i64 {
        if self < min {
            0
        } else {
            self
        }
    }

    fn min_cutoff(self, min: i64) -> (r: i64) {
        if self < min {
            0
        } else {
            self
        }
    }
}

/// Mapping parameters in range: a non-negative bounded multiplier and a
/// cutoff and clamp inside `[0, UNIT]`.
pub open spec fn params_wf(multiplier: i64, min: i64, max: i64) -> bool {
    &&& 0 <= multiplier <= MULTIPLIER_LIMIT
    &&& 0 <= min <= UNIT
    &&& 0 <= max <= UNIT
}

/// The mapped speed before the cutoff: the level times the multiplier,
/// clamped into `[0, max]`.
pub open spec fn mapped_speed(level: int, multiplier: int, max: int) -> int {
    clamp_spec(fp_mul(level, multiplier), 0, max)
}

/// The transmitted speed: the mapped speed, zeroed below `min`.
pub open spec fn transmitted_speed(level: int, multiplier: int, min: int, max: int) -> int {
    let s = mapped_speed(level, multiplier, max);
    if s < min {
        0
    } else {
        s
    }
}

/// The mapping laws: a mapped speed never exceeds the clamp `max` however
/// large the multiplier, and whenever it falls below the cutoff `min` the
/// transmitted speed is exactly zero while the mapped (visual) speed is
/// still reported.
pub proof fn lemma_mapping_bounds(level: int, multiplier: int, min: int, max: int)
    requires
        0 <= max,
    ensures
        0 <= mapped_speed(level, multiplier, max) <= max,
        mapped_speed(level, multiplier, max) < min ==> transmitted_speed(
            level,
            multiplier,
            min,
            max,
        ) == 0,
        mapped_speed(level, multiplier, max) >= min ==> transmitted_speed(
            level,
            multiplier,
            min,
            max,
        ) == mapped_speed(level, multiplier, max),
{
}

/// Saved per-actuator mapping parameters.
#[derive(Clone)]
pub struct VibratorSettings {
    pub is_enabled: bool,
    pub multiplier: i64,
    pub min: i64,
    pub max: i64,
}

impl VibratorSettings {
    pub open spec fn wf(&self) -> bool {
        params_wf(self.multiplier, self.min, self.max)
    }
}

/// Saved per-device mapping parameters, with one entry per sub-actuator.
#[derive(Clone)]
pub struct DeviceSettings {
    pub is_enabled: bool,
    pub multiplier: i64,
    pub min: i64,
    pub max: i64,
    pub vibrators: Vec<VibratorSettings>,
}

impl DeviceSettings {
    pub open spec fn wf(&self) -> bool {
        &&& params_wf(self.multiplier, self.min, self.max)
        &&& forall|i: int| 0 <= i < self.vibrators@.len() ==> (#[trigger] self.vibrators@[i]).wf()
    }
}

/// Live mapping state of one sub-actuator.
pub struct VibratorProps {
    pub is_enabled: bool,
    pub multiplier: i64,
    pub min: i64,
    pub max: i64,
}

/// The mapping state a freshly seen sub-actuator gets: enabled, unit
/// multiplier, no cutoff, full clamp.
pub open spec fn default_vibrator() -> VibratorProps {
    VibratorProps { is_enabled: true, multiplier: UNIT, min: 0, max: UNIT }
}

impl VibratorProps {
    pub open spec fn wf(&self) -> bool {
        params_wf(self.multiplier, self.min, self.max)
    }
}

impl Default for VibratorProps {
    /// Enabled, unit multiplier, no cutoff, full clamp.
    fn default() -> (r: Self)
        ensures
            r == default_vibrator(),
            r.wf(),
    {
        VibratorProps { is_enabled: true, multiplier: UNIT, min: 0, max: UNIT }
    }
}

/// Live mapping state of one device and its sub-actuators.
pub struct DeviceProps {
    pub is_enabled: bool,
    pub multiplier: i64,
    pub min: i64,
    pub max: i64,
    pub vibrators: Vec<VibratorProps>,
}

/// The speed sent to one sub-actuator, given the device-mapped speed: zero
/// when the actuator is disabled, otherwise its own mapping of the
/// device-mapped value.
pub open spec fn actuator_speed(device_speed: int, v: VibratorProps) -> int {
    if v.is_enabled {
        transmitted_speed(device_speed, v.multiplier as int, v.min as int, v.max as int)
    } else {
        0
    }
}

impl DeviceProps {
    pub open spec fn wf(&self) -> bool {
        &&& params_wf(self.multiplier, self.min, self.max)
        &&& forall|i: int| 0 <= i < self.vibrators@.len() ==> (#[trigger] self.vibrators@[i]).wf()
    }

    /// The device-mapped speed the UI reports, with the below-minimum flag:
    /// the cutoff does not strip the displayed magnitude.
    pub fn calculate_visual_output(&self, input: i64) -> (r: (i64, bool))
        requires
            self.wf(),
            0 <= input <= UNIT,
        ensures
            r.0 == mapped_speed(input as int, self.multiplier as int, self.max as int),
            r.1 == (r.0 < self.min),
            0 <= r.0 <= self.max,
    {
        let power = clamp_i64(mul_unit(input, self.multiplier), 0, self.max);
        (power, power < self.min)
    }

    /// The device-mapped speed that is actually transmitted: the visual
    /// speed, zeroed below the device's minimum cutoff.
    pub fn calculate_output(&self, input: i64) -> (r: i64)
        requires
            self.wf(),
            0 <= input <= UNIT,
        ensures
            r == transmitted_speed(input as int, self.multiplier as int, self.min as int, self.max as int),
            0 <= r <= self.max,
    {
        clamp_i64(mul_unit(input, self.multiplier), 0, self.max).min_cutoff(self.min)
    }

    /// The batched per-actuator command for one control tick: one speed per
    /// sub-actuator, in order.  A disabled device, and every disabled
    /// sub-actuator, transmits exactly zero.
    pub fn device_command(&self, level: i64) -> (speeds: Vec<i64>)
        requires
            self.wf(),
            0 <= level <= UNIT,
        ensures
            speeds@.len() == self.vibrators@.len(),
            forall|i: int|
                0 <= i < speeds@.len() ==> #[trigger] speeds@[i] == if self.is_enabled {
                    actuator_speed(
                        transmitted_speed(
                            level as int,
                            self.multiplier as int,
                            self.min as int,
                            self.max as int,
                        ),
                        self.vibrators@[i],
                    )
                } else {
                    0int
                },
            !self.is_enabled ==> forall|i: int| 0 <= i < speeds@.len() ==> #[trigger] speeds@[i] == 0,
            forall|i: int|
                0 <= i < speeds@.len() ==> !self.vibrators@[i].is_enabled ==> #[trigger] speeds@[i]
                    == 0,
            forall|i: int| 0 <= i < speeds@.len() ==> 0 <= #[trigger] speeds@[i] <= UNIT,
    {
        let device_speed: i64 = if self.is_enabled {
            self.calculate_output(level)
        } else {
            0
        };
        let ghost dsp = transmitted_speed(
            level as int,
            self.multiplier as int,
            self.min as int,
            self.max as int,
        );
        let mut speeds: Vec<i64> = Vec::new();
        let count = self.vibrators.len();
        let mut i: usize = 0;
        while i < count
            invariant
                0 <= i <= count,
                count == self.vibrators@.len(),
                self.wf(),
                0 <= device_speed <= UNIT,
                self.is_enabled ==> device_speed == dsp,
                !self.is_enabled ==> device_speed == 0,
                dsp == transmitted_speed(
                    level as int,
                    self.multiplier as int,
                    self.min as int,
                    self.max as int,
                ),
                speeds@.len() == i,
                forall|j: int|
                    0 <= j < i ==> #[trigger] speeds@[j] == if self.is_enabled {
                        actuator_speed(dsp, self.vibrators@[j])
                    } else {
                        0int
                    },
                forall|j: int| 0 <= j < i ==> 0 <= #[trigger] speeds@[j] <= UNIT,
            decreases count - i,
        {
            let v = &self.vibrators[i];
            let s: i64 = if self.is_enabled && v.is_enabled {
                proof {
                    lemma_fp_mul_unit_bound(device_speed as int, v.multiplier as int, MULTIPLIER_LIMIT as int);
                }
                clamp_i64(mul_unit(device_speed, v.multiplier), 0, v.max).min_cutoff(v.min)
            } else {
                0
            };
            speeds.push(s);
            i = i + 1;
        }
        speeds
    }

    /// Mapping state for a newly seen device: the saved settings when they
    /// are present (padded with default sub-actuators up to the reported
    /// count), defaults otherwise.  The device itself always starts
    /// disabled.
    pub fn from_settings(vibe_count: usize, saved: Option<&DeviceSettings>) -> (r: DeviceProps)
        requires
            saved matches Some(ds) ==> ds.wf(),
        ensures
            !r.is_enabled,
            r.wf(),
            match saved {
                Some(ds) => {
                    &&& r.multiplier == ds.multiplier
                    &&& r.min == ds.min
                    &&& r.max == ds.max
                    &&& r.vibrators@.len() == vstd::math::max(
                        vibe_count as int,
                        ds.vibrators@.len() as int,
                    )
                    &&& forall|i: int|
                        0 <= i < ds.vibrators@.len() ==> (#[trigger] r.vibrators@[i]).is_enabled
                            == ds.vibrators@[i].is_enabled && r.vibrators@[i].multiplier
                            == ds.vibrators@[i].multiplier && r.vibrators@[i].min
                            == ds.vibrators@[i].min && r.vibrators@[i].max == ds.vibrators@[i].max
                    &&& forall|i: int|
                        ds.vibrators@.len() <= i < r.vibrators@.len()
                            ==> #[trigger] r.vibrators@[i] == default_vibrator()
                },
                None => {
                    &&& r.multiplier == UNIT
                    &&& r.min == 0
                    &&& r.max == UNIT
                    &&& r.vibrators@.len() == vibe_count
                    &&& forall|i: int|
                        0 <= i < r.vibrators@.len() ==> #[trigger] r.vibrators@[i]
                            == default_vibrator()
                },
            },
    {
        match saved {
            Some(ds) => {
                let mut vib_props: Vec<VibratorProps> = Vec::new();
                let n = ds.vibrators.len();
                let mut i: usize = 0;
                while i < n
                    invariant
                        0 <= i <= n,
                        n == ds.vibrators@.len(),
                        ds.wf(),
                        vib_props@.len() == i,
                        forall|j: int|
                            0 <= j < i ==> (#[trigger] vib_props@[j]).is_enabled
                                == ds.vibrators@[j].is_enabled && vib_props@[j].multiplier
                                == ds.vibrators@[j].multiplier && vib_props@[j].min
                                == ds.vibrators@[j].min && vib_props@[j].max
                                == ds.vibrators@[j].max,
                        forall|j: int| 0 <= j < i ==> (#[trigger] vib_props@[j]).wf(),
                    decreases n - i,
                {
                    let vs = &ds.vibrators[i];
                    vib_props.push(
                        VibratorProps {
                            is_enabled: vs.is_enabled,
                            multiplier: vs.multiplier,
                            min: vs.min,
                            max: vs.max,
                        },
                    );
                    i = i + 1;
                }
                while vib_props.len() < vibe_count
                    invariant
                        n == ds.vibrators@.len(),
                        n <= vib_props@.len(),
                        vib_props@.len() <= n || vib_props@.len() <= vibe_count,
                        ds.wf(),
                        forall|j: int|
                            0 <= j < n ==> (#[trigger] vib_props@[j]).is_enabled
                                == ds.vibrators@[j].is_enabled && vib_props@[j].multiplier
                                == ds.vibrators@[j].multiplier && vib_props@[j].min
                                == ds.vibrators@[j].min && vib_props@[j].max
                                == ds.vibrators@[j].max,
                        forall|j: int|
                            n <= j < vib_props@.len() ==> #[trigger] vib_props@[j]
                                == default_vibrator(),
                        forall|j: int| 0 <= j < vib_props@.len() ==> (#[trigger] vib_props@[j]).wf(),
                    decreases vibe_count - vib_props@.len(),
                {
                    vib_props.push(VibratorProps::default());
                }
                DeviceProps {
                    is_enabled: false,
                    multiplier: ds.multiplier,
                    min: ds.min,
                    max: ds.max,
                    vibrators: vib_props,
                }
            },
            None => {
                let mut vib_props: Vec<VibratorProps> = Vec::new();
                let mut i: usize = 0;
                while i < vibe_count
                    invariant
                        0 <= i <= vibe_count,
                        vib_props@.len() == i,
                        forall|j: int|
                            0 <= j < i ==> #[trigger] vib_props@[j] == default_vibrator(),
                    decreases vibe_count - i,
                {
                    vib_props.push(VibratorProps::default());
                    i = i + 1;
                }
                DeviceProps {
                    is_enabled: false,
                    multiplier: UNIT,
                    min: 0,
                    max: UNIT,
                    vibrators: vib_props,
                }
            },
        }
    }

    /// The settings to save for this device: the mapping fields as they
    /// stand, with the device's enabled flag cleared so that a restored
    /// device starts disabled.
    pub fn to_settings(&self) -> (r: DeviceSettings)
        ensures
            !r.is_enabled,
            r.multiplier == self.multiplier,
            r.min == self.min,
            r.max == self.max,
            r.vibrators@.len() == self.vibrators@.len(),
            forall|i: int|
                0 <= i < self.vibrators@.len() ==> (#[trigger] r.vibrators@[i]).is_enabled
                    == self.vibrators@[i].is_enabled && r.vibrators@[i].multiplier
                    == self.vibrators@[i].multiplier && r.vibrators@[i].min
                    == self.vibrators@[i].min && r.vibrators@[i].max == self.vibrators@[i].max,
            self.wf() ==> r.wf(),
    {
        let mut vibrators: Vec<VibratorSettings> = Vec::new();
        let n = self.vibrators.len();
        let mut i: usize = 0;
        while i < n
            invariant
                0 <= i <= n,
                n == self.vibrators@.len(),
                vibrators@.len() == i,
                forall|j: int|
                    0 <= j < i ==> (#[trigger] vibrators@[j]).is_enabled
                        == self.vibrators@[j].is_enabled && vibrators@[j].multiplier
                        == self.vibrators@[j].multiplier && vibrators@[j].min
                        == self.vibrators@[j].min && vibrators@[j].max == self.vibrators@[j].max,
            decreases n - i,
        {
            let v = &self.vibrators[i];
            vibrators.push(
                VibratorSettings {
                    is_enabled: v.is_enabled,
                    multiplier: v.multiplier,
                    min: v.min,
                    max: v.max,
                },
            );
            i = i + 1;
        }
        DeviceSettings {
            is_enabled: false,
            multiplier: self.multiplier,
            min: self.min,
            max: self.max,
            vibrators,
        }
    }
}

} // verus!
