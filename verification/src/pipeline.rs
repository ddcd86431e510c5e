//! The acquisition loop's compute stage and the surrounding decisions.
//!
//! The loop itself lives outside the library: it sleeps, drains the capture
//! device into the ring buffer, and publishes the result.  Everything it
//! decides or computes between those edges is here: the sleep interval, the
//! filter-power-average chain over the buffered samples, and the fan-out of
//! channel powers onto a device's actuators.

use crate::filter::alpha_spec;
use crate::filter::filter_at;
use crate::filter::low_pass;
use crate::filter::SAMPLE_LIMIT;
use crate::filter::TIME_LIMIT;
use crate::fixed::clamp_i64;
use crate::fixed::clamp_spec;
use crate::fixed::fp_mul;
use crate::fixed::mul_unit;
use crate::fixed::UNIT;
use crate::mapping::MULTIPLIER_LIMIT;
use crate::power::avg;
use crate::power::calculate_power;
use crate::power::channel_power;
use crate::power::seq_sum;
use vstd::math::max;
use vstd::prelude::*;

verus! {

/// The filter's whole output buffer, as a sequence.
pub open spec fn filtered_view(x: Seq<i64>, a: int, ch: int) -> Seq<i64> {
    Seq::new(x.len(), |i: int| filter_at(a, ch, x, i) as i64)
}

/// The per-channel powers of a filtered buffer, as a sequence.
pub open spec fn powers_view(f: Seq<i64>, ch: int) -> Seq<i64> {
    Seq::new(ch as nat, |c: int| channel_power(f, ch, c) as i64)
}

/// The loudness scalar for one pass over the buffer: filter, per-channel
/// RMS power, cross-channel average, final clamp into `[0, UNIT]`.
pub open spec fn loudness_spec(x: Seq<i64>, dt: int, rc: int, ch: int) -> int {
    let f = filtered_view(x, alpha_spec(dt, rc), ch);
    let p = powers_view(f, ch);
    clamp_spec(seq_sum(p, ch) / ch, 0, UNIT as int)
}

/// One pass of the acquisition loop's compute stage over the buffered
/// samples: low-pass filter, per-channel RMS, cross-channel average.
pub fn process_buffer(samples: &Vec<i64>, dt: i64, rc: i64, channels: usize) -> (loudness: i64)
    requires
        0 <= dt <= TIME_LIMIT,
        0 <= rc <= TIME_LIMIT,
        0 < dt + rc,
        0 < channels <= samples@.len(),
        forall|i: int|
            0 <= i < samples@.len() ==> -SAMPLE_LIMIT <= #[trigger] samples@[i] <= SAMPLE_LIMIT,
    ensures
        loudness == loudness_spec(samples@, dt as int, rc as int, channels as int),
        0 <= loudness <= UNIT,
{
    let ghost a = alpha_spec(dt as int, rc as int);
    let ghost ch = channels as int;
    let filtered = low_pass(samples, dt, rc, channels);
    proof {
        assert(filtered@ =~= filtered_view(samples@, a, ch));
    }
    let powers = calculate_power(&filtered, channels);
    proof {
        assert(powers@ =~= powers_view(filtered@, ch));
    }
    let mean = avg(&powers);
    clamp_i64(mean, 0, UNIT)
}

/// The sleep interval (micro-seconds) before the next drain of the capture
/// device: a user-configured polling interval with a one-millisecond floor
/// when custom polling is on, otherwise the time to fill about half of the
/// capture device's internal buffer.
pub fn poll_interval_us(
    dur_us: u64,
    buffer_frames: u64,
    sample_rate: u64,
    use_custom: bool,
    custom_ms: u64,
) -> (r: u64)
    requires
        0 < sample_rate,
        dur_us <= 1_000_000_000,
        buffer_frames <= 1_000_000_000,
        custom_ms <= 1_000_000_000,
    ensures
        use_custom ==> r == max(custom_ms as int, 1) * 1000,
        !use_custom ==> r == (dur_us as int) * (buffer_frames as int) / (sample_rate as int) / 1000
            / 2,
{
    if use_custom {
        let ms = if custom_ms < 1 {
            1
        } else {
            custom_ms
        };
        ms * 1000
    } else {
        proof {
            assert(0 <= (dur_us as int) * (buffer_frames as int)
                <= 1_000_000_000_000_000_000int) by (nonlinear_arith)
                requires
                    0 <= dur_us as int <= 1_000_000_000,
                    0 <= buffer_frames as int <= 1_000_000_000,
            ;
        }
        dur_us * buffer_frames / sample_rate / 1000 / 2
    }
}

/// Why a single device could not be selected.
#[derive(Debug)]
pub enum GetDeviceError {
    /// No device is connected.
    ZeroDevices,
    /// More than one device is connected.
    MoreThanOneDevice,
}

/// Select the one connected device: its index when exactly one device is
/// present, an error otherwise.
pub fn get_device(device_count: usize) -> (r: Result<usize, GetDeviceError>)
    ensures
        device_count == 1 ==> r == Result::<usize, GetDeviceError>::Ok(0usize),
        device_count == 0 ==> r == Result::<usize, GetDeviceError>::Err(
            GetDeviceError::ZeroDevices,
        ),
        device_count > 1 ==> r == Result::<usize, GetDeviceError>::Err(
            GetDeviceError::MoreThanOneDevice,
        ),
{
    if device_count == 1 {
        Ok(0)
    } else if device_count == 0 {
        Err(GetDeviceError::ZeroDevices)
    } else {
        Err(GetDeviceError::MoreThanOneDevice)
    }
}

/// Fan channel powers out onto a device's actuators: one speed per channel
/// when stereo operation matches the actuator count, otherwise the scaled
/// cross-channel average replicated over every actuator.
pub fn fan_out_speeds(
    powers: &Vec<i64>,
    stereo: bool,
    vib_count: usize,
    channels: usize,
    multiply: i64,
) -> (speeds: Vec<i64>)
    requires
        0 < powers@.len(),
        forall|i: int| 0 <= i < powers@.len() ==> 0 <= #[trigger] powers@[i] <= UNIT,
        0 <= multiply <= MULTIPLIER_LIMIT,
    ensures
        stereo && vib_count == channels ==> speeds@.len() == powers@.len() && forall|i: int|
            0 <= i < speeds@.len() ==> #[trigger] speeds@[i] == clamp_spec(
                fp_mul(powers@[i] as int, multiply as int),
                0,
                UNIT as int,
            ),
        !(stereo && vib_count == channels) ==> speeds@.len() == vib_count && forall|i: int|
            0 <= i < speeds@.len() ==> #[trigger] speeds@[i] == clamp_spec(
                fp_mul(
                    seq_sum(powers@, powers@.len() as int) / (powers@.len() as int),
                    multiply as int,
                ),
                0,
                UNIT as int,
            ),
        forall|i: int| 0 <= i < speeds@.len() ==> 0 <= #[trigger] speeds@[i] <= UNIT,
{
    let mut speeds: Vec<i64> = Vec::new();
    if stereo && vib_count == channels {
        let n = powers.len();
        let mut i: usize = 0;
        while i < n
            invariant
                0 <= i <= n,
                n == powers@.len(),
                forall|j: int| 0 <= j < powers@.len() ==> 0 <= #[trigger] powers@[j] <= UNIT,
                0 <= multiply <= MULTIPLIER_LIMIT,
                speeds@.len() == i,
                forall|j: int|
                    0 <= j < i ==> #[trigger] speeds@[j] == clamp_spec(
                        fp_mul(powers@[j] as int, multiply as int),
                        0,
                        UNIT as int,
                    ),
                forall|j: int| 0 <= j < i ==> 0 <= #[trigger] speeds@[j] <= UNIT,
            decreases n - i,
        {
            let s = clamp_i64(mul_unit(powers[i], multiply), 0, UNIT);
            speeds.push(s);
            i = i + 1;
        }
    } else {
        let mean = avg(powers);
        let s = clamp_i64(mul_unit(mean, multiply), 0, UNIT);
        let mut i: usize = 0;
        while i < vib_count
            invariant
                0 <= i <= vib_count,
                s == clamp_spec(
                    fp_mul(
                        seq_sum(powers@, powers@.len() as int) / (powers@.len() as int),
                        multiply as int,
                    ),
                    0,
                    UNIT as int,
                ),
                0 <= s <= UNIT,
                speeds@.len() == i,
                forall|j: int| 0 <= j < i ==> #[trigger] speeds@[j] == s,
            decreases vib_count - i,
        {
            speeds.push(s);
            i = i + 1;
        }
    }
    speeds
}

} // verus!
