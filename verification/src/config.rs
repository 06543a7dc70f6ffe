//! The externally loaded settings the core consumes.
//!
//! Times are micro-seconds, currents micro-picoamps, the window span
//! micro-(time units), the time-zone offset micro-hours. The host loads
//! whatever the configuration file holds and passes it through
//! `Config::clamped`, which forces every numeric field into the range
//! the core's invariants need.

use vstd::prelude::*;

use crate::units::COORD_MAX;
use crate::units::INTERVAL_MAX;

verus! {

/// Largest magnitude accepted for a configured default current bound,
/// in micro-picoamps.
pub const PA_LIMIT: i64 = 2_000_000_000_000_000_000;

/// Largest magnitude accepted for the time-zone offset, in micro-hours.
pub const TZ_LIMIT: i64 = 1_000_000_000;

/// Clamp `v` into `[lo, hi]`.
pub open spec fn spec_clamp(v: int, lo: int, hi: int) -> int {
    if v < lo {
        lo
    } else if v > hi {
        hi
    } else {
        v
    }
}

/// Clamp a value into `[lo, hi]`.
pub fn clamp_i64(v: i64, lo: i64, hi: i64) -> (r: i64)
    requires
        lo <= hi,
    ensures
        r as int == spec_clamp(v as int, lo as int, hi as int),
{
    if v < lo {
        lo
    } else if v > hi {
        hi
    } else {
        v
    }
}

pub struct Config {
    /// Serial number the preferred instrument reports.
    pub serial_number: String,
    /// Manufacturer string of the preferred serial adapter.
    pub manufacturer: String,
    /// Interval between measurement requests, in micro-seconds.
    pub time_between_samples: i64,
    /// Offset the renderer adds to axis labels, in micro-hours.
    pub time_zone_hour_offset: i64,
    /// Top of the default value window, in micro-picoamps.
    pub default_max_picoamps: i64,
    /// Bottom of the default value window, in micro-picoamps.
    pub default_min_picoamps: i64,
    /// Default width of the time window, in micro-(time units).
    pub default_window_time: i64,
    pub stroke_width: u32,
    pub window_width: u32,
    pub window_height: u32,
    pub always_on_top: bool,
}

impl Config {
    /// The numeric fields lie in the ranges the viewport's invariant
    /// needs: a positive representable default window on both axes and
    /// a non-negative bounded sampling interval.
    pub open spec fn wf(self) -> bool {
        &&& 0 <= self.time_between_samples <= INTERVAL_MAX
        &&& -TZ_LIMIT <= self.time_zone_hour_offset <= TZ_LIMIT
        &&& -PA_LIMIT <= self.default_min_picoamps <= PA_LIMIT
        &&& self.default_min_picoamps + 1 <= self.default_max_picoamps
            <= self.default_min_picoamps + COORD_MAX
        &&& 1 <= self.default_window_time <= COORD_MAX
    }

    /// Build a well-formed configuration from raw loaded values, forcing
    /// each numeric field into range and the default value window to a
    /// positive span.
    pub fn clamped(
        serial_number: String,
        manufacturer: String,
        time_between_samples: i64,
        time_zone_hour_offset: i64,
        default_max_picoamps: i64,
        default_min_picoamps: i64,
        default_window_time: i64,
        stroke_width: u32,
        window_width: u32,
        window_height: u32,
        always_on_top: bool,
    ) -> (c: Config)
        ensures
            c.wf(),
            c.serial_number == serial_number,
            c.manufacturer == manufacturer,
            c.time_between_samples == spec_clamp(time_between_samples as int, 0, INTERVAL_MAX as int),
            c.time_zone_hour_offset == spec_clamp(
                time_zone_hour_offset as int,
                -TZ_LIMIT as int,
                TZ_LIMIT as int,
            ),
            c.default_min_picoamps == spec_clamp(
                default_min_picoamps as int,
                -PA_LIMIT as int,
                PA_LIMIT as int,
            ),
            c.default_max_picoamps == spec_clamp(
                default_max_picoamps as int,
                c.default_min_picoamps + 1,
                c.default_min_picoamps + COORD_MAX,
            ),
            c.default_window_time == spec_clamp(default_window_time as int, 1, COORD_MAX as int),
            c.stroke_width == stroke_width,
            c.window_width == window_width,
            c.window_height == window_height,
            c.always_on_top == always_on_top,
    {
        let min_pa = clamp_i64(default_min_picoamps, -PA_LIMIT, PA_LIMIT);
        let max_pa = clamp_i64(default_max_picoamps, min_pa + 1, min_pa + COORD_MAX);
        Config {
            serial_number,
            manufacturer,
            time_between_samples: clamp_i64(time_between_samples, 0, INTERVAL_MAX),
            time_zone_hour_offset: clamp_i64(time_zone_hour_offset, -TZ_LIMIT, TZ_LIMIT),
            default_max_picoamps: max_pa,
            default_min_picoamps: min_pa,
            default_window_time: clamp_i64(default_window_time, 1, COORD_MAX),
            stroke_width,
            window_width,
            window_height,
            always_on_top,
        }
    }
}

impl Default for Config {
    /// The built-in defaults: a 300 s window over -140 pA to 20 pA,
    /// sampled twice a second.
    fn default() -> (c: Config)
        ensures
            c.wf(),
            c.serial_number@ == "CZA"@,
            c.manufacturer@ == "Prolific"@,
            c.time_between_samples == 500_000,
            c.time_zone_hour_offset == -5_000_000,
            c.default_max_picoamps == 20_000_000,
            c.default_min_picoamps == -140_000_000,
            c.default_window_time == 300_000_000,
            c.stroke_width == 2,
            c.window_width == 960,
            c.window_height == 540,
            c.always_on_top == true,
    {
        Config {
            serial_number: "CZA".to_owned(),
            manufacturer: "Prolific".to_owned(),
            time_between_samples: 500_000,
            time_zone_hour_offset: -5_000_000,
            default_max_picoamps: 20_000_000,
            default_min_picoamps: -140_000_000,
            default_window_time: 300_000_000,
            stroke_width: 2,
            window_width: 960,
            window_height: 540,
            always_on_top: true,
        }
    }
}

} // verus!
