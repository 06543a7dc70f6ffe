//! Core of a live telemetry chart for a picoammeter read over a serial
//! link: framing and decoding of the instrument's byte stream, the
//! append-only sample log with its follow/autoscale policy, and the
//! pan/zoom viewport that maps pixel input to a time/value window.
//!
//! All quantities are fixed-point integers: one domain unit (one second
//! on the time axis, one picoamp on the value axis) is `units::ONE`
//! micro-units. The host process owns the clock, the serial device and
//! the window; it feeds plain values (bytes, times, pixel coordinates)
//! into this crate and reads plain values back.

pub mod app;
pub mod config;
pub mod framing;
pub mod parse;
pub mod ports;
pub mod protocol;
pub mod units;
