//! Fixed-point arithmetic for the chart's domain quantities.
//!
//! One domain unit (one second of elapsed time, one picoamp of current)
//! is `ONE` micro-units; every coordinate, span, sample time and sample
//! value in the crate is such a micro-unit count held in an `i64`.
//! Saturation keeps every stored quantity inside fixed bounds so that
//! no operation of the core can overflow or collapse a span to zero.

use vstd::prelude::*;

verus! {

/// One domain unit (1 s or 1 pA) in micro-units.
pub const ONE: i64 = 1_000_000;

/// Largest magnitude a viewport coordinate or span may take.
pub const COORD_MAX: i64 = 4_000_000_000_000_000_000;

/// Largest magnitude of a decoded sample value, in micro-picoamps.
pub const VALUE_MAX: i64 = 1_000_000_000_000_000_000;

/// Largest sample time accepted, in micro-seconds since process start.
pub const TIME_MAX: i64 = 2_000_000_000_000_000_000;

/// Largest configured interval between measurement requests, in micro-seconds.
pub const INTERVAL_MAX: i64 = 1_000_000_000_000;

/// Largest pixel dimension or pad accepted from the host window.
pub const PIXEL_MAX: i64 = 100_000;

/// Clamp an unbounded coordinate into `[-COORD_MAX, COORD_MAX]`.
pub open spec fn sat_coord(v: int) -> int {
    if v < -COORD_MAX {
        -COORD_MAX as int
    } else if v > COORD_MAX {
        COORD_MAX as int
    } else {
        v
    }
}

/// Clamp an unbounded span into `[1, COORD_MAX]`, keeping it positive.
pub open spec fn sat_span(v: int) -> int {
    if v < 1 {
        1
    } else if v > COORD_MAX {
        COORD_MAX as int
    } else {
        v
    }
}

/// `a * b / d` rounded toward zero: the crate's exact model of a scale
/// factor applied to a pixel delta.
pub open spec fn spec_mul_div(a: int, b: int, d: int) -> int
    recommends
        d > 0,
{
    let p = a * b;
    if p >= 0 {
        p / d
    } else {
        -((-p) / d)
    }
}

/// `10^n`.
pub open spec fn pow10(n: nat) -> int
    decreases n,
{
    if n == 0 {
        1
    } else {
        10 * pow10((n - 1) as nat)
    }
}

pub proof fn lemma_pow10_pos(n: nat)
    ensures
        pow10(n) >= 1,
    decreases n,
{
    if n > 0 {
        lemma_pow10_pos((n - 1) as nat);
    }
}

pub proof fn lemma_pow10_mono(m: nat, n: nat)
    requires
        m <= n,
    ensures
        pow10(m) <= pow10(n),
    decreases n,
{
    if m < n {
        lemma_pow10_mono(m, (n - 1) as nat);
        lemma_pow10_pos((n - 1) as nat);
    }
}

/// Clamp a wide intermediate into a storable coordinate.
pub fn clamp_coord(v: i128) -> (r: i64)
    ensures
        r as int == sat_coord(v as int),
{
    if v < -COORD_MAX as i128 {
        -COORD_MAX
    } else if v > COORD_MAX as i128 {
        COORD_MAX
    } else {
        v as i64
    }
}

/// Clamp a wide intermediate into a storable, strictly positive span.
pub fn clamp_span(v: i128) -> (r: i64)
    ensures
        r as int == sat_span(v as int),
{
    if v < 1 {
        1
    } else if v > COORD_MAX as i128 {
        COORD_MAX
    } else {
        v as i64
    }
}

/// `a * b / d` rounded toward zero, computed without overflow: one
/// factor is of `i64` magnitude and the other of pixel-delta magnitude,
/// so the result stays far inside `i128` and sums of such terms with
/// coordinates cannot overflow.
pub fn mul_div(a: i128, b: i128, d: i128) -> (r: i128)
    requires
        d > 0,
        -0x8000_0000_0000_0000 <= a <= 0x8000_0000_0000_0000,
        -0x8000_0000_0000_0000 <= b <= 0x8000_0000_0000_0000,
        (-0x100_0000_0000 <= a <= 0x100_0000_0000) || (-0x100_0000_0000 <= b <= 0x100_0000_0000),
    ensures
        r == spec_mul_div(a as int, b as int, d as int),
        -0x1_0000_0000_0000_0000_0000_0000_00 <= r <= 0x1_0000_0000_0000_0000_0000_0000_00,
{
    proof {
        if -0x100_0000_0000 <= a <= 0x100_0000_0000 {
            assert(-0x1_0000_0000_0000_0000_0000_0000_00 <= a * b
                <= 0x1_0000_0000_0000_0000_0000_0000_00) by (nonlinear_arith)
                requires
                    -0x100_0000_0000 <= a <= 0x100_0000_0000,
                    -0x8000_0000_0000_0000 <= b <= 0x8000_0000_0000_0000,
            ;
        } else {
            assert(-0x1_0000_0000_0000_0000_0000_0000_00 <= a * b
                <= 0x1_0000_0000_0000_0000_0000_0000_00) by (nonlinear_arith)
                requires
                    -0x8000_0000_0000_0000 <= a <= 0x8000_0000_0000_0000,
                    -0x100_0000_0000 <= b <= 0x100_0000_0000,
            ;
        }
    }
    let p: i128 = a * b;
    if p >= 0 {
        let q: u128 = (p as u128) / (d as u128);
        proof {
            vstd::arithmetic::div_mod::lemma_div_basics_5(p as int, d as int);
        }
        q as i128
    } else {
        let q: u128 = ((-p) as u128) / (d as u128);
        proof {
            vstd::arithmetic::div_mod::lemma_div_basics_5(-p as int, d as int);
        }
        -(q as i128)
    }
}

} // verus!
