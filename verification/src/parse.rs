//! Decoding of one textual frame into a sample value.
//!
//! The instrument reports a current in amps as ASCII decimal text,
//! optionally in exponential notation: an optional sign, digits with at
//! most one decimal point (at least one digit in all), and an optional
//! exponent of `e` or `E`, an optional sign and one to four digits. The
//! decoded value is stored in micro-picoamps, so the reading is scaled
//! by 10^18; a frame whose significand exceeds `MANT_MAX` or whose
//! scaled magnitude exceeds `units::VALUE_MAX` is rejected as malformed,
//! and digits below the micro-picoamp are truncated toward zero.

use vstd::arithmetic::div_mod::lemma_basic_div;
use vstd::arithmetic::div_mod::lemma_div_basics_5;
use vstd::prelude::*;

use crate::units::lemma_pow10_mono;
use crate::units::lemma_pow10_pos;
use crate::units::pow10;
use crate::units::VALUE_MAX;

verus! {

/// Largest significand accepted, read as an integer with the decimal
/// point removed.
pub const MANT_MAX: u64 = 1_000_000_000_000_000_000;

/// Decimal shift from amps to micro-picoamps.
pub const PICO_SHIFT: i64 = 18;

pub open spec fn is_digit(b: u8) -> bool {
    48 <= b <= 57
}

pub open spec fn digit_val(b: u8) -> int {
    b - 48
}

/// Length of the run of ASCII digits starting at `i`.
pub open spec fn digit_run(q: Seq<u8>, i: int) -> int
    decreases q.len() - i,
{
    if i < 0 || i >= q.len() || !is_digit(q[i]) {
        0
    } else {
        1 + digit_run(q, i + 1)
    }
}

/// The integer a sequence of ASCII digits denotes.
pub open spec fn digits_int(s: Seq<u8>) -> int
    decreases s.len(),
{
    if s.len() == 0 {
        0
    } else {
        digits_int(s.drop_last()) * 10 + digit_val(s.last())
    }
}

pub open spec fn sign_len(q: Seq<u8>) -> int {
    if q.len() > 0 && (q[0] == 43 || q[0] == 45) {
        1
    } else {
        0
    }
}

pub open spec fn is_neg(q: Seq<u8>) -> bool {
    q.len() > 0 && q[0] == 45
}

/// End of the integer-part digit run.
pub open spec fn int_end(q: Seq<u8>) -> int {
    sign_len(q) + digit_run(q, sign_len(q))
}

pub open spec fn has_dot(q: Seq<u8>) -> bool {
    int_end(q) < q.len() && q[int_end(q)] == 46
}

/// End of the significand: past the fraction digits if a point is there.
pub open spec fn mant_end(q: Seq<u8>) -> int {
    if has_dot(q) {
        int_end(q) + 1 + digit_run(q, int_end(q) + 1)
    } else {
        int_end(q)
    }
}

/// The significand's digits with the decimal point removed.
pub open spec fn mant_digits(q: Seq<u8>) -> Seq<u8> {
    if has_dot(q) {
        q.subrange(sign_len(q), int_end(q)) + q.subrange(int_end(q) + 1, mant_end(q))
    } else {
        q.subrange(sign_len(q), int_end(q))
    }
}

/// Number of digits after the decimal point.
pub open spec fn frac_len(q: Seq<u8>) -> int {
    if has_dot(q) {
        mant_end(q) - (int_end(q) + 1)
    } else {
        0
    }
}

pub open spec fn has_exp(q: Seq<u8>) -> bool {
    mant_end(q) < q.len() && (q[mant_end(q)] == 101 || q[mant_end(q)] == 69)
}

pub open spec fn exp_sign_len(q: Seq<u8>) -> int {
    if has_exp(q) && mant_end(q) + 1 < q.len() && (q[mant_end(q) + 1] == 43 || q[mant_end(q) + 1]
        == 45) {
        1
    } else {
        0
    }
}

pub open spec fn exp_neg(q: Seq<u8>) -> bool {
    has_exp(q) && mant_end(q) + 1 < q.len() && q[mant_end(q) + 1] == 45
}

/// Start of the exponent's digit run.
pub open spec fn exp_start(q: Seq<u8>) -> int {
    mant_end(q) + 1 + exp_sign_len(q)
}

pub open spec fn exp_digit_count(q: Seq<u8>) -> int {
    digit_run(q, exp_start(q))
}

/// The signed exponent the frame spells out; zero when none is written.
pub open spec fn exp_val(q: Seq<u8>) -> int {
    if !has_exp(q) {
        0
    } else {
        let m = digits_int(q.subrange(exp_start(q), exp_start(q) + exp_digit_count(q)));
        if exp_neg(q) {
            -m
        } else {
            m
        }
    }
}

/// Whether what follows the significand is a well-formed exponent part.
pub open spec fn exp_part_ok(q: Seq<u8>) -> bool {
    if has_exp(q) {
        1 <= exp_digit_count(q) <= 4 && exp_start(q) + exp_digit_count(q) == q.len()
    } else {
        mant_end(q) == q.len()
    }
}

/// Whether the frame matches the numeric grammar.
pub open spec fn grammar_ok(q: Seq<u8>) -> bool {
    mant_digits(q).len() >= 1 && exp_part_ok(q)
}

/// The significand read as an integer.
pub open spec fn mant_val(q: Seq<u8>) -> int {
    digits_int(mant_digits(q))
}

/// Power of ten between the significand and the stored micro-picoamps.
pub open spec fn scale_of(q: Seq<u8>) -> int {
    exp_val(q) - frac_len(q) + PICO_SHIFT
}

/// A significand scaled by `10^k`, truncated toward zero for `k < 0`.
pub open spec fn spec_scaled(m: int, k: int) -> int {
    if k >= 0 {
        m * pow10(k as nat)
    } else {
        m / pow10((-k) as nat)
    }
}

/// Magnitude of the frame's reading in micro-picoamps, truncated
/// toward zero.
pub open spec fn raw_val(q: Seq<u8>) -> int {
    spec_scaled(mant_val(q), scale_of(q))
}

/// Whether the frame decodes to a sample value.
pub open spec fn frame_ok(q: Seq<u8>) -> bool {
    grammar_ok(q) && mant_val(q) <= MANT_MAX && raw_val(q) <= VALUE_MAX
}

/// The decoded sample value in micro-picoamps.
pub open spec fn frame_val(q: Seq<u8>) -> int {
    if is_neg(q) {
        -raw_val(q)
    } else {
        raw_val(q)
    }
}

pub proof fn lemma_digits_int_nonneg(s: Seq<u8>)
    requires
        forall|j: int| 0 <= j < s.len() ==> is_digit(#[trigger] s[j]),
    ensures
        digits_int(s) >= 0,
    decreases s.len(),
{
    if s.len() > 0 {
        lemma_digits_int_nonneg(s.drop_last());
    }
}

/// Reading digits `a` then digits `b` denotes `a` shifted left by
/// `b.len()` decimal places, plus `b`.
pub proof fn lemma_digits_int_append(a: Seq<u8>, b: Seq<u8>)
    ensures
        digits_int(a + b) == digits_int(a) * pow10(b.len()) + digits_int(b),
    decreases b.len(),
{
    if b.len() == 0 {
        assert(a + b =~= a);
    } else {
        lemma_digits_int_append(a, b.drop_last());
        assert((a + b).drop_last() =~= a + b.drop_last());
        assert((a + b).last() == b.last());
        let x = digits_int(a);
        let p = pow10((b.len() - 1) as nat);
        assert((x * p + digits_int(b.drop_last())) * 10 == x * (10 * p) + digits_int(
            b.drop_last(),
        ) * 10) by (nonlinear_arith);
    }
}

/// A digit string denotes less than ten to its length.
pub proof fn lemma_digits_int_bound(s: Seq<u8>)
    requires
        forall|j: int| 0 <= j < s.len() ==> is_digit(#[trigger] s[j]),
    ensures
        digits_int(s) < pow10(s.len()),
    decreases s.len(),
{
    if s.len() > 0 {
        lemma_digits_int_bound(s.drop_last());
        let x = digits_int(s.drop_last());
        let p = pow10((s.len() - 1) as nat);
        assert(x <= p - 1);
        assert(x * 10 <= (p - 1) * 10) by (nonlinear_arith)
            requires
                x <= p - 1,
        ;
    }
}

/// Appending further digits cannot shrink the denoted integer.
pub proof fn lemma_digits_int_prefix_le(a: Seq<u8>, b: Seq<u8>)
    requires
        forall|j: int| 0 <= j < a.len() ==> is_digit(#[trigger] a[j]),
        forall|j: int| 0 <= j < b.len() ==> is_digit(#[trigger] b[j]),
    ensures
        digits_int(a) <= digits_int(a + b),
    decreases b.len(),
{
    lemma_digits_int_append(a, b);
    lemma_digits_int_nonneg(a);
    lemma_digits_int_nonneg(b);
    lemma_pow10_pos(b.len());
    let x = digits_int(a);
    let p = pow10(b.len());
    assert(x * p >= x) by (nonlinear_arith)
        requires
            x >= 0,
            p >= 1,
    ;
}

/// Concrete powers of ten the decoder's bounds rest on.
pub proof fn lemma_pow10_values()
    ensures
        pow10(4) == 10_000,
        pow10(18) == 1_000_000_000_000_000_000,
        pow10(19) == 10_000_000_000_000_000_000,
{
    reveal_with_fuel(pow10, 20);
}

/// `10^k` for `k` up to 18.
fn pow10_u64(k: u32) -> (r: u64)
    requires
        k <= 18,
    ensures
        r as int == pow10(k as nat),
{
    let mut acc: u64 = 1;
    let mut i: u32 = 0;
    while i < k
        invariant
            i <= k <= 18,
            acc as int == pow10(i as nat),
        decreases k - i,
    {
        proof {
            lemma_pow10_mono((i + 1) as nat, 18);
            lemma_pow10_values();
        }
        acc = acc * 10;
        i = i + 1;
    }
    acc
}

/// Index just past the run of ASCII digits starting at `start`.
fn scan_digits(v: &Vec<u8>, start: usize) -> (end: usize)
    requires
        start <= v@.len(),
    ensures
        start <= end <= v@.len(),
        end - start == digit_run(v@, start as int),
        forall|j: int| start <= j < end ==> is_digit(#[trigger] v@[j]),
{
    let n = v.len();
    let mut i: usize = start;
    while i < n && v[i] >= 48 && v[i] <= 57
        invariant
            start <= i <= n,
            n == v@.len(),
            digit_run(v@, start as int) == i - start + digit_run(v@, i as int),
            forall|j: int| start <= j < i ==> is_digit(#[trigger] v@[j]),
        decreases n - i,
    {
        i = i + 1;
    }
    i
}

/// The integer denoted by the digits of `v` in `[start, end)`, or `None`
/// if it exceeds `MANT_MAX`.
fn digits_value(v: &Vec<u8>, start: usize, end: usize) -> (r: Option<u64>)
    requires
        start <= end <= v@.len(),
        forall|j: int| start <= j < end ==> is_digit(#[trigger] v@[j]),
    ensures
        match r {
            Some(m) => m as int == digits_int(v@.subrange(start as int, end as int)) && m
                <= MANT_MAX,
            None => digits_int(v@.subrange(start as int, end as int)) > MANT_MAX,
        },
{
    let mut acc: u64 = 0;
    let mut j: usize = start;
    while j < end
        invariant
            start <= j <= end <= v@.len(),
            forall|k: int| start <= k < end ==> is_digit(#[trigger] v@[k]),
            acc as int == digits_int(v@.subrange(start as int, j as int)),
            acc <= MANT_MAX,
        decreases end - j,
    {
        let d = v[j] - 48;
        let next = acc * 10 + (d as u64);
        proof {
            let pre = v@.subrange(start as int, j as int);
            let cur = v@.subrange(start as int, j + 1);
            assert(cur.drop_last() =~= pre);
            assert(cur.last() == v@[j as int]);
        }
        if next > MANT_MAX {
            proof {
                let cur = v@.subrange(start as int, j + 1);
                let tail = v@.subrange(j + 1, end as int);
                assert(cur + tail =~= v@.subrange(start as int, end as int));
                lemma_digits_int_prefix_le(cur, tail);
            }
            return None;
        }
        acc = next;
        j = j + 1;
    }
    Some(acc)
}

/// Read the sign and significand: where the significand ends, how many
/// fraction digits it has, and its digits with the point removed.
fn read_mantissa(frame: &Vec<u8>) -> (r: (bool, usize, usize, Vec<u8>))
    ensures
        r.0 == is_neg(frame@),
        r.1 == mant_end(frame@),
        r.1 <= frame@.len(),
        r.2 == frac_len(frame@),
        r.3@ == mant_digits(frame@),
        forall|j: int| 0 <= j < r.3@.len() ==> is_digit(#[trigger] r.3@[j]),
{
    let ghost q = frame@;
    let n = frame.len();

    let mut pos: usize = 0;
    let mut neg = false;
    if n > 0 && (frame[0] == 43 || frame[0] == 45) {
        neg = frame[0] == 45;
        pos = 1;
    }
    assert(pos == sign_len(q) && neg == is_neg(q));

    let ie = scan_digits(frame, pos);
    assert(ie == int_end(q));
    let dot = ie < n && frame[ie] == 46;
    assert(dot == has_dot(q));
    let me: usize = if dot {
        scan_digits(frame, ie + 1)
    } else {
        ie
    };
    assert(me == mant_end(q));
    let frac: usize = if dot {
        me - (ie + 1)
    } else {
        0
    };

    let mut digits: Vec<u8> = Vec::new();
    let mut j: usize = pos;
    while j < ie
        invariant
            pos <= j <= ie <= n,
            n == frame@.len(),
            digits@ == frame@.subrange(pos as int, j as int),
        decreases ie - j,
    {
        digits.push(frame[j]);
        proof {
            assert(digits@ =~= frame@.subrange(pos as int, j + 1));
        }
        j = j + 1;
    }
    if dot {
        let mut k: usize = ie + 1;
        while k < me
            invariant
                ie + 1 <= k <= me <= n,
                n == frame@.len(),
                digits@ == frame@.subrange(pos as int, ie as int) + frame@.subrange(
                    ie + 1,
                    k as int,
                ),
            decreases me - k,
        {
            digits.push(frame[k]);
            proof {
                assert(digits@ =~= frame@.subrange(pos as int, ie as int) + frame@.subrange(
                    ie + 1,
                    k + 1,
                ));
            }
            k = k + 1;
        }
    }
    assert(digits@ =~= mant_digits(q));
    assert forall|j: int| 0 <= j < digits@.len() implies is_digit(#[trigger] digits@[j]) by {
        if j < ie - pos {
            assert(digits@[j] == q[pos + j]);
        } else {
            assert(digits@[j] == q[ie + 1 + (j - (ie - pos))]);
        }
    }
    (neg, me, frac, digits)
}

/// Read the exponent part after the significand: its sign and absolute
/// value, or `None` where it is not well formed.
fn read_exponent(frame: &Vec<u8>, me: usize) -> (r: Option<(bool, u64)>)
    requires
        me == mant_end(frame@),
        me <= frame@.len(),
    ensures
        match r {
            Some(t) => exp_part_ok(frame@) && t.0 == exp_neg(frame@) && t.1 <= 9999 && exp_val(
                frame@,
            ) == if t.0 {
                -(t.1 as int)
            } else {
                t.1 as int
            },
            None => !exp_part_ok(frame@),
        },
{
    let ghost q = frame@;
    let n = frame.len();
    if me == n {
        assert(!has_exp(q));
        return Some((false, 0));
    }
    if !(frame[me] == 101 || frame[me] == 69) {
        return None;
    }
    let mut eneg = false;
    let mut es = me + 1;
    if es < n && (frame[es] == 43 || frame[es] == 45) {
        eneg = frame[es] == 45;
        es = es + 1;
    }
    assert(es == exp_start(q) && eneg == exp_neg(q));
    let ee = scan_digits(frame, es);
    assert(ee - es == exp_digit_count(q));
    if ee == es || ee - es > 4 || ee != n {
        return None;
    }
    proof {
        lemma_digits_int_bound(q.subrange(es as int, ee as int));
        lemma_digits_int_nonneg(q.subrange(es as int, ee as int));
        lemma_pow10_mono((ee - es) as nat, 4);
        lemma_pow10_values();
    }
    match digits_value(frame, es, ee) {
        Some(m) => Some((eneg, m)),
        None => {
            // Four digits denote less than 10^4, far below the cap.
            proof {
                assert(false);
            }
            None
        },
    }
}

/// Scale a significand by `10^k`, truncating toward zero, or report
/// that the result would exceed `VALUE_MAX`.
fn scale_mag(mag: u64, k: i128) -> (r: Option<u64>)
    requires
        mag <= MANT_MAX,
    ensures
        match r {
            Some(v) => v as int == spec_scaled(mag as int, k as int) && v <= VALUE_MAX,
            None => spec_scaled(mag as int, k as int) > VALUE_MAX,
        },
{
    if k >= 19 {
        if mag == 0 {
            proof {
                lemma_pow10_pos(k as nat);
                assert(0 * pow10(k as nat) == 0) by (nonlinear_arith);
            }
            Some(0)
        } else {
            // Any nonzero significand would scale past the cap.
            proof {
                lemma_pow10_values();
                lemma_pow10_mono(19, k as nat);
                let p = pow10(k as nat);
                assert(mag as int * p >= p) by (nonlinear_arith)
                    requires
                        mag as int >= 1,
                        p >= 0,
                ;
            }
            None
        }
    } else if k >= 0 {
        let p10 = pow10_u64(k as u32);
        proof {
            lemma_pow10_values();
            lemma_pow10_mono(k as nat, 18);
            assert(mag as int * (p10 as int) <= MANT_MAX as int * pow10(18)) by (nonlinear_arith)
                requires
                    0 <= mag as int <= MANT_MAX as int,
                    0 <= p10 as int <= pow10(18),
            ;
        }
        let wide: u128 = (mag as u128) * (p10 as u128);
        if wide > VALUE_MAX as u128 {
            None
        } else {
            Some(wide as u64)
        }
    } else if k >= -18 {
        let p10 = pow10_u64((-k) as u32);
        proof {
            lemma_pow10_pos((-k) as nat);
            lemma_div_basics_5(mag as int, p10 as int);
        }
        Some(mag / p10)
    } else {
        // The scale is below 10^-18: the significand cannot reach one
        // micro-picoamp, so the reading truncates to zero.
        proof {
            lemma_pow10_values();
            lemma_pow10_mono(19, (-k) as nat);
            lemma_basic_div(mag as int, pow10((-k) as nat));
        }
        Some(0)
    }
}

/// Decode one frame. Returns the reading in micro-picoamps, or `None`
/// for a frame that does not match the numeric grammar or whose value
/// lies outside the representable range.
pub fn parse_frame(frame: &Vec<u8>) -> (r: Option<i64>)
    ensures
        match r {
            Some(v) => frame_ok(frame@) && v as int == frame_val(frame@) && -VALUE_MAX <= v
                <= VALUE_MAX,
            None => !frame_ok(frame@),
        },
{
    let ghost q = frame@;
    let (neg, me, frac, digits) = read_mantissa(frame);
    if digits.len() == 0 {
        return None;
    }
    let (eneg, ev) = match read_exponent(frame, me) {
        Some(t) => t,
        None => {
            return None;
        },
    };
    assert(grammar_ok(q));

    let mag: u64 = match digits_value(&digits, 0, digits.len()) {
        Some(m) => m,
        None => {
            proof {
                assert(digits@.subrange(0, digits@.len() as int) =~= digits@);
            }
            return None;
        },
    };
    proof {
        assert(digits@.subrange(0, digits@.len() as int) =~= digits@);
    }
    assert(mag as int == mant_val(q) && mag <= MANT_MAX);

    let k: i128 = (if eneg {
        -(ev as i128)
    } else {
        ev as i128
    }) - (frac as i128) + (PICO_SHIFT as i128);
    assert(k == scale_of(q));

    match scale_mag(mag, k) {
        Some(raw) => {
            if neg {
                Some(-(raw as i64))
            } else {
                Some(raw as i64)
            }
        },
        None => None,
    }
}

} // verus!
