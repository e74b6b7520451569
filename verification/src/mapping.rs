//! The brightness curve: the order of magnitude of the sensor reading, in
//! bits, spread linearly over the backlight's range.

use crate::config::Conf;
use vstd::arithmetic::logarithm::{
    lemma_log0, lemma_log_is_ordered, lemma_log_nonnegative, lemma_log_s, log,
};
use vstd::arithmetic::power2::{lemma2_to64, lemma_pow2_unfold, pow2};
use vstd::prelude::*;

verus! {

/// Upper end of the domain of magnitudes that the curve spreads over the
/// backlight's range; readings of a higher magnitude saturate.
pub const MAGNITUDE_SPAN: u32 = 10;

/// Position of `a` between `b` and `c`, carried over to the range from `d`
/// to `e` with truncating division, and clamped to that range.
pub open spec fn spec_lerp(a: int, b: int, c: int, d: int, e: int) -> int {
    let x = (a - b) * (e - d) / (c - b) + d;
    if x > e {
        e
    } else if x < d {
        d
    } else {
        x
    }
}

/// The backlight level for a raw sensor reading `csen` and a backlight whose
/// highest level is `max_br`: the magnitude of the reading, which is the
/// floor of its base-2 logarithm, carried over from the span of magnitudes
/// to the backlight's range and cut off at `max_br`. A reading of zero has
/// magnitude zero, like a reading of one.
pub open spec fn spec_compute_br(csen: int, max_br: int) -> int {
    let raw = log(2, csen) * max_br / (MAGNITUDE_SPAN as int);
    if raw > max_br {
        max_br
    } else {
        raw
    }
}

/// The magnitude of a 32-bit reading is at most 31.
pub proof fn lemma_magnitude_bound(v: int)
    requires
        0 <= v <= u32::MAX,
    ensures
        0 <= log(2, v) <= 31,
{
    lemma_log_nonnegative(2, v);
    lemma_log_is_ordered(2, v, 0xffff_ffff);
    assert(log(2, 0xffff_ffff) == 31) by {
        reveal_with_fuel(log, 33);
    }
}

/// The magnitude of a reading is the floor of its base-2 logarithm: the
/// reading is at least two to the power of its magnitude, and less than
/// twice that.
pub proof fn lemma_magnitude_brackets(v: int)
    requires
        1 <= v,
    ensures
        0 <= log(2, v),
        pow2(log(2, v) as nat) <= v < 2 * pow2(log(2, v) as nat),
    decreases v,
{
    lemma_log_nonnegative(2, v);
    if v < 2 {
        lemma_log0(2, v);
        lemma2_to64();
    } else {
        lemma_log_s(2, v);
        lemma_magnitude_brackets(v / 2);
        lemma_pow2_unfold(log(2, v) as nat);
    }
}

/// Floor of the base-2 logarithm of `v`; zero for `v == 0`.
pub fn floor_log2(v: u32) -> (k: u32)
    ensures
        k == log(2, v as int),
        k <= 31,
        v >= 1 ==> pow2(k as nat) <= v < 2 * pow2(k as nat),
{
    let mut k: u32 = 0;
    let mut rest: u32 = v;
    proof {
        lemma_magnitude_bound(v as int);
        if v >= 1 {
            lemma_magnitude_brackets(v as int);
        }
    }
    while rest >= 2
        invariant
            k + log(2, rest as int) == log(2, v as int),
            log(2, v as int) <= 31,
            log(2, rest as int) >= 0,
        decreases rest,
    {
        proof {
            lemma_log_s(2, rest as int);
            lemma_log_nonnegative(2, rest as int / 2);
        }
        rest = rest / 2;
        k = k + 1;
    }
    proof {
        lemma_log0(2, rest as int);
    }
    k
}

/// Linearly interpolates `a`'s position between `b` and `c` to the range
/// from `d` to `e`, and clamps the result to that range: a position at or
/// before `b` yields `d`, one at or after `c` yields `e`. No product or sum
/// on the way leaves the range of the machine's integers.
pub fn lerp(a: u32, b: u32, c: u32, d: u32, e: u32) -> (x: u32)
    requires
        b < c,
        d <= e,
    ensures
        x == spec_lerp(a as int, b as int, c as int, d as int, e as int),
        d <= x <= e,
{
    if a <= b {
        proof {
            let num = (a as int - b as int) * (e as int - d as int);
            let den = c as int - b as int;
            assert(num <= 0) by (nonlinear_arith)
                requires
                    num == (a as int - b as int) * (e as int - d as int),
                    a as int - b as int <= 0,
                    e as int - d as int >= 0,
            ;
            assert(num / den <= 0) by (nonlinear_arith)
                requires
                    num <= 0,
                    den > 0,
            ;
        }
        return d;
    }
    let rise: u64 = (a - b) as u64;
    let range: u64 = (e - d) as u64;
    let run: u64 = (c - b) as u64;
    assert(rise * range <= 0xffff_ffff * 0xffff_ffff) by (nonlinear_arith)
        requires
            0 <= rise <= 0xffff_ffff,
            0 <= range <= 0xffff_ffff,
    ;
    let scaled: u64 = rise * range / run;
    assert(0 <= (rise * range) / (run as int) <= rise * range) by (nonlinear_arith)
        requires
            rise * range >= 0,
            run >= 1,
    ;
    let x: u64 = scaled + d as u64;
    if x > e as u64 {
        e
    } else {
        x as u32
    }
}

/// The backlight level for the raw sensor reading `csen`, on a backlight
/// whose highest level is `max_br`.
///
/// The level rises by a tenth of the range with every doubling of the
/// reading and reaches `max_br` at a reading of 1024. A reading of zero is
/// answered like a reading of one, with level zero.
pub fn compute_br(csen: u32, _conf: &Conf, max_br: u32) -> (new: u32)
    ensures
        new == spec_compute_br(csen as int, max_br as int),
        new <= max_br,
        csen <= 1 ==> new == 0,
        csen >= 1024 ==> new == max_br,
{
    let new = lerp(floor_log2(csen), 0, MAGNITUDE_SPAN, 0, max_br);
    proof {
        lemma_compute_br_floor(csen as int, max_br as int);
        lemma_compute_br_saturates(csen as int, max_br as int);
    }
    new
}

/// Whatever the reading and the backlight, the level lies between zero
/// and the backlight's highest level.
pub proof fn lemma_compute_br_in_range(csen: int, max_br: int)
    requires
        0 <= csen,
        0 <= max_br,
    ensures
        0 <= spec_compute_br(csen, max_br) <= max_br,
{
    lemma_log_nonnegative(2, csen);
    let k = log(2, csen);
    assert(k * max_br / 10 >= 0) by (nonlinear_arith)
        requires
            k >= 0,
            max_br >= 0,
    ;
}

/// On one backlight, a higher reading never yields a lower level.
pub proof fn lemma_compute_br_monotonic(low: int, high: int, max_br: int)
    requires
        0 <= low <= high,
        0 <= max_br,
    ensures
        spec_compute_br(low, max_br) <= spec_compute_br(high, max_br),
{
    lemma_log_is_ordered(2, low, high);
    let k1 = log(2, low);
    let k2 = log(2, high);
    assert(k1 * max_br / 10 <= k2 * max_br / 10) by (nonlinear_arith)
        requires
            k1 <= k2,
            max_br >= 0,
    ;
}

/// A reading of one, the least that has a logarithm, yields level zero; so
/// does a reading of zero.
pub proof fn lemma_compute_br_floor(csen: int, max_br: int)
    requires
        0 <= max_br,
    ensures
        0 <= csen <= 1 ==> spec_compute_br(csen, max_br) == 0,
{
    if 0 <= csen <= 1 {
        lemma_log0(2, csen);
    }
}

/// A reading of magnitude ten, which is any from 1024 to 2047, yields the
/// backlight's highest level, and so does every reading above.
pub proof fn lemma_compute_br_saturates(csen: int, max_br: int)
    requires
        0 <= max_br,
    ensures
        1024 <= csen <= 2047 ==> log(2, csen) == 10,
        log(2, csen) >= 10 ==> spec_compute_br(csen, max_br) == max_br,
        1024 <= csen ==> spec_compute_br(csen, max_br) == max_br,
{
    if 1024 <= csen {
        assert(log(2, 1024) == 10) by {
            reveal_with_fuel(log, 12);
        }
        lemma_log_is_ordered(2, 1024, csen);
        if csen <= 2047 {
            assert(log(2, 2047) == 10) by {
                reveal_with_fuel(log, 12);
            }
            lemma_log_is_ordered(2, csen, 2047);
        }
    }
    let k = log(2, csen);
    if k >= 10 {
        assert(k * max_br / 10 >= max_br) by (nonlinear_arith)
            requires
                k >= 10,
                max_br >= 0,
        ;
    }
}

} // verus!
