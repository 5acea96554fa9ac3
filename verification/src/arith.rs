//! 32-bit signed arithmetic with the fixed-width semantics the
//! executor uses: wrapping add, subtract and multiply, and truncating
//! division and remainder.

use vstd::prelude::*;

verus! {

pub open spec fn abs_int(a: int) -> int {
    if a < 0 {
        -a
    } else {
        a
    }
}

/// Truncating division: the quotient of the magnitudes, negated when
/// the signs differ, as 32-bit hardware rounds toward zero.
pub open spec fn div_trunc(a: int, b: int) -> int {
    let q = abs_int(a) / abs_int(b);
    if (a < 0) != (b < 0) {
        -q
    } else {
        q
    }
}

/// The remainder of truncating division: it carries the dividend's sign.
pub open spec fn rem_trunc(a: int, b: int) -> int {
    let m = abs_int(a) % abs_int(b);
    if a < 0 {
        -m
    } else {
        m
    }
}

pub open spec fn wrap_add_i32(a: i32, b: i32) -> i32 {
    vstd::wrapping::i32_specs::wrapping_add(a, b)
}

pub open spec fn wrap_sub_i32(a: i32, b: i32) -> i32 {
    vstd::wrapping::i32_specs::wrapping_sub(a, b)
}

pub open spec fn wrap_mul_i32(a: i32, b: i32) -> i32 {
    vstd::wrapping::i32_specs::wrapping_mul(a, b)
}

/// Truncating division wrapped into `i32`: the one overflowing case,
/// `i32::MIN / -1`, wraps back to `i32::MIN`.
pub open spec fn wrap_div_i32(a: i32, b: i32) -> i32 {
    if a == i32::MIN && b == -1 {
        i32::MIN
    } else {
        div_trunc(a as int, b as int) as i32
    }
}

/// The truncating remainder always fits in `i32`.
pub open spec fn wrap_rem_i32(a: i32, b: i32) -> i32 {
    rem_trunc(a as int, b as int) as i32
}

pub fn add_wrapping(a: i32, b: i32) -> (r: i32)
    ensures
        r == wrap_add_i32(a, b),
{
    a.wrapping_add(b)
}

pub fn sub_wrapping(a: i32, b: i32) -> (r: i32)
    ensures
        r == wrap_sub_i32(a, b),
{
    a.wrapping_sub(b)
}

pub fn mul_wrapping(a: i32, b: i32) -> (r: i32)
    ensures
        r == wrap_mul_i32(a, b),
{
    a.wrapping_mul(b)
}

fn magnitude(a: i32) -> (r: u32)
    ensures
        r == abs_int(a as int),
{
    if a >= 0 {
        a as u32
    } else {
        (-(a as i64)) as u32
    }
}

pub fn div_wrapping(a: i32, b: i32) -> (r: i32)
    requires
        b != 0,
    ensures
        r == wrap_div_i32(a, b),
{
    if b == -1 {
        if a == i32::MIN {
            return i32::MIN;
        }
        proof {
            assert(abs_int(a as int) / 1int == abs_int(a as int));
        }
        return -a;
    }
    let neg = (a < 0) != (b < 0);
    let mag_a = magnitude(a);
    let mag_b = magnitude(b);
    let q: u32 = mag_a / mag_b;
    proof {
        assert(q <= mag_a) by (nonlinear_arith)
            requires
                mag_b >= 1,
                q == mag_a as int / mag_b as int,
        ;
    }
    if neg {
        (-(q as i64)) as i32
    } else {
        proof {
            if a < 0 && b < 0 {
                assert(mag_b >= 2);
                vstd::arithmetic::div_mod::lemma_div_is_ordered_by_denominator(
                    mag_a as int,
                    2,
                    mag_b as int,
                );
                assert(q <= mag_a as int / 2);
            }
        }
        q as i32
    }
}

pub fn rem_wrapping(a: i32, b: i32) -> (r: i32)
    requires
        b != 0,
    ensures
        r == wrap_rem_i32(a, b),
{
    let mag_a = magnitude(a);
    let mag_b = magnitude(b);
    let m: u32 = mag_a % mag_b;
    if a < 0 {
        (-(m as i64)) as i32
    } else {
        m as i32
    }
}

} // verus!
