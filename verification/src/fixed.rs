//! Q16.16 fixed-point arithmetic shared by the signal path.

use vstd::prelude::*;

verus! {

/// The fixed-point representation of 1.
pub const ONE: u32 = 65536;

/// `x * g / ONE`, rounded toward zero.
pub open spec fn scaled(x: int, g: int) -> int {
    if x >= 0 {
        (x * g) / (ONE as int)
    } else {
        -(((-x) * g) / (ONE as int))
    }
}

/// A gain of at most one never increases the magnitude, and no gain pushes the
/// magnitude past `|x| * g / ONE`.
pub proof fn lemma_scaled_bounds(x: int, g: int)
    requires
        0 <= g,
    ensures
        x >= 0 ==> 0 <= scaled(x, g) <= x * g / (ONE as int),
        x <= 0 ==> -((-x) * g / (ONE as int)) <= scaled(x, g) <= 0,
        g <= ONE ==> (if x >= 0 { scaled(x, g) <= x } else { scaled(x, g) >= x }),
        scaled(-x, g) == -scaled(x, g),
{
    let m = if x >= 0 { x } else { -x };
    assert(0 <= m * g) by (nonlinear_arith)
        requires
            0 <= m,
            0 <= g,
    ;
    assert(g <= 65536 ==> m * g <= m * 65536) by (nonlinear_arith)
        requires
            0 <= m,
            0 <= g,
    ;
    assert(x == 0 ==> x * g == 0 && (-x) * g == 0) by (nonlinear_arith);
}

/// `total`, held to the range of `i64`.
pub open spec fn clamped(total: int) -> int {
    if total > i64::MAX {
        i64::MAX as int
    } else if total < i64::MIN {
        i64::MIN as int
    } else {
        total
    }
}

/// Multiplies a signal value by a gain; a product beyond the range of `i64`
/// is held to that range.
pub fn scale(x: i64, g: u32) -> (r: i64)
    ensures
        r == clamped(scaled(x as int, g as int)),
{
    let gain: i128 = g as i128;
    let size: i128 = if x >= 0 {
        x as i128
    } else {
        -(x as i128)
    };
    assert(0 <= size * gain <= 0x8000_0000_0000_0000 * 0xffff_ffff) by (nonlinear_arith)
        requires
            0 <= size <= 0x8000_0000_0000_0000,
            0 <= gain <= 0xffff_ffff,
    ;
    let part: i128 = (size * gain) / 65536;
    let wide: i128 = if x >= 0 {
        part
    } else {
        -part
    };
    if wide > i64::MAX as i128 {
        i64::MAX
    } else if wide < i64::MIN as i128 {
        i64::MIN
    } else {
        wide as i64
    }
}

/// The part `a / b` of `c`, rounded down.
pub open spec fn portion(a: int, c: int, b: int) -> int {
    (a * c) / b
}

/// A part of `c` lies between 0 and `c`, reaches `c` only when `a == b`, and
/// is 0 when `a == 0`.
pub proof fn lemma_portion_bounds(a: int, c: int, b: int)
    requires
        0 <= a <= b,
        0 < b,
        0 <= c,
    ensures
        0 <= portion(a, c, b) <= c,
        a < b && 0 < c ==> portion(a, c, b) < c,
        a == b ==> portion(a, c, b) == c,
        a == 0 ==> portion(a, c, b) == 0,
{
    let q = (a * c) / b;
    let r = (a * c) % b;
    assert(a * c == b * q + r && 0 <= r < b) by {
        vstd::arithmetic::div_mod::lemma_fundamental_div_mod(a * c, b);
        vstd::arithmetic::div_mod::lemma_mod_bound(a * c, b);
    }
    assert(0 <= a * c <= b * c) by (nonlinear_arith)
        requires
            0 <= a <= b,
            0 <= c,
    ;
    assert(0 <= q <= c) by (nonlinear_arith)
        requires
            a * c == b * q + r,
            0 <= r < b,
            0 <= a * c <= b * c,
            0 < b,
    ;
    if a < b && 0 < c {
        assert(a * c < b * c) by (nonlinear_arith)
            requires
                0 <= a < b,
                0 < c,
        ;
        assert(q < c) by (nonlinear_arith)
            requires
                a * c == b * q + r,
                0 <= r < b,
                a * c < b * c,
                0 < b,
        ;
    }
    if a == b {
        assert(q == c) by (nonlinear_arith)
            requires
                b * c == b * q + r,
                0 <= r < b,
                0 < b,
        ;
    }
    if a == 0 {
        assert(a * c == 0) by (nonlinear_arith)
            requires
                a == 0,
        ;
    }
}

/// A larger fraction gives a larger part.
pub proof fn lemma_portion_monotone(a1: int, a2: int, c: int, b: int)
    requires
        0 <= a1 <= a2,
        0 < b,
        0 <= c,
    ensures
        portion(a1, c, b) <= portion(a2, c, b),
{
    assert(a1 * c <= a2 * c) by (nonlinear_arith)
        requires
            0 <= a1 <= a2,
            0 <= c,
    ;
    vstd::arithmetic::div_mod::lemma_div_is_ordered(a1 * c, a2 * c, b);
}

} // verus!
