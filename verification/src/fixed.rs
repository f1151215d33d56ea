//! Exact arithmetic on whole numbers that the rest of the library builds on:
//! division that rounds down, square roots that round down, and clamping.

use vstd::prelude::*;

verus! {

/// The nearest value that a coordinate can hold.
pub open spec fn clamped(v: int) -> i32 {
    if v < i32::MIN {
        i32::MIN
    } else if v > i32::MAX {
        i32::MAX
    } else {
        v as i32
    }
}

/// Whether `r` is the square root of `n`, rounded down.
pub open spec fn is_sqrt(n: int, r: int) -> bool {
    0 <= r && r * r <= n < (r + 1) * (r + 1)
}

/// The square root of `n`, rounded down.
pub open spec fn sqrt_floor(n: int) -> int {
    choose|r: int| is_sqrt(n, r)
}

/// A number has at most one rounded-down square root.
pub proof fn lemma_sqrt_unique(n: int, a: int, b: int)
    requires
        is_sqrt(n, a),
        is_sqrt(n, b),
    ensures
        a == b,
{
    if a < b {
        assert((a + 1) * (a + 1) <= b * b) by (nonlinear_arith)
            requires
                0 <= a,
                a + 1 <= b,
        ;
    } else if b < a {
        assert((b + 1) * (b + 1) <= a * a) by (nonlinear_arith)
            requires
                0 <= b,
                b + 1 <= a,
        ;
    }
}

/// The rounded-down square root of a square is its base.
pub proof fn lemma_sqrt_of_square(r: int)
    requires
        0 <= r,
    ensures
        sqrt_floor(r * r) == r,
{
    assert(r * r < (r + 1) * (r + 1)) by (nonlinear_arith)
        requires
            0 <= r,
    ;
    assert(is_sqrt(r * r, r));
    lemma_sqrt_unique(r * r, r, sqrt_floor(r * r));
}

/// Clamps a number to the range of a coordinate.
pub fn clamp(v: i128) -> (r: i32)
    ensures
        r == clamped(v as int),
{
    if v < i32::MIN as i128 {
        i32::MIN
    } else if v > i32::MAX as i128 {
        i32::MAX
    } else {
        v as i32
    }
}

/// Divides and rounds down, also where the dividend is negative.
pub fn floor_div(n: i128, d: i128) -> (q: i128)
    requires
        0 < d,
        -0x4000_0000_0000_0000_0000_0000_0000_0000 <= n <= 0x4000_0000_0000_0000_0000_0000_0000_0000,
        d <= 0x4000_0000_0000_0000_0000_0000_0000_0000,
    ensures
        q == n as int / d as int,
        n >= 0 ==> 0 <= q <= n,
        n < 0 ==> n <= q < 0,
{
    if n >= 0 {
        let q: u128 = n as u128 / d as u128;
        assert(0 <= (n as int) / (d as int) <= n) by (nonlinear_arith)
            requires
                0 <= n,
                1 <= d,
        ;
        q as i128
    } else {
        let m: u128 = (-n) as u128;
        let up: u128 = (m + (d as u128 - 1)) / d as u128;
        proof {
            let di = d as int;
            let mi = m as int;
            let ui = up as int;
            assert(ui * di <= mi + di - 1 < ui * di + di) by (nonlinear_arith)
                requires
                    ui == (mi + di - 1) / di,
                    0 < di,
                    0 <= mi,
            ;
            let rem = ui * di - mi;
            assert(n as int == di * (-ui) + rem) by (nonlinear_arith)
                requires
                    rem == ui * di - mi,
                    n as int == -mi,
            ;
            vstd::arithmetic::div_mod::lemma_fundamental_div_mod_converse(n as int, di, -ui, rem);
            assert(0 < ui <= mi) by (nonlinear_arith)
                requires
                    ui * di <= mi + di - 1 < ui * di + di,
                    1 <= di,
                    1 <= mi,
            ;
        }
        -(up as i128)
    }
}

/// The square root of `n`, rounded down.
pub fn isqrt(n: u128) -> (r: u64)
    ensures
        is_sqrt(n as int, r as int),
        r == sqrt_floor(n as int),
{
    let mut low: u128 = 0;
    let mut high: u128 = 0x1_0000_0000_0000_0000;
    assert(0x1_0000_0000_0000_0000 * 0x1_0000_0000_0000_0000 > n) by (nonlinear_arith)
        requires
            n <= 0xFFFF_FFFF_FFFF_FFFF_FFFF_FFFF_FFFF_FFFF,
    ;
    while high - low > 1
        invariant
            low < high <= 0x1_0000_0000_0000_0000,
            low * low <= n < high * high,
        decreases high - low,
    {
        let middle: u128 = low + (high - low) / 2;
        assert(0 <= middle * middle <= 0xFFFF_FFFF_FFFF_FFFF * 0xFFFF_FFFF_FFFF_FFFF)
            by (nonlinear_arith)
            requires
                0 <= middle <= 0xFFFF_FFFF_FFFF_FFFF,
        ;
        if middle * middle <= n {
            low = middle;
        } else {
            high = middle;
        }
    }
    proof {
        assert(is_sqrt(n as int, low as int));
        lemma_sqrt_unique(n as int, low as int, sqrt_floor(n as int));
    }
    low as u64
}

/// The quotient of two whole numbers, rounded down, for a divisor of either
/// sign.
pub open spec fn quotient(n: int, d: int) -> int {
    if d > 0 {
        n / d
    } else {
        (-n) / (-d)
    }
}

/// Divides by a divisor of either sign and rounds down.
pub fn ratio(n: i128, d: i128) -> (q: i128)
    requires
        d != 0,
        -0x4000_0000_0000_0000_0000_0000_0000_0000 <= n <= 0x4000_0000_0000_0000_0000_0000_0000_0000,
        -0x4000_0000_0000_0000_0000_0000_0000_0000 <= d <= 0x4000_0000_0000_0000_0000_0000_0000_0000,
    ensures
        q == quotient(n as int, d as int),
{
    if d > 0 {
        floor_div(n, d)
    } else {
        floor_div(-n, -d)
    }
}

/// Taking whole multiples of the divisor from the dividend takes as many
/// from the quotient.
pub proof fn lemma_quotient_shift(n: int, d: int, m: int)
    requires
        d != 0,
    ensures
        quotient(n - m * d, d) == quotient(n, d) - m,
{
    if d > 0 {
        lemma_floor_shift(n, d, m);
    } else {
        assert(-(n - m * d) == -n - m * (-d)) by (nonlinear_arith);
        lemma_floor_shift(-n, -d, m);
    }
}

proof fn lemma_floor_shift(n: int, d: int, m: int)
    requires
        d > 0,
    ensures
        (n - m * d) / d == n / d - m,
{
    let q = n / d;
    let r = n % d;
    vstd::arithmetic::div_mod::lemma_fundamental_div_mod(n, d);
    vstd::arithmetic::div_mod::lemma_mod_bound(n, d);
    assert(n - m * d == d * (q - m) + r) by (nonlinear_arith)
        requires
            n == d * q + r,
    ;
    vstd::arithmetic::div_mod::lemma_fundamental_div_mod_converse(n - m * d, d, q - m, r);
}

} // verus!
