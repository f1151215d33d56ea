//! The whole-number units in which the library measures light.
//!
//! Nothing here is a fraction held approximately: a throughput of one is the
//! integer `ONE`, a wavelength is a count of picometres, and a position on the
//! screen is a count of 65536ths between the film's edges at `-ONE` and `ONE`.

use vstd::prelude::*;

verus! {

/// The number one for strengths, throughputs, probabilities and screen
/// coordinates, which all count 65536ths.
pub const ONE: u32 = 65_536;

/// The left and the lower edge of the screen.
pub const SCREEN_MIN: i32 = -65_536;

/// The right and the upper edge of the screen.
pub const SCREEN_MAX: i32 = 65_536;

/// The product of two amounts that count 65536ths, in 65536ths and rounded
/// down, or `u32::MAX` where the product is larger than that.
pub open spec fn scaled(a: int, b: int) -> int {
    if a * b / 65_536 > u32::MAX {
        u32::MAX as int
    } else {
        a * b / 65_536
    }
}

/// Multiplies two amounts that count 65536ths.
pub fn scale(a: u32, b: u32) -> (r: u32)
    ensures
        r == scaled(a as int, b as int),
{
    assert(0 <= a * b <= 0xFFFF_FFFF * 0xFFFF_FFFF) by (nonlinear_arith)
        requires
            0 <= a <= 0xFFFF_FFFF,
            0 <= b <= 0xFFFF_FFFF,
    ;
    let product: u64 = (a as u64) * (b as u64) / 65_536;
    if product > u32::MAX as u64 {
        u32::MAX
    } else {
        product as u32
    }
}

} // verus!
