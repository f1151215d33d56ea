//! Uniform random draws, each taken from a generator that the caller owns, so
//! that a render with a fixed seed can be repeated.

use vstd::prelude::*;
use rand::rngs::StdRng;
use rand::Rng;

verus! {

/// The seedable generator of the `rand` crate. Its state is not modelled.
#[verifier::external_type_specification]
#[verifier::external_body]
pub struct ExStdRng(StdRng);

/// Draws 32 bits with `rand::Rng::gen`. Nothing is claimed of the bits: every
/// value can come back.
#[verifier::external_body]
fn next_word(rng: &mut StdRng) -> u32 {
    rng.gen::<u32>()
}

/// A uniform draw from the whole numbers below `ONE`, that is a fraction in
/// `[0, 1)` counted in 65536ths.
pub fn get_unit(rng: &mut StdRng) -> (unit: u32)
    ensures
        unit < 65_536,
{
    unit_for(next_word(rng))
}

/// A uniform draw from `[-1, 1)` counted in 65536ths.
pub fn get_bi_unit(rng: &mut StdRng) -> (unit: i32)
    ensures
        -65_536 <= unit < 65_536,
        unit % 2 == 0,
{
    let draw: u32 = get_unit(rng);
    bi_unit_for(draw)
}

/// The draw below `ONE` that belongs to 32 random bits: their upper half.
pub open spec fn unit_of(word: int) -> int {
    word / 65_536
}

/// Maps 32 random bits to a draw below `ONE`.
pub fn unit_for(word: u32) -> (unit: u32)
    ensures
        unit == unit_of(word as int),
        unit < 65_536,
{
    word / 65_536
}

/// The number between minus one and one, in 65536ths, that belongs to a draw
/// below `ONE`: minus one for the draw 0, and never quite one.
pub open spec fn bi_unit_of(unit: int) -> int {
    2 * unit - 65_536
}

/// Maps a draw below `ONE` to a number between minus one and one.
pub fn bi_unit_for(unit: u32) -> (both: i32)
    requires
        unit < 65_536,
    ensures
        both == bi_unit_of(unit as int),
        -65_536 <= both < 65_536,
{
    unit as i32 * 2 - 65_536
}

/// The wavelength, in picometres, that belongs to a draw below `ONE`: the
/// draws are spread evenly from 300 nm up to, and not including, 700 nm.
pub open spec fn wavelength_of(unit: int) -> int {
    300_000 + unit * 400_000 / 65_536
}

/// Maps a draw below `ONE` to its wavelength in picometres.
pub fn wavelength_for(unit: u32) -> (wavelength: u32)
    requires
        unit < 65_536,
    ensures
        wavelength == wavelength_of(unit as int),
        300_000 <= wavelength < 700_000,
{
    let spread: u64 = unit as u64 * 400_000 / 65_536;
    300_000 + spread as u32
}

/// A uniform draw of a wavelength in picometres between 300 nm and 700 nm.
pub fn get_wavelength(rng: &mut StdRng) -> (wavelength: u32)
    ensures
        300_000 <= wavelength < 700_000,
        exists|unit: int| 0 <= unit < 65_536 && wavelength == wavelength_of(unit),
{
    let draw: u32 = get_unit(rng);
    wavelength_for(draw)
}

} // verus!
