//! Lights that glow by their heat.
//!
//! How strongly a hot body shines at a wavelength is Planck's law, which
//! needs an exponential and is evaluated by the caller. What is kept here is
//! where the glow peaks, and the scaling that gives the body its intensity at
//! that peak.

use vstd::prelude::*;

verus! {

/// Wien's displacement constant in picometres times kelvin.
pub const WIENS_CONSTANT: u64 = 2_897_772_126;

/// A black body of a temperature, in kelvin, that shines with `intensity`, in
/// 65536ths, at the wavelength at which it shines most.
#[derive(Clone, Copy, PartialEq, Eq, Debug, Structural)]
pub struct BlackBodyRadiator {
    pub temperature: u32,
    pub intensity: u32,
}

impl BlackBodyRadiator {
    /// The intensity of a body that, by Planck's law, emits `emission` at
    /// some wavelength and `peak_emission` at its peak: the body's own
    /// intensity times the ratio of the two, rounded down, and `u32::MAX`
    /// where that is larger.
    pub open spec fn normalized(self, emission: u64, peak_emission: u64) -> int {
        if emission * self.intensity / (peak_emission as int) > u32::MAX {
            u32::MAX as int
        } else {
            emission * self.intensity / (peak_emission as int)
        }
    }

    /// A black body.
    pub fn new(temperature: u32, intensity: u32) -> (body: BlackBodyRadiator)
        ensures
            body == (BlackBodyRadiator { temperature, intensity }),
    {
        BlackBodyRadiator { temperature, intensity }
    }

    /// The wavelength, in picometres, at which the body shines most, by
    /// Wien's law: the constant over the temperature, rounded down. A body
    /// without heat has no peak.
    pub fn peak_wavelength(&self) -> (peak: Option<u64>)
        ensures
            self.temperature == 0 ==> peak is None,
            self.temperature > 0 ==> peak == Some((2_897_772_126int / self.temperature as int) as u64),
    {
        if self.temperature == 0 {
            None
        } else {
            Some(WIENS_CONSTANT / self.temperature as u64)
        }
    }

    /// The intensity at a wavelength, from the emission that Planck's law
    /// gives for that wavelength and the emission that it gives for the peak,
    /// both in one unit of the caller's choice. At the peak itself the result
    /// is the body's own intensity.
    pub fn get_intensity(&self, emission: u64, peak_emission: u64) -> (intensity: u32)
        requires
            peak_emission > 0,
        ensures
            intensity == self.normalized(emission, peak_emission),
            emission == peak_emission ==> intensity == self.intensity,
    {
        assert(0 <= emission * self.intensity <= 0xFFFF_FFFF_FFFF_FFFF * 0xFFFF_FFFF)
            by (nonlinear_arith)
            requires
                0 <= emission <= 0xFFFF_FFFF_FFFF_FFFF,
                0 <= self.intensity <= 0xFFFF_FFFF,
        ;
        let scaled: u128 = emission as u128 * self.intensity as u128 / peak_emission as u128;
        proof {
            lemma_peak_keeps_intensity(self.intensity as int, peak_emission as int);
        }
        if scaled > u32::MAX as u128 {
            u32::MAX
        } else {
            scaled as u32
        }
    }
}

proof fn lemma_peak_keeps_intensity(intensity: int, peak: int)
    requires
        peak > 0,
        0 <= intensity,
    ensures
        peak * intensity / peak == intensity,
{
    vstd::arithmetic::div_mod::lemma_div_multiples_vanish(intensity, peak);
    assert(peak * intensity == intensity * peak) by (nonlinear_arith);
}

/// At its peak a black body shines exactly as brightly as it was made to:
/// whatever Planck's law gives for the peak, scaling by it gives the body's
/// own intensity back.
pub proof fn lemma_peak_intensity(body: BlackBodyRadiator, peak_emission: u64)
    requires
        peak_emission > 0,
    ensures
        body.normalized(peak_emission, peak_emission) == body.intensity,
{
    lemma_peak_keeps_intensity(body.intensity as int, peak_emission as int);
}

} // verus!
