//! Lights that shine evenly in one band of wavelengths.

use vstd::prelude::*;
use crate::units::ONE;

verus! {

/// Whether a wavelength lies in the band that starts at `min_wavelength` and
/// ends just before `max_wavelength`.
pub open spec fn in_band(min_wavelength: u32, max_wavelength: u32, wavelength: u32) -> bool {
    min_wavelength <= wavelength < max_wavelength
}

/// A light that shines with intensity one inside a band of wavelengths, given
/// in picometres, and not at all outside.
#[derive(Clone, Copy, PartialEq, Eq, Debug, Structural)]
pub struct SpectrumRadiator {
    pub min_wavelength: u32,
    pub max_wavelength: u32,
}

impl SpectrumRadiator {
    /// A light for the band from `min_wavelength` up to, and not including,
    /// `max_wavelength`.
    pub fn new(min_wavelength: u32, max_wavelength: u32) -> (light: SpectrumRadiator)
        ensures
            light == (SpectrumRadiator { min_wavelength, max_wavelength }),
    {
        SpectrumRadiator { min_wavelength, max_wavelength }
    }

    /// The intensity at a wavelength: `ONE` inside the band, zero outside.
    pub fn get_intensity(&self, wavelength: u32) -> (intensity: u32)
        ensures
            in_band(self.min_wavelength, self.max_wavelength, wavelength) ==> intensity == ONE,
            !in_band(self.min_wavelength, self.max_wavelength, wavelength) ==> intensity == 0,
    {
        if wavelength >= self.min_wavelength && wavelength < self.max_wavelength {
            ONE
        } else {
            0
        }
    }
}

} // verus!
