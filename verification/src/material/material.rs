//! The closed sets of materials and of lights.
//!
//! A material sends a ray on from a hit; a light says how brightly it shines.
//! What a material needs of chance, and what it needs of the exponential
//! function, the caller hands in with the call.

use vstd::prelude::*;
use crate::geometry::intersection::Intersection;
use crate::geometry::ray::Ray;
use crate::geometry::vec3::Vec3;
use crate::material::black_body_radiator::BlackBodyRadiator;
use crate::material::diffuse::{
    bell_exponent, scattered, DiffuseGrayMaterial, SimpleDiffuseColoredMaterial,
};
use crate::material::glass::{
    glass_ray, BandPassColoredGlassMaterial, GaussianColoredGlassMaterial, GlassMaterial,
};
use crate::material::glossy::GlossyMaterial;
use crate::material::spectrum_radiator::{in_band, SpectrumRadiator};
use crate::units::scaled;

verus! {

/// What one scattering draws and what the caller has evaluated for it.
#[derive(Clone, Copy, PartialEq, Eq, Debug, Structural)]
pub struct Draws {
    /// A direction around the straight-up axis, weighted by the cosine of its
    /// angle to that axis: the way a matt surface scatters.
    pub hemisphere: Vec3,
    /// A uniform draw below `ONE`: the choice of glass between mirroring and
    /// bending.
    pub sample: u32,
    /// The negative exponential, in 65536ths, of the material's `exponent`
    /// for the incoming ray: the height of the bell curve of a coloured
    /// material. Other materials do not look at it.
    pub response: u32,
}

/// A material.
#[derive(PartialEq, Eq, Debug)]
pub enum Material {
    DiffuseGray(DiffuseGrayMaterial),
    DiffuseColored(SimpleDiffuseColoredMaterial),
    /// A glossy surface over a base material.
    Glossy(GlossyMaterial, Box<Material>),
    Glass(GlassMaterial),
    GaussianGlass(GaussianColoredGlassMaterial),
    BandPassGlass(BandPassColoredGlassMaterial),
}

impl Material {
    /// Whether the material is sound: every glossiness in it is a share.
    pub open spec fn wf(&self) -> bool
        decreases self,
    {
        match self {
            Material::Glossy(gloss, base) => gloss.wf() && base.wf(),
            _ => true,
        }
    }

    /// The number whose negative exponential the material asks for as
    /// `Draws::response`, for a ray of the given wavelength, and `None` where
    /// the material asks for none. A glossy surface asks what its base asks.
    pub open spec fn wanted_exponent(&self, wavelength: u32) -> Option<u64>
        decreases self,
    {
        match self {
            Material::DiffuseColored(matt) => Some(
                bell_exponent(matt.wavelength, matt.deviation, wavelength),
            ),
            Material::GaussianGlass(glass) => Some(
                bell_exponent(glass.wavelength, glass.deviation, wavelength),
            ),
            Material::Glossy(_, base) => base.wanted_exponent(wavelength),
            _ => None,
        }
    }

    /// The ray that leaves the material at a hit.
    ///
    /// A matt surface scatters into the drawn direction, carried over to the
    /// hit's normal; a grey one gives the ray its grey scale for a strength,
    /// a coloured one its brightness times the response. Glass mirrors or
    /// bends by the drawn sample and keeps the ray's strength; coloured glass
    /// multiplies it by the response; band-pass glass keeps it inside its band
    /// and takes it all outside. A glossy surface blends what its base gives
    /// for the same hit and the same draws with a mirror.
    pub open spec fn next_ray(&self, incoming: Ray, hit: Intersection, draws: Draws) -> Ray
        decreases self,
    {
        match self {
            Material::DiffuseGray(matt) => Ray {
                position: hit.position,
                direction: scattered(incoming, hit, draws.hemisphere),
                wavelength: incoming.wavelength,
                strength: matt.gray_scale,
            },
            Material::DiffuseColored(matt) => Ray {
                position: hit.position,
                direction: scattered(incoming, hit, draws.hemisphere),
                wavelength: incoming.wavelength,
                strength: scaled(matt.brightness as int, draws.response as int) as u32,
            },
            Material::Glossy(gloss, base) => {
                let scattered = base.next_ray(incoming, hit, draws);
                Ray {
                    direction: gloss.blended(incoming, hit, scattered),
                    strength: gloss.strengthened(scattered),
                    ..scattered
                }
            },
            Material::Glass(_) => glass_ray(incoming, hit, draws.sample as int),
            Material::GaussianGlass(_) => Ray {
                strength: scaled(incoming.strength as int, draws.response as int) as u32,
                ..glass_ray(incoming, hit, draws.sample as int)
            },
            Material::BandPassGlass(glass) => Ray {
                strength: if in_band(
                    glass.min_wavelength,
                    glass.max_wavelength,
                    incoming.wavelength,
                ) {
                    incoming.strength
                } else {
                    0
                },
                ..glass_ray(incoming, hit, draws.sample as int)
            },
        }
    }

    /// Tells which exponent the material wants evaluated for a ray.
    pub fn exponent(&self, incoming: &Ray) -> (exponent: Option<u64>)
        ensures
            exponent == self.wanted_exponent(incoming.wavelength),
        decreases self,
    {
        match self {
            Material::DiffuseColored(matt) => Some(matt.exponent(incoming)),
            Material::GaussianGlass(glass) => Some(glass.exponent(incoming)),
            Material::Glossy(_, base) => base.exponent(incoming),
            _ => None,
        }
    }

    /// Sends a ray on from a hit on the material.
    pub fn get_next_ray(&self, incoming: Ray, hit: Intersection, draws: Draws) -> (next: Ray)
        requires
            self.wf(),
            incoming.direction.is_direction(),
            hit.normal.is_direction(),
        ensures
            next == self.next_ray(incoming, hit, draws),
            next.direction.is_direction(),
        decreases self,
    {
        match self {
            Material::DiffuseGray(matt) => matt.get_next_ray(incoming, hit, draws.hemisphere),
            Material::DiffuseColored(matt) => matt.get_next_ray(
                incoming,
                hit,
                draws.hemisphere,
                draws.response,
            ),
            Material::Glossy(gloss, base) => {
                let scattered = base.get_next_ray(incoming, hit, draws);
                gloss.get_next_ray(incoming, hit, scattered)
            },
            Material::Glass(glass) => glass.get_next_ray(incoming, hit, draws.sample),
            Material::GaussianGlass(glass) => glass.get_next_ray(
                incoming,
                hit,
                draws.sample,
                draws.response,
            ),
            Material::BandPassGlass(glass) => glass.get_next_ray(incoming, hit, draws.sample),
        }
    }
}

/// A light.
#[derive(Clone, Copy, PartialEq, Eq, Debug, Structural)]
pub enum Radiator {
    BlackBody(BlackBodyRadiator),
    Spectrum(SpectrumRadiator),
}

impl Radiator {
    /// The intensity of the light at a wavelength in picometres. A hot body
    /// shines with its own intensity times `emission` over `peak_emission`,
    /// which are what Planck's law gives for the wavelength and for the
    /// body's peak; a band light shines with intensity one inside its band.
    pub open spec fn intensity(self, wavelength: u32, emission: u64, peak_emission: u64) -> int {
        match self {
            Radiator::BlackBody(body) => body.normalized(emission, peak_emission),
            Radiator::Spectrum(light) => if in_band(
                light.min_wavelength,
                light.max_wavelength,
                wavelength,
            ) {
                65_536
            } else {
                0
            },
        }
    }

    /// The intensity of the light at a wavelength. A band light does not look
    /// at the two emissions.
    pub fn get_intensity(&self, wavelength: u32, emission: u64, peak_emission: u64) -> (intensity:
        u32)
        requires
            peak_emission > 0,
        ensures
            intensity == self.intensity(wavelength, emission, peak_emission),
    {
        match self {
            Radiator::BlackBody(body) => body.get_intensity(emission, peak_emission),
            Radiator::Spectrum(light) => light.get_intensity(wavelength),
        }
    }
}

} // verus!
