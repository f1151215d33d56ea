//! Matt surfaces, which scatter light evenly to all sides.
//!
//! The caller draws the scattered direction around the straight-up axis,
//! weighted by the cosine of its angle to that axis; the material carries it
//! over to the surface's normal.

use vstd::prelude::*;
use crate::geometry::intersection::Intersection;
use crate::geometry::ray::Ray;
use crate::geometry::vec3::{fitted, narrowed, Vec3};
use crate::geometry::wide::Wide;
use crate::fixed::clamp;
use crate::units::{scale, scaled};

verus! {

/// The normal of a hit, turned so that it stands against the incoming ray.
pub open spec fn against(incoming: Ray, intersection: Intersection) -> Vec3 {
    if incoming.direction@.dot(intersection.normal@) < 0 {
        intersection.normal
    } else {
        fitted(intersection.normal@.negated())
    }
}

/// The direction into which a matt surface scatters, for a direction `hemi`
/// drawn around the straight-up axis: `hemi` carried over to the normal that
/// stands against the incoming ray, and brought to unit length.
pub open spec fn scattered(incoming: Ray, intersection: Intersection, hemi: Vec3) -> Vec3 {
    narrowed(hemi.carried(against(incoming, intersection))@.unit())
}

fn scatter(incoming: &Ray, intersection: &Intersection, hemi: &Vec3) -> (direction: Vec3)
    requires
        incoming.direction.is_direction(),
        intersection.normal.is_direction(),
    ensures
        direction == scattered(*incoming, *intersection, *hemi),
        direction.is_direction(),
{
    let along: i128 = Wide::of(&incoming.direction).dot(
        &Wide::of(&intersection.normal),
        Ghost(65_536),
        Ghost(65_536),
    );
    let normal = if along < 0 {
        intersection.normal
    } else {
        Vec3 {
            x: clamp(-(intersection.normal.x as i128)),
            y: clamp(-(intersection.normal.y as i128)),
            z: clamp(-(intersection.normal.z as i128)),
        }
    };
    hemi.rotate_towards(&normal).normalize()
}

/// A matt grey surface that reflects the share `gray_scale`, in 65536ths, of
/// the light of every wavelength.
#[derive(Clone, Copy, PartialEq, Eq, Debug, Structural)]
pub struct DiffuseGrayMaterial {
    pub gray_scale: u32,
}

impl DiffuseGrayMaterial {
    /// A matt grey surface.
    pub fn new(gray_scale: u32) -> (material: DiffuseGrayMaterial)
        ensures
            material == (DiffuseGrayMaterial { gray_scale }),
    {
        DiffuseGrayMaterial { gray_scale }
    }

    /// The ray that leaves the surface: it starts at the hit, points into the
    /// scattered direction, keeps its wavelength, and has the strength
    /// `gray_scale`.
    pub fn get_next_ray(&self, incoming: Ray, intersection: Intersection, hemi: Vec3) -> (next: Ray)
        requires
            incoming.direction.is_direction(),
            intersection.normal.is_direction(),
        ensures
            next == (Ray {
                position: intersection.position,
                direction: scattered(incoming, intersection, hemi),
                wavelength: incoming.wavelength,
                strength: self.gray_scale,
            }),
            next.direction.is_direction(),
    {
        let direction = scatter(&incoming, &intersection, &hemi);
        Ray::new(intersection.position, direction, incoming.wavelength, self.gray_scale)
    }
}

/// A matt coloured surface: it reflects light of its own wavelength, given in
/// picometres, with the share `brightness`, and light of other wavelengths
/// the less the farther they lie from it, along a bell curve as wide as
/// `deviation`.
#[derive(Clone, Copy, PartialEq, Eq, Debug, Structural)]
pub struct SimpleDiffuseColoredMaterial {
    pub wavelength: u32,
    pub deviation: u32,
    pub brightness: u32,
}

/// Half the square of the distance between two wavelengths, measured in
/// deviations: the number whose negative exponential is the height of the
/// bell curve. It counts 65536ths and is rounded down; it is `u64::MAX` where
/// it would be larger, and for a bell curve without width.
pub open spec fn bell_exponent(centre: u32, deviation: u32, wavelength: u32) -> u64 {
    let apart = centre - wavelength;
    if deviation == 0 || (apart * apart * 65_536) / (2 * (deviation * deviation)) > u64::MAX {
        u64::MAX
    } else {
        ((apart * apart * 65_536) / (2 * (deviation * deviation))) as u64
    }
}

/// Computes `bell_exponent`.
pub fn get_bell_exponent(centre: u32, deviation: u32, wavelength: u32) -> (exponent: u64)
    ensures
        exponent == bell_exponent(centre, deviation, wavelength),
{
    if deviation == 0 {
        return u64::MAX;
    }
    let apart: i128 = centre as i128 - wavelength as i128;
    assert(0 <= apart * apart <= 0xFFFF_FFFF * 0xFFFF_FFFF) by (nonlinear_arith)
        requires
            -0xFFFF_FFFF <= apart <= 0xFFFF_FFFF,
    ;
    assert(0 < deviation * deviation <= 0xFFFF_FFFF * 0xFFFF_FFFF) by (nonlinear_arith)
        requires
            0 < deviation <= 0xFFFF_FFFF,
    ;
    let above: u128 = (apart * apart) as u128 * 65_536;
    let below: u128 = 2 * (deviation as u128 * deviation as u128);
    let exponent: u128 = above / below;
    if exponent > u64::MAX as u128 {
        u64::MAX
    } else {
        exponent as u64
    }
}

impl SimpleDiffuseColoredMaterial {
    /// A matt coloured surface.
    pub fn new(brightness: u32, wavelength: u32, deviation: u32) -> (material:
        SimpleDiffuseColoredMaterial)
        ensures
            material == (SimpleDiffuseColoredMaterial { wavelength, deviation, brightness }),
    {
        SimpleDiffuseColoredMaterial { wavelength, deviation, brightness }
    }

    /// The number whose negative exponential is the share of light that the
    /// surface reflects at the wavelength of `incoming`.
    pub fn exponent(&self, incoming: &Ray) -> (exponent: u64)
        ensures
            exponent == bell_exponent(self.wavelength, self.deviation, incoming.wavelength),
    {
        get_bell_exponent(self.wavelength, self.deviation, incoming.wavelength)
    }

    /// The ray that leaves the surface: scattered like that of a grey
    /// surface, with the strength `brightness` times `response`, which is the
    /// negative exponential of `exponent(incoming)`, in 65536ths, as the
    /// caller has evaluated it.
    pub fn get_next_ray(
        &self,
        incoming: Ray,
        intersection: Intersection,
        hemi: Vec3,
        response: u32,
    ) -> (next: Ray)
        requires
            incoming.direction.is_direction(),
            intersection.normal.is_direction(),
        ensures
            next == (Ray {
                position: intersection.position,
                direction: scattered(incoming, intersection, hemi),
                wavelength: incoming.wavelength,
                strength: scaled(self.brightness as int, response as int) as u32,
            }),
            next.direction.is_direction(),
    {
        let direction = scatter(&incoming, &intersection, &hemi);
        Ray::new(
            intersection.position,
            direction,
            incoming.wavelength,
            scale(self.brightness, response),
        )
    }
}

} // verus!
