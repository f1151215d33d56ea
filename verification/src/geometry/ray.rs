//! Rays of light.

use vstd::prelude::*;
use crate::fixed::{clamp, floor_div};
use crate::geometry::vec3::{fitted, Vec3};
use crate::geometry::wide::lemma_product_within;

verus! {

/// The farthest that a ray reaches, in 65536ths of a unit of length. It is
/// many times the width of space: nothing that can be placed in space lies
/// farther from a ray's origin along a direction of unit length.
pub const REACH: u64 = 0x100_0000_0000;

/// A ray: where it starts, the way it points, its wavelength in picometres and
/// the strength, in 65536ths, of the light that travels along it.
#[derive(Clone, Copy, PartialEq, Eq, Debug, Structural)]
pub struct Ray {
    pub position: Vec3,
    pub direction: Vec3,
    pub wavelength: u32,
    pub strength: u32,
}

impl Ray {
    /// The point at the distance `t` along the ray, `t` counted in 65536ths
    /// of the direction's length.
    pub open spec fn at(self, t: int) -> Vec3 {
        fitted(self.position@.plus(self.direction@.times(t).over(65_536)))
    }

    /// A ray.
    pub fn new(position: Vec3, direction: Vec3, wavelength: u32, strength: u32) -> (ray: Ray)
        ensures
            ray == (Ray { position, direction, wavelength, strength }),
    {
        Ray { position, direction, wavelength, strength }
    }

    /// The point at the distance `t` along the ray.
    pub fn point_at(&self, t: u64) -> (point: Vec3)
        requires
            t <= REACH,
        ensures
            point == self.at(t as int),
    {
        proof {
            lemma_product_within(self.direction.x as int, t as int, 0x8000_0000, 0x100_0000_0000);
            lemma_product_within(self.direction.y as int, t as int, 0x8000_0000, 0x100_0000_0000);
            lemma_product_within(self.direction.z as int, t as int, 0x8000_0000, 0x100_0000_0000);
        }
        let x: i128 = floor_div(self.direction.x as i128 * t as i128, 65_536);
        let y: i128 = floor_div(self.direction.y as i128 * t as i128, 65_536);
        let z: i128 = floor_div(self.direction.z as i128 * t as i128, 65_536);
        Vec3 {
            x: clamp(self.position.x as i128 + x),
            y: clamp(self.position.y as i128 + y),
            z: clamp(self.position.z as i128 + z),
        }
    }
}

} // verus!
