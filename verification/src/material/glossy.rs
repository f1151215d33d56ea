//! Glossy surfaces, which blend a mirror with another material.

use vstd::prelude::*;
use crate::fixed::floor_div;
use crate::geometry::intersection::Intersection;
use crate::geometry::ray::Ray;
use crate::geometry::vec3::{narrowed, Vec3};
use crate::geometry::wide::{lemma_product_within, Wide};
use crate::units::scaled;

verus! {

/// A surface between a mirror and a base material: `glossiness`, in 65536ths
/// and at most `ONE`, is the share of the base material, so that zero is a
/// perfect mirror.
#[derive(Clone, Copy, PartialEq, Eq, Debug, Structural)]
pub struct GlossyMaterial {
    pub glossiness: u32,
}

impl GlossyMaterial {
    /// Whether the glossiness is a share: at most `ONE`.
    pub open spec fn wf(self) -> bool {
        self.glossiness <= 65_536
    }

    /// The blend of the direction in which the base material sends the ray
    /// and the direction in which a mirror would, brought to unit length.
    pub open spec fn blended(self, incoming: Ray, intersection: Intersection, base: Ray) -> Vec3 {
        let mirror = incoming.direction.mirrored(intersection.normal);
        narrowed(
            base.direction@.times(self.glossiness as int).plus(
                mirror@.times(65_536 - self.glossiness),
            ).over(65_536).unit(),
        )
    }

    /// The strength of the ray that leaves the surface: the base ray's
    /// strength for the mirror's share, and full strength for the rest; and
    /// `u32::MAX` where that is larger.
    pub open spec fn strengthened(self, base: Ray) -> u32 {
        let sum = scaled(base.strength as int, 65_536 - self.glossiness) + self.glossiness;
        if sum > u32::MAX {
            u32::MAX
        } else {
            sum as u32
        }
    }

    /// A glossy surface.
    pub fn new(glossiness: u32) -> (material: GlossyMaterial)
        ensures
            material == (GlossyMaterial { glossiness }),
    {
        GlossyMaterial { glossiness }
    }

    /// The ray that leaves the surface, made from the ray `base` that the
    /// base material gave for the same hit: the direction is blended with
    /// the mirror's, the strength with full strength, and all else is kept.
    pub fn get_next_ray(&self, incoming: Ray, intersection: Intersection, base: Ray) -> (next: Ray)
        requires
            self.wf(),
            base.direction.is_direction(),
        ensures
            next == (Ray {
                direction: self.blended(incoming, intersection, base),
                strength: self.strengthened(base),
                ..base
            }),
            next.direction.is_direction(),
    {
        let mirror = incoming.direction.reflect(&intersection.normal);
        let share: i128 = self.glossiness as i128;
        let rest: i128 = 65_536 - share;
        proof {
            lemma_product_within(base.direction.x as int, share as int, 65_536, 65_536);
            lemma_product_within(base.direction.y as int, share as int, 65_536, 65_536);
            lemma_product_within(base.direction.z as int, share as int, 65_536, 65_536);
            lemma_product_within(mirror.x as int, rest as int, 0x8000_0000, 65_536);
            lemma_product_within(mirror.y as int, rest as int, 0x8000_0000, 65_536);
            lemma_product_within(mirror.z as int, rest as int, 0x8000_0000, 65_536);
        }
        let blend = Wide {
            x: floor_div(base.direction.x as i128 * share + mirror.x as i128 * rest, 65_536),
            y: floor_div(base.direction.y as i128 * share + mirror.y as i128 * rest, 65_536),
            z: floor_div(base.direction.z as i128 * share + mirror.z as i128 * rest, 65_536),
        };
        let direction = blend.unit();
        assert(0 <= base.strength * rest <= 0xFFFF_FFFF * 65_536) by (nonlinear_arith)
            requires
                0 <= base.strength <= 0xFFFF_FFFF,
                0 <= rest <= 65_536,
        ;
        let kept: u64 = (base.strength as u64 * rest as u64) / 65_536;
        let sum: u64 = kept + self.glossiness as u64;
        let strength: u32 = if sum > u32::MAX as u64 {
            u32::MAX
        } else {
            sum as u32
        };
        Ray { direction, strength, ..base }
    }
}

} // verus!
