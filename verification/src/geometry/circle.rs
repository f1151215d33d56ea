//! A flat disc.

use vstd::prelude::*;
use crate::geometry::intersection::Intersection;
use crate::geometry::plane::{cross_plane, crosses, crossing, crossing_hit};
use crate::geometry::ray::{Ray, REACH};
use crate::geometry::vec3::Vec3;
use crate::geometry::wide::{along_axis, lemma_product_within, Wide};

verus! {

/// The disc around `position` in the plane that stands at right angles to
/// `normal`. Its radius is held as a square, in 65536ths of 65536ths.
#[derive(Clone, Copy, PartialEq, Eq, Debug, Structural)]
pub struct Circle {
    pub position: Vec3,
    pub normal: Vec3,
    pub radius_squared: u64,
}

impl Circle {
    /// Whether a point lies no farther from the disc's centre than its radius.
    pub open spec fn covers(self, point: Vec3) -> bool {
        point@.minus(self.position@).norm_squared() <= self.radius_squared
    }

    /// Whether a ray hits the disc: it crosses the disc's plane ahead of its
    /// origin, and the point of crossing lies on the disc.
    pub open spec fn hit_by(self, ray: Ray) -> bool {
        crosses(self.normal, self.position, ray) && self.covers(
            crossing_hit(self.normal, self.position, ray).position,
        )
    }

    /// The disc around `position` with the given normal and radius.
    pub fn new(position: Vec3, normal: Vec3, radius: i32) -> (disc: Circle)
        ensures
            disc == (Circle { position, normal, radius_squared: (radius * radius) as u64 }),
    {
        proof {
            lemma_product_within(radius as int, radius as int, 0x8000_0000, 0x8000_0000);
            assert(radius * radius >= 0) by (nonlinear_arith);
        }
        Circle { position, normal, radius_squared: (radius as i64 * radius as i64) as u64 }
    }

    /// The hit of a ray on the disc: the hit on the disc's plane where that
    /// lies on the disc, and `None` everywhere else.
    pub fn intersect(&self, ray: &Ray) -> (hit: Option<Intersection>)
        requires
            ray.direction.is_direction(),
        ensures
            self.hit_by(*ray) ==> hit == Some(crossing_hit(self.normal, self.position, *ray)),
            !self.hit_by(*ray) ==> hit is None,
            hit matches Some(found) ==> found.lies_ahead_on(*ray),
            hit matches Some(found) ==> (self.normal.is_direction() ==> found.faces(*ray)),
    {
        match cross_plane(&self.normal, &self.position, ray) {
            Some(found) => {
                let offset = Wide::between(&found.position, &self.position);
                let distance: i128 = offset.dot(&offset, Ghost(0xFFFF_FFFF), Ghost(0xFFFF_FFFF));
                if distance > self.radius_squared as i128 {
                    None
                } else {
                    Some(found)
                }
            },
            None => None,
        }
    }
}

/// A hit on a disc is found again from a step back along an axis: where a
/// ray along an axis hits the disc at a point that lies in space, the ray
/// that starts `k` before that point and points the same way hits the disc
/// at the same point, with the same normal, at the distance `k`.
pub proof fn lemma_axis_ray_finds_hit_again(disc: Circle, ray: Ray, back: Ray, k: int)
    requires
        along_axis(ray.direction@),
        disc.hit_by(ray),
        crossing_hit(disc.normal, disc.position, ray).position@ == ray.position@.plus(
            ray.direction@.times(crossing(disc.normal, disc.position, ray)).over(65_536),
        ),
        0 < k <= REACH,
        back.direction == ray.direction,
        back.position@ == crossing_hit(disc.normal, disc.position, ray).position@.minus(
            ray.direction@.times(k).over(65_536),
        ),
    ensures
        disc.hit_by(back),
        crossing_hit(disc.normal, disc.position, back) == (Intersection {
            distance_squared: (k * k) as u128,
            ..crossing_hit(disc.normal, disc.position, ray)
        }),
{
    crate::geometry::plane::lemma_axis_ray_finds_hit_again(disc.normal, disc.position, ray, back, k);
}

} // verus!
