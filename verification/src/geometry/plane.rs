//! A plane without bounds.

use vstd::prelude::*;
use crate::fixed::{clamp, quotient, ratio};
use crate::geometry::intersection::{lemma_hit_at_distance, Intersection};
use crate::geometry::ray::{Ray, REACH};
use crate::geometry::vec3::{fitted, Vec3};
use crate::fixed::lemma_quotient_shift;
use crate::geometry::wide::{along_axis, lemma_axis_step_back, Wide};

verus! {

/// The plane through `position` that stands at right angles to `normal`.
#[derive(Clone, Copy, PartialEq, Eq, Debug, Structural)]
pub struct Plane {
    pub normal: Vec3,
    pub position: Vec3,
}

/// How fast a ray approaches the plane through `position` with the given
/// normal: the dot product of the normal and the ray's direction. It is
/// negative where the ray runs against the normal.
pub open spec fn approach(normal: Vec3, ray: Ray) -> int {
    normal@.dot(ray.direction@)
}

/// How far the ray's origin stands off the plane, along the normal.
pub open spec fn standoff(normal: Vec3, position: Vec3, ray: Ray) -> int {
    normal@.dot(ray.position@.minus(position@))
}

/// The distance along the ray at which it crosses the plane, in 65536ths of
/// the direction's length and rounded down. It is not positive where the
/// plane lies behind the ray.
pub open spec fn crossing(normal: Vec3, position: Vec3, ray: Ray) -> int {
    quotient(-standoff(normal, position, ray) * 65_536, approach(normal, ray))
}

/// Whether the ray crosses the plane ahead of its origin and within reach. A
/// ray that runs along the plane does not cross it.
pub open spec fn crosses(normal: Vec3, position: Vec3, ray: Ray) -> bool {
    approach(normal, ray) != 0 && 0 < crossing(normal, position, ray) <= REACH
}

/// The normal, turned to face the ray.
pub open spec fn facing(normal: Vec3, ray: Ray) -> Vec3 {
    if approach(normal, ray) > 0 {
        fitted(normal@.negated())
    } else {
        normal
    }
}

/// The hit of a ray that crosses the plane.
pub open spec fn crossing_hit(normal: Vec3, position: Vec3, ray: Ray) -> Intersection {
    let t = crossing(normal, position, ray);
    Intersection {
        position: ray.at(t),
        tangent: Vec3 { x: 0, y: 0, z: 0 },
        normal: facing(normal, ray),
        distance_squared: (t * t) as u128,
    }
}

/// Crosses a ray with the plane through `position` with the given normal.
pub fn cross_plane(normal: &Vec3, position: &Vec3, ray: &Ray) -> (hit: Option<Intersection>)
    requires
        ray.direction.is_direction(),
    ensures
        crosses(*normal, *position, *ray) ==> hit == Some(crossing_hit(*normal, *position, *ray)),
        !crosses(*normal, *position, *ray) ==> hit is None,
        hit matches Some(found) ==> found.lies_ahead_on(*ray),
        hit matches Some(found) ==> (normal.is_direction() ==> found.faces(*ray)),
{
    let n = Wide::of(normal);
    let d: i128 = n.dot(&Wide::of(&ray.direction), Ghost(0x8000_0000), Ghost(65_536));
    if d == 0 {
        return None;
    }
    let origin = Wide::between(&ray.position, position);
    let height: i128 = n.dot(&origin, Ghost(0x8000_0000), Ghost(0xFFFF_FFFF));
    let t: i128 = ratio(-height * 65_536, d);
    if t <= 0 || t > REACH as i128 {
        return None;
    }
    assert(0 < t * t <= 0x100_0000_0000 * 0x100_0000_0000) by (nonlinear_arith)
        requires
            0 < t <= 0x100_0000_0000,
    ;
    let turned = if d > 0 {
        Vec3 { x: clamp(-(normal.x as i128)), y: clamp(-(normal.y as i128)), z: clamp(-(normal.z as i128)) }
    } else {
        *normal
    };
    let hit = Intersection::new(ray.point_at(t as u64), turned, Vec3::new(0, 0, 0), (t * t) as u128);
    proof {
        lemma_hit_at_distance(*ray, hit, t as int);
        if normal.is_direction() {
            lemma_facing_normal_faces_ray(*normal, *ray);
        }
    }
    Some(hit)
}

impl Plane {
    /// The plane through `position` that stands at right angles to `normal`.
    pub fn new(position: Vec3, normal: Vec3) -> (plane: Plane)
        ensures
            plane == (Plane { normal, position }),
    {
        Plane { normal, position }
    }

    /// The hit of a ray on the plane: where the ray crosses it ahead of its
    /// origin, with the plane's normal turned to face the ray, and `None`
    /// where the ray runs along the plane or away from it.
    pub fn intersect(&self, ray: &Ray) -> (hit: Option<Intersection>)
        requires
            ray.direction.is_direction(),
        ensures
            crosses(self.normal, self.position, *ray) ==> hit == Some(
                crossing_hit(self.normal, self.position, *ray),
            ),
            !crosses(self.normal, self.position, *ray) ==> hit is None,
            hit matches Some(found) ==> found.lies_ahead_on(*ray),
            hit matches Some(found) ==> (self.normal.is_direction() ==> found.faces(*ray)),
    {
        cross_plane(&self.normal, &self.position, ray)
    }
}

/// The normal of a hit faces the ray: a normal that can be a direction, turned
/// to face a ray, never points the ray's way, can still be a direction, and
/// is as long as it was.
pub proof fn lemma_facing_normal_faces_ray(normal: Vec3, ray: Ray)
    requires
        normal.is_direction(),
    ensures
        facing(normal, ray)@.dot(ray.direction@) <= 0,
        facing(normal, ray).is_direction(),
        facing(normal, ray)@.norm_squared() == normal@.norm_squared(),
{
    let n = normal@;
    let d = ray.direction@;
    if approach(normal, ray) > 0 {
        let m = fitted(n.negated())@;
        assert(m == n.negated());
        assert(m.dot(d) == -n.dot(d)) by (nonlinear_arith)
            requires
                m == n.negated(),
                m.dot(d) == m.x * d.x + m.y * d.y + m.z * d.z,
                n.dot(d) == n.x * d.x + n.y * d.y + n.z * d.z,
        ;
        assert(m.norm_squared() == n.norm_squared()) by (nonlinear_arith)
            requires
                m == n.negated(),
                m.norm_squared() == m.x * m.x + m.y * m.y + m.z * m.z,
                n.norm_squared() == n.x * n.x + n.y * n.y + n.z * n.z,
        ;
    }
}

/// Moving the origin of a ray along an axis by `m` along the ray moves the
/// distance at which the ray crosses a plane by `m` the other way, and does
/// not change how fast the ray approaches the plane.
proof fn lemma_axis_ray_shift(normal: Vec3, position: Vec3, ray: Ray, moved: Ray, m: int)
    requires
        along_axis(ray.direction@),
        moved.direction == ray.direction,
        moved.position@ == ray.position@.plus(ray.direction@.times(m).over(65_536)),
        approach(normal, ray) != 0,
    ensures
        approach(normal, moved) == approach(normal, ray),
        crossing(normal, position, moved) == crossing(normal, position, ray) - m,
{
    let d = ray.direction@;
    let n = normal@;
    let o = ray.position@.minus(position@);
    let o2 = moved.position@.minus(position@);
    let w = d.times(m).over(65_536);
    assert((65_536 * m) / 65_536 == m);
    assert((-65_536 * m) / 65_536 == -m);
    assert((0 * m) / 65_536 == 0);
    assert(o2 == o.plus(w));
    let a = n.dot(d);
    let s = n.dot(o);
    let s2 = n.dot(o2);
    assert(-s2 * 65_536 == -s * 65_536 - m * a) by (nonlinear_arith)
        requires
            along_axis(d),
            w == d.times(m).over(65_536),
            (65_536 * m) / 65_536 == m,
            (-65_536 * m) / 65_536 == -m,
            (0 * m) / 65_536 == 0,
            o2 == o.plus(w),
            a == n.x * d.x + n.y * d.y + n.z * d.z,
            s == n.x * o.x + n.y * o.y + n.z * o.z,
            s2 == n.x * o2.x + n.y * o2.y + n.z * o2.z,
    ;
    lemma_quotient_shift(-s * 65_536, a, m);
}

/// A hit on a plane is found again from a step back along an axis: where a
/// ray along an axis crosses the plane at a point that lies in space, the
/// ray that starts `k` before that point and points the same way crosses the
/// plane at the same point, with the same normal, at the distance `k`.
pub proof fn lemma_axis_ray_finds_hit_again(
    normal: Vec3,
    position: Vec3,
    ray: Ray,
    back: Ray,
    k: int,
)
    requires
        along_axis(ray.direction@),
        crosses(normal, position, ray),
        crossing_hit(normal, position, ray).position@ == ray.position@.plus(
            ray.direction@.times(crossing(normal, position, ray)).over(65_536),
        ),
        0 < k <= REACH,
        back.direction == ray.direction,
        back.position@ == crossing_hit(normal, position, ray).position@.minus(
            ray.direction@.times(k).over(65_536),
        ),
    ensures
        crosses(normal, position, back),
        crossing(normal, position, back) == k,
        crossing_hit(normal, position, back) == (Intersection {
            distance_squared: (k * k) as u128,
            ..crossing_hit(normal, position, ray)
        }),
{
    let t = crossing(normal, position, ray);
    lemma_axis_step_back(ray.direction@, t, k);
    assert(back.position@ == ray.position@.plus(ray.direction@.times(t - k).over(65_536)));
    lemma_axis_ray_shift(normal, position, ray, back, t - k);
    assert(back.at(k) == crossing_hit(normal, position, ray).position);
    assert(0 <= k * k <= 0x100_0000_0000 * 0x100_0000_0000) by (nonlinear_arith)
        requires
            0 < k <= 0x100_0000_0000,
    ;
}

} // verus!
