//! A sphere.

use vstd::prelude::*;
use crate::fixed::{clamp, floor_div, isqrt, lemma_sqrt_of_square, sqrt_floor};
use crate::geometry::plane::{facing, lemma_facing_normal_faces_ray};
use crate::geometry::intersection::{lemma_hit_at_distance, Intersection};
use crate::geometry::ray::{Ray, REACH};
use crate::geometry::vec3::{narrowed, Vec3};
use crate::geometry::wide::{
    along_axis, lemma_axis_step_back, lemma_product_within, Triple, Wide,
};

verus! {

/// The sphere around `position`. Beside its radius it holds the radius's
/// square, in 65536ths of 65536ths.
#[derive(Clone, Copy, PartialEq, Eq, Debug, Structural)]
pub struct Sphere {
    pub position: Vec3,
    pub radius: i32,
    pub radius_squared: u64,
}

impl Sphere {
    /// Whether the sphere holds the square of its radius.
    pub open spec fn wf(self) -> bool {
        self.radius_squared == self.radius * self.radius
    }

    /// The vector from the sphere's centre to the ray's origin.
    pub open spec fn offset(self, ray: Ray) -> Triple {
        ray.position@.minus(self.position@)
    }

    /// A quarter of the discriminant of the quadratic equation whose roots
    /// are the distances at which the ray's line pierces the sphere. It is
    /// negative where the line passes the sphere by.
    pub open spec fn discriminant(self, ray: Ray) -> int {
        let d = ray.direction@;
        let o = self.offset(ray);
        d.dot(o) * d.dot(o) - d.norm_squared() * (o.norm_squared() - self.radius_squared)
    }

    /// The smaller of the two distances at which the ray's line pierces the
    /// sphere, in 65536ths of the direction's length and rounded down.
    pub open spec fn entry(self, ray: Ray) -> int {
        let d = ray.direction@;
        (-d.dot(self.offset(ray)) - sqrt_floor(self.discriminant(ray))) * 65_536 / d.norm_squared()
    }

    /// The larger of the two distances at which the ray's line pierces the
    /// sphere, in 65536ths of the direction's length and rounded down.
    pub open spec fn exit(self, ray: Ray) -> int {
        let d = ray.direction@;
        (-d.dot(self.offset(ray)) + sqrt_floor(self.discriminant(ray))) * 65_536 / d.norm_squared()
    }

    /// The distance at which the ray first meets the sphere: the smaller of
    /// the two distances where that is positive, and the larger where it is
    /// not, as it is for a ray that starts inside the sphere. It is not
    /// positive where the whole sphere lies behind the ray.
    pub open spec fn first_ahead(self, ray: Ray) -> int {
        if self.entry(ray) > 0 {
            self.entry(ray)
        } else {
            self.exit(ray)
        }
    }

    /// Whether the ray's line misses the sphere altogether: the line comes no
    /// nearer to the centre than the radius. A ray without direction misses
    /// everything.
    pub open spec fn missed_by_line(self, ray: Ray) -> bool {
        ray.direction@.norm_squared() == 0 || self.discriminant(ray) < 0
    }

    /// Whether the ray hits the sphere: its line pierces the sphere, and the
    /// first of the two points that lies ahead of the ray's origin lies
    /// within reach. Only a sphere that lies behind the ray altogether, or
    /// beside it, is not hit.
    pub open spec fn hit_by(self, ray: Ray) -> bool {
        !self.missed_by_line(ray) && 0 < self.first_ahead(ray) <= REACH
    }

    /// The hit of a ray that hits the sphere: the first point ahead, the unit
    /// tangent that lies level at right angles to the line from the centre to
    /// that point, and the unit normal along that line, turned to face the
    /// ray: it points outward for a ray that comes from outside and inward
    /// for a ray that comes from inside.
    pub open spec fn hit(self, ray: Ray) -> Intersection {
        let t = self.first_ahead(ray);
        let position = ray.at(t);
        let normal = position@.minus(self.position@).unit();
        Intersection {
            position,
            tangent: narrowed((Triple { x: normal.z, y: 0, z: -normal.x }).unit()),
            normal: facing(narrowed(normal), ray),
            distance_squared: (t * t) as u128,
        }
    }

    /// The sphere around `position` with the given radius.
    pub fn new(position: Vec3, radius: i32) -> (sphere: Sphere)
        ensures
            sphere.wf(),
            sphere.position == position,
            sphere.radius == radius,
    {
        proof {
            lemma_product_within(radius as int, radius as int, 0x8000_0000, 0x8000_0000);
            assert(radius * radius >= 0) by (nonlinear_arith);
        }
        Sphere { position, radius, radius_squared: (radius as i64 * radius as i64) as u64 }
    }

    /// The hit of a ray on the sphere: of the two points in which the ray's
    /// line pierces it, the nearer one that lies ahead of the ray's origin. A
    /// ray from outside hits the sphere's near side, a ray from inside hits
    /// the sphere from within, and a ray that points away from the sphere
    /// hits nothing.
    pub fn intersect(&self, ray: &Ray) -> (hit: Option<Intersection>)
        requires
            ray.direction.is_direction(),
        ensures
            self.hit_by(*ray) ==> hit == Some(self.hit(*ray)),
            !self.hit_by(*ray) ==> hit is None,
            self.missed_by_line(*ray) ==> hit is None,
            hit matches Some(found) ==> found.lies_ahead_on(*ray),
            hit matches Some(found) ==> found.faces(*ray),
    {
        let d = Wide::of(&ray.direction);
        let a: i128 = d.dot(&d, Ghost(65_536), Ghost(65_536));
        assert(ray.direction@.norm_squared() >= 0) by (nonlinear_arith);
        if a == 0 {
            return None;
        }
        let offset = Wide::between(&ray.position, &self.position);
        let h: i128 = d.dot(&offset, Ghost(65_536), Ghost(0xFFFF_FFFF));
        let span: i128 = offset.dot(&offset, Ghost(0xFFFF_FFFF), Ghost(0xFFFF_FFFF));
        let c: i128 = span - self.radius_squared as i128;
        proof {
            lemma_product_within(h as int, h as int, 0x4_0000_0000_0000, 0x4_0000_0000_0000);
            lemma_product_within(a as int, c as int, 0x4_0000_0000, 0x8_0000_0000_0000_0000);
        }
        let quarter: i128 = h * h - a * c;
        if quarter < 0 {
            return None;
        }
        let root: u64 = isqrt(quarter as u128);
        assert(root <= 0x10_0000_0000_0000) by (nonlinear_arith)
            requires
                root * root <= quarter,
                quarter <= 0x4_0000_0000_0000 * 0x4_0000_0000_0000 + 0x4_0000_0000
                    * 0x8_0000_0000_0000_0000,
                0 <= root,
        ;
        let near: i128 = floor_div((-h - root as i128) * 65_536, a);
        let t: i128 = if near > 0 {
            near
        } else {
            floor_div((-h + root as i128) * 65_536, a)
        };
        if t <= 0 || t > REACH as i128 {
            return None;
        }
        assert(0 < t * t <= 0x100_0000_0000 * 0x100_0000_0000) by (nonlinear_arith)
            requires
                0 < t <= 0x100_0000_0000,
        ;
        let position = ray.point_at(t as u64);
        let normal = Wide::between(&position, &self.position).unit();
        let level = Wide { x: normal.z as i128, y: 0, z: -(normal.x as i128) };
        let tangent = level.unit();
        let approach: i128 = Wide::of(&normal).dot(&d, Ghost(65_536), Ghost(65_536));
        let turned = if approach > 0 {
            Vec3 {
                x: clamp(-(normal.x as i128)),
                y: clamp(-(normal.y as i128)),
                z: clamp(-(normal.z as i128)),
            }
        } else {
            normal
        };
        let hit = Intersection::new(position, turned, tangent, (t * t) as u128);
        proof {
            lemma_hit_at_distance(*ray, hit, t as int);
            lemma_facing_normal_faces_ray(normal, *ray);
        }
        Some(hit)
    }
}

/// The two distances at which a ray along an axis, whose line runs through
/// the centre of a sphere, pierces that sphere: the distance of the centre
/// less the radius, and the distance of the centre plus the radius.
proof fn lemma_axis_ray_roots(sphere: Sphere, ray: Ray, distance: int)
    requires
        sphere.wf(),
        0 < sphere.radius,
        along_axis(ray.direction@),
        sphere.offset(ray) == ray.direction@.times(-distance).over(65_536),
    ensures
        !sphere.missed_by_line(ray),
        sphere.entry(ray) == distance - sphere.radius,
        sphere.exit(ray) == distance + sphere.radius,
{
    let d = ray.direction@;
    let o = sphere.offset(ray);
    let r = sphere.radius as int;
    assert((65_536 * -distance) / 65_536 == -distance);
    assert((-65_536 * -distance) / 65_536 == distance);
    assert((0 * -distance) / 65_536 == 0);
    assert(d.norm_squared() == 0x1_0000_0000) by (nonlinear_arith)
        requires
            along_axis(d),
            d.norm_squared() == d.x * d.x + d.y * d.y + d.z * d.z,
    ;
    assert(d.dot(o) == -65_536 * distance) by (nonlinear_arith)
        requires
            along_axis(d),
            o == d.times(-distance).over(65_536),
            (65_536 * -distance) / 65_536 == -distance,
            (-65_536 * -distance) / 65_536 == distance,
            (0 * -distance) / 65_536 == 0,
    ;
    assert(o.norm_squared() == distance * distance) by (nonlinear_arith)
        requires
            along_axis(d),
            o == d.times(-distance).over(65_536),
            (65_536 * -distance) / 65_536 == -distance,
            (-65_536 * -distance) / 65_536 == distance,
            (0 * -distance) / 65_536 == 0,
    ;
    assert(sphere.discriminant(ray) == (65_536 * r) * (65_536 * r)) by (nonlinear_arith)
        requires
            sphere.discriminant(ray) == d.dot(o) * d.dot(o) - d.norm_squared() * (o.norm_squared()
                - sphere.radius_squared),
            d.dot(o) == -65_536 * distance,
            d.norm_squared() == 0x1_0000_0000,
            o.norm_squared() == distance * distance,
            sphere.radius_squared == r * r,
    ;
    lemma_sqrt_of_square(65_536 * r);
    assert((65_536 * distance - 65_536 * r) * 65_536 == (distance - r) * 0x1_0000_0000)
        by (nonlinear_arith);
    assert((65_536 * distance + 65_536 * r) * 65_536 == (distance + r) * 0x1_0000_0000)
        by (nonlinear_arith);
    assert((distance - r) * 0x1_0000_0000 / 0x1_0000_0000 == distance - r);
    assert((distance + r) * 0x1_0000_0000 / 0x1_0000_0000 == distance + r);
    assert(sphere.discriminant(ray) >= 0) by (nonlinear_arith)
        requires
            sphere.discriminant(ray) == (65_536 * r) * (65_536 * r),
    ;
}

/// A ray that is aimed at the centre of a sphere along an axis, from the
/// distance `distance` outside it, hits the sphere at the distance
/// `distance - radius`, at the point of the sphere that faces the ray.
pub proof fn lemma_axis_ray_hits_front(sphere: Sphere, ray: Ray, distance: int)
    requires
        sphere.wf(),
        0 < sphere.radius < distance,
        distance - sphere.radius <= REACH,
        along_axis(ray.direction@),
        sphere.offset(ray) == ray.direction@.times(-distance).over(65_536),
    ensures
        sphere.hit_by(ray),
        sphere.first_ahead(ray) == distance - sphere.radius,
        sphere.hit(ray).position == ray.at(distance - sphere.radius),
        sphere.hit(ray).distance_squared == (distance - sphere.radius) * (distance - sphere.radius),
{
    lemma_axis_ray_roots(sphere, ray, distance);
    let t = distance - sphere.radius;
    assert(0 <= t * t <= 0x100_0000_0000 * 0x100_0000_0000) by (nonlinear_arith)
        requires
            0 < t <= 0x100_0000_0000,
    ;
}

/// A ray along an axis that starts inside a sphere, on the line through its
/// centre, hits the sphere from within: where the centre lies at the distance
/// `distance` ahead of the ray's origin, or behind it where `distance` is
/// negative, the hit lies at the distance `distance + radius`. For a ray from
/// the centre itself that is the radius.
pub proof fn lemma_axis_ray_hits_from_inside(sphere: Sphere, ray: Ray, distance: int)
    requires
        sphere.wf(),
        0 < sphere.radius,
        -sphere.radius < distance <= sphere.radius,
        along_axis(ray.direction@),
        sphere.offset(ray) == ray.direction@.times(-distance).over(65_536),
    ensures
        sphere.hit_by(ray),
        sphere.first_ahead(ray) == distance + sphere.radius,
        sphere.hit(ray).position == ray.at(distance + sphere.radius),
        sphere.hit(ray).distance_squared == (distance + sphere.radius) * (distance + sphere.radius),
{
    lemma_axis_ray_roots(sphere, ray, distance);
    let t = distance + sphere.radius;
    assert(0 <= t * t <= 0x100_0000_0000 * 0x100_0000_0000) by (nonlinear_arith)
        requires
            0 < t <= 0x100_0000_0000,
    ;
}

/// Moving the origin of a ray along an axis by `m` along the ray moves both
/// distances at which the ray's line pierces a sphere by `m` the other way,
/// and changes nothing else.
proof fn lemma_axis_ray_shift(sphere: Sphere, ray: Ray, moved: Ray, m: int)
    requires
        along_axis(ray.direction@),
        moved.direction == ray.direction,
        moved.position@ == ray.position@.plus(ray.direction@.times(m).over(65_536)),
    ensures
        sphere.discriminant(moved) == sphere.discriminant(ray),
        sphere.missed_by_line(moved) == sphere.missed_by_line(ray),
        sphere.entry(moved) == sphere.entry(ray) - m,
        sphere.exit(moved) == sphere.exit(ray) - m,
{
    let d = ray.direction@;
    let o = sphere.offset(ray);
    let o2 = sphere.offset(moved);
    let w = d.times(m).over(65_536);
    assert((65_536 * m) / 65_536 == m);
    assert((-65_536 * m) / 65_536 == -m);
    assert((0 * m) / 65_536 == 0);
    assert(o2 == o.plus(w));
    let h = d.dot(o);
    let h2 = d.dot(o2);
    assert(d.norm_squared() == 0x1_0000_0000) by (nonlinear_arith)
        requires
            along_axis(d),
            d.norm_squared() == d.x * d.x + d.y * d.y + d.z * d.z,
    ;
    assert(h2 == h + 65_536 * m && 65_536 * (o2.norm_squared() - o.norm_squared()) == 2 * m * h
        + 65_536 * (m * m)) by (nonlinear_arith)
        requires
            along_axis(d),
            w == d.times(m).over(65_536),
            (65_536 * m) / 65_536 == m,
            (-65_536 * m) / 65_536 == -m,
            (0 * m) / 65_536 == 0,
            o2 == o.plus(w),
            h == d.x * o.x + d.y * o.y + d.z * o.z,
            h2 == d.x * o2.x + d.y * o2.y + d.z * o2.z,
            o.norm_squared() == o.x * o.x + o.y * o.y + o.z * o.z,
            o2.norm_squared() == o2.x * o2.x + o2.y * o2.y + o2.z * o2.z,
    ;
    let c = o.norm_squared() - sphere.radius_squared;
    let c2 = o2.norm_squared() - sphere.radius_squared;
    assert(h2 * h2 - 0x1_0000_0000 * c2 == h * h - 0x1_0000_0000 * c) by (nonlinear_arith)
        requires
            h2 == h + 65_536 * m,
            65_536 * (c2 - c) == 2 * m * h + 65_536 * (m * m),
    ;
    let root = sqrt_floor(sphere.discriminant(ray));
    assert((-h2 - root) * 65_536 == (-h - root) * 65_536 - m * 0x1_0000_0000 && (-h2 + root)
        * 65_536 == (-h + root) * 65_536 - m * 0x1_0000_0000) by (nonlinear_arith)
        requires
            h2 == h + 65_536 * m,
    ;
}

/// A hit on a sphere is found again from a step back along an axis: where a
/// ray along an axis hits the sphere at a point that lies in space, the ray
/// that starts `k` before that point, no farther back than the first ray's
/// origin, and points the same way hits the sphere at the same point, with
/// the same normal and tangent, at the distance `k`.
pub proof fn lemma_axis_ray_finds_hit_again(sphere: Sphere, ray: Ray, back: Ray, k: int)
    requires
        along_axis(ray.direction@),
        sphere.hit_by(ray),
        sphere.hit(ray).position@ == ray.position@.plus(
            ray.direction@.times(sphere.first_ahead(ray)).over(65_536),
        ),
        0 < k <= sphere.first_ahead(ray),
        back.direction == ray.direction,
        back.position@ == sphere.hit(ray).position@.minus(ray.direction@.times(k).over(65_536)),
    ensures
        sphere.hit_by(back),
        sphere.first_ahead(back) == k,
        sphere.hit(back) == (Intersection {
            distance_squared: (k * k) as u128,
            ..sphere.hit(ray)
        }),
{
    let d = ray.direction@;
    let t = sphere.first_ahead(ray);
    let m = t - k;
    lemma_axis_step_back(d, t, k);
    assert(back.position@ == ray.position@.plus(d.times(m).over(65_536)));
    lemma_axis_ray_shift(sphere, ray, back, m);
    assert(back.at(k) == sphere.hit(ray).position);
    assert(0 <= k * k <= 0x100_0000_0000 * 0x100_0000_0000) by (nonlinear_arith)
        requires
            0 < k <= 0x100_0000_0000,
    ;
}

} // verus!
