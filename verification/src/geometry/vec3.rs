//! Points and directions in space.
//!
//! A coordinate counts 65536ths of a unit of length, so that space reaches
//! 32768 units from the origin along each axis. A sum or product that would
//! lie beyond is moved onto the edge of space.

use vstd::prelude::*;
use crate::fixed::{clamp, clamped, floor_div, isqrt, sqrt_floor};
use crate::geometry::quaternion::Quaternion;
use crate::geometry::wide::{lemma_product_within, Triple, Wide};

verus! {

/// A point or a direction.
#[derive(Clone, Copy, PartialEq, Eq, Debug, Structural)]
pub struct Vec3 {
    pub x: i32,
    pub y: i32,
    pub z: i32,
}

impl View for Vec3 {
    type V = Triple;

    open spec fn view(&self) -> Triple {
        Triple { x: self.x as int, y: self.y as int, z: self.z as int }
    }
}

/// The vector of coordinates that is nearest to a vector of whole numbers.
pub open spec fn fitted(v: Triple) -> Vec3 {
    Vec3 { x: clamped(v.x), y: clamped(v.y), z: clamped(v.z) }
}

/// The vector of coordinates that holds a vector of whole numbers, each of
/// which is small enough to be a coordinate.
pub open spec fn narrowed(v: Triple) -> Vec3 {
    Vec3 { x: v.x as i32, y: v.y as i32, z: v.z as i32 }
}

fn fit(v: &Wide) -> (r: Vec3)
    ensures
        r == fitted(v@),
{
    Vec3 { x: clamp(v.x), y: clamp(v.y), z: clamp(v.z) }
}

impl Vec3 {
    /// Whether the vector can be a direction: no component is longer than
    /// `ONE`. Every vector that `normalize` returns can.
    pub open spec fn is_direction(self) -> bool {
        self@.within(65_536)
    }

    /// The vector times the factor `f`, which counts 65536ths.
    pub open spec fn scaled_by(self, f: int) -> Vec3 {
        fitted(self@.times(f).over(65_536))
    }

    /// The vector with the given coordinates.
    pub fn new(x: i32, y: i32, z: i32) -> (v: Vec3)
        ensures
            v == (Vec3 { x, y, z }),
    {
        Vec3 { x, y, z }
    }

    /// The sum of two vectors.
    pub fn add(&self, vec: &Vec3) -> (r: Vec3)
        ensures
            r == fitted(self@.plus(vec@)),
    {
        Vec3 {
            x: clamp(self.x as i128 + vec.x as i128),
            y: clamp(self.y as i128 + vec.y as i128),
            z: clamp(self.z as i128 + vec.z as i128),
        }
    }

    /// The difference of two vectors.
    pub fn subtract(&self, vec: &Vec3) -> (r: Vec3)
        ensures
            r == fitted(self@.minus(vec@)),
    {
        fit(&Wide::between(self, vec))
    }

    /// The vector times the factor `f`, which counts 65536ths.
    pub fn scale(&self, f: i32) -> (r: Vec3)
        ensures
            r == self.scaled_by(f as int),
    {
        proof {
            lemma_product_within(self.x as int, f as int, 0x8000_0000, 0x8000_0000);
            lemma_product_within(self.y as int, f as int, 0x8000_0000, 0x8000_0000);
            lemma_product_within(self.z as int, f as int, 0x8000_0000, 0x8000_0000);
        }
        Vec3 {
            x: clamp(floor_div(self.x as i128 * f as i128, 65_536)),
            y: clamp(floor_div(self.y as i128 * f as i128, 65_536)),
            z: clamp(floor_div(self.z as i128 * f as i128, 65_536)),
        }
    }

    /// The length of the vector, rounded down.
    pub fn length(&self) -> (r: u32)
        ensures
            r == sqrt_floor(self@.norm_squared()),
    {
        let w = Wide::of(self);
        let squared: i128 = w.dot(&w, Ghost(0x8000_0000), Ghost(0x8000_0000));
        assert(self@.norm_squared() >= 0) by (nonlinear_arith);
        let root: u64 = isqrt(squared as u128);
        assert(root <= 0xFFFF_FFFF) by (nonlinear_arith)
            requires
                root * root <= squared,
                squared <= 3 * (0x8000_0000 * 0x8000_0000),
                0 <= root,
        ;
        root as u32
    }

    /// The square of the length, in 65536ths and rounded down.
    pub fn length_squared(&self) -> (r: u64)
        ensures
            r == self@.norm_squared() / 65_536,
    {
        let w = Wide::of(self);
        let squared: i128 = w.dot(&w, Ghost(0x8000_0000), Ghost(0x8000_0000));
        assert(self@.norm_squared() >= 0) by (nonlinear_arith);
        (squared / 65_536) as u64
    }

    /// The vector of length `ONE` that points the same way; the zero vector
    /// for the zero vector, which points nowhere.
    pub fn normalize(&self) -> (r: Vec3)
        ensures
            r@ == self@.unit(),
            r.is_direction(),
    {
        Wide::of(self).unit()
    }

    /// The dot product, in 65536ths and rounded down.
    pub fn dot(&self, vec: &Vec3) -> (r: i64)
        ensures
            r == self@.dot(vec@) / 65_536,
    {
        let raw: i128 = Wide::of(self).dot(&Wide::of(vec), Ghost(0x8000_0000), Ghost(0x8000_0000));
        floor_div(raw, 65_536) as i64
    }

    /// The cross product, in 65536ths and rounded down.
    pub fn cross(&self, vec: &Vec3) -> (r: Vec3)
        ensures
            r == fitted(self@.cross(vec@).over(65_536)),
    {
        let raw: Wide = Wide::of(self).cross(&Wide::of(vec), Ghost(0x8000_0000), Ghost(0x8000_0000));
        Vec3 {
            x: clamp(floor_div(raw.x, 65_536)),
            y: clamp(floor_div(raw.y, 65_536)),
            z: clamp(floor_div(raw.z, 65_536)),
        }
    }

    /// The vector mirrored at the plane that stands at right angles to the
    /// unit vector `vec`: the vector less twice its part along `vec`.
    pub open spec fn mirrored(self, vec: Vec3) -> Vec3 {
        fitted(self@.minus(vec@.times(2 * vec@.dot(self@)).over(0x1_0000_0000)))
    }

    /// The vector turned by the quaternion `q`, which must be of unit length
    /// for the turn to keep lengths: the vector part of `q * p * conj(q)`,
    /// where `p` is the vector as a quaternion without scalar part.
    pub open spec fn rotated(self, q: Quaternion) -> Vec3 {
        let p = Quaternion { x: self.x, y: self.y, z: self.z, w: 0 };
        let r = q.product(p).product(q.conjugated());
        Vec3 { x: r.x, y: r.y, z: r.z }
    }

    /// Whether the unit vector `v` points so nearly straight up, or straight
    /// down, that no frame can safely be built around it: its height is above
    /// 9999 parts in 10000 of `ONE`.
    pub open spec fn upright(v: Vec3) -> bool {
        v.z > 65_529
    }

    /// See `upright`.
    pub open spec fn downright(v: Vec3) -> bool {
        v.z < -65_529
    }

    /// The first axis of the frame around the unit vector `v`: level, and at
    /// right angles to `v`.
    pub open spec fn frame_first(v: Vec3) -> Triple {
        (Triple { x: -(v.y as int), y: v.x as int, z: 0 }).unit()
    }

    /// The second axis of the frame around the unit vector `v`: at right
    /// angles to the first axis and to `v`.
    pub open spec fn frame_second(v: Vec3) -> Triple {
        Self::frame_first(v).cross(v@).unit()
    }

    /// The vector carried from the frame whose third axis points straight up
    /// into the frame whose third axis is the unit vector `v`. Where `v`
    /// itself points straight up the vector stays; where `v` points straight
    /// down the vector is flipped upside down.
    pub open spec fn carried(self, v: Vec3) -> Vec3 {
        if Self::upright(v) {
            self
        } else if Self::downright(v) {
            Vec3 { x: self.x, y: self.y, z: clamped(-self.z) }
        } else {
            fitted(
                Self::frame_first(v).times(self.x as int).plus(
                    Self::frame_second(v).times(self.y as int),
                ).plus(v@.times(self.z as int)).over(65_536),
            )
        }
    }

    /// Mirrors the vector at the plane that stands at right angles to the
    /// unit vector `vec`.
    pub fn reflect(&self, vec: &Vec3) -> (r: Vec3)
        ensures
            r == self.mirrored(*vec),
    {
        let v = Wide::of(vec);
        let along: i128 = v.dot(&Wide::of(self), Ghost(0x8000_0000), Ghost(0x8000_0000));
        proof {
            lemma_product_within(vec.x as int, 2 * along, 0x8000_0000, 0x2_0000_0000_0000_0000);
            lemma_product_within(vec.y as int, 2 * along, 0x8000_0000, 0x2_0000_0000_0000_0000);
            lemma_product_within(vec.z as int, 2 * along, 0x8000_0000, 0x2_0000_0000_0000_0000);
        }
        Vec3 {
            x: clamp(self.x as i128 - floor_div(vec.x as i128 * (2 * along), 0x1_0000_0000)),
            y: clamp(self.y as i128 - floor_div(vec.y as i128 * (2 * along), 0x1_0000_0000)),
            z: clamp(self.z as i128 - floor_div(vec.z as i128 * (2 * along), 0x1_0000_0000)),
        }
    }

    /// Turns the vector by the quaternion `q`.
    pub fn rotate(&self, q: &Quaternion) -> (r: Vec3)
        ensures
            r == self.rotated(*q),
    {
        let p = Quaternion::new(self.x, self.y, self.z, 0);
        let r = q.multiply(&p).multiply(&q.conjugate());
        Vec3 { x: r.x, y: r.y, z: r.z }
    }

    /// Carries the vector into the frame around the unit vector `v`.
    pub fn rotate_towards(&self, v: &Vec3) -> (r: Vec3)
        requires
            v.is_direction(),
        ensures
            r == self.carried(*v),
    {
        if v.z > 65_529 {
            return *self;
        } else if v.z < -65_529 {
            return Vec3 { x: self.x, y: self.y, z: clamp(-(self.z as i128)) };
        }
        let level = Wide { x: -(v.y as i128), y: v.x as i128, z: 0 };
        let a1 = level.unit();
        let a2 = Wide::of(&a1).cross(&Wide::of(v), Ghost(65_536), Ghost(65_536)).unit();
        proof {
            lemma_product_within(a1.x as int, self.x as int, 65_536, 0x8000_0000);
            lemma_product_within(a1.y as int, self.x as int, 65_536, 0x8000_0000);
            lemma_product_within(a1.z as int, self.x as int, 65_536, 0x8000_0000);
            lemma_product_within(a2.x as int, self.y as int, 65_536, 0x8000_0000);
            lemma_product_within(a2.y as int, self.y as int, 65_536, 0x8000_0000);
            lemma_product_within(a2.z as int, self.y as int, 65_536, 0x8000_0000);
            lemma_product_within(v.x as int, self.z as int, 65_536, 0x8000_0000);
            lemma_product_within(v.y as int, self.z as int, 65_536, 0x8000_0000);
            lemma_product_within(v.z as int, self.z as int, 65_536, 0x8000_0000);
        }
        let x: i128 = a1.x as i128 * self.x as i128 + a2.x as i128 * self.y as i128 + v.x as i128
            * self.z as i128;
        let y: i128 = a1.y as i128 * self.x as i128 + a2.y as i128 * self.y as i128 + v.y as i128
            * self.z as i128;
        let z: i128 = a1.z as i128 * self.x as i128 + a2.z as i128 * self.y as i128 + v.z as i128
            * self.z as i128;
        Vec3 {
            x: clamp(floor_div(x, 65_536)),
            y: clamp(floor_div(y, 65_536)),
            z: clamp(floor_div(z, 65_536)),
        }
    }
}

} // verus!
