//! Quaternions, which turn vectors in space.
//!
//! Every component counts 65536ths.

use vstd::prelude::*;
use crate::fixed::{clamp, clamped, floor_div};
use crate::geometry::wide::lemma_product_within;

verus! {

/// A quaternion with the vector part `(x, y, z)` and the scalar part `w`.
#[derive(Clone, Copy, PartialEq, Eq, Debug, Structural)]
pub struct Quaternion {
    pub x: i32,
    pub y: i32,
    pub z: i32,
    pub w: i32,
}

/// The sum of four products of components, in 65536ths and rounded down,
/// moved into the range of a component.
pub open spec fn blend4(a: int, b: int, c: int, d: int) -> i32 {
    clamped((a + b + c + d) / 65_536)
}

fn negate(v: i32) -> (r: i32)
    ensures
        r == clamped(-v),
{
    clamp(-(v as i128))
}

impl Quaternion {
    /// The quaternion with every sign of the vector part turned.
    pub open spec fn conjugated(self) -> Quaternion {
        Quaternion { x: clamped(-self.x), y: clamped(-self.y), z: clamped(-self.z), w: self.w }
    }

    /// The Hamilton product of two quaternions.
    pub open spec fn product(self, q: Quaternion) -> Quaternion {
        Quaternion {
            x: blend4(self.w * q.x, self.x * q.w, self.y * q.z, -(self.z * q.y)),
            y: blend4(self.w * q.y, -(self.x * q.z), self.y * q.w, self.z * q.x),
            z: blend4(self.w * q.z, self.x * q.y, -(self.y * q.x), self.z * q.w),
            w: blend4(self.w * q.w, -(self.x * q.x), -(self.y * q.y), -(self.z * q.z)),
        }
    }

    /// The quaternion with the given components.
    pub fn new(x: i32, y: i32, z: i32, w: i32) -> (q: Quaternion)
        ensures
            q == (Quaternion { x, y, z, w }),
    {
        Quaternion { x, y, z, w }
    }

    /// The quaternion that turns by an angle about the axis `(x, y, z)`, which
    /// must be of unit length for the result to be a rotation. The angle is
    /// given by the sine and the cosine of its half.
    pub fn rotation(x: i32, y: i32, z: i32, half_sine: i32, half_cosine: i32) -> (q: Quaternion)
        ensures
            q == (Quaternion {
                x: clamped(half_sine * x / 65_536),
                y: clamped(half_sine * y / 65_536),
                z: clamped(half_sine * z / 65_536),
                w: half_cosine,
            }),
    {
        proof {
            lemma_product_within(half_sine as int, x as int, 0x8000_0000, 0x8000_0000);
            lemma_product_within(half_sine as int, y as int, 0x8000_0000, 0x8000_0000);
            lemma_product_within(half_sine as int, z as int, 0x8000_0000, 0x8000_0000);
        }
        Quaternion {
            x: clamp(floor_div(half_sine as i128 * x as i128, 65_536)),
            y: clamp(floor_div(half_sine as i128 * y as i128, 65_536)),
            z: clamp(floor_div(half_sine as i128 * z as i128, 65_536)),
            w: half_cosine,
        }
    }

    /// The conjugate: the same turn, the other way round.
    pub fn conjugate(&self) -> (q: Quaternion)
        ensures
            q == self.conjugated(),
    {
        Quaternion { x: negate(self.x), y: negate(self.y), z: negate(self.z), w: self.w }
    }

    /// The sum of two quaternions.
    pub fn add(&self, quad: &Quaternion) -> (q: Quaternion)
        ensures
            q == (Quaternion {
                x: clamped(self.x + quad.x),
                y: clamped(self.y + quad.y),
                z: clamped(self.z + quad.z),
                w: clamped(self.w + quad.w),
            }),
    {
        Quaternion {
            x: clamp(self.x as i128 + quad.x as i128),
            y: clamp(self.y as i128 + quad.y as i128),
            z: clamp(self.z as i128 + quad.z as i128),
            w: clamp(self.w as i128 + quad.w as i128),
        }
    }

    /// The difference of two quaternions.
    pub fn subtract(&self, quad: &Quaternion) -> (q: Quaternion)
        ensures
            q == (Quaternion {
                x: clamped(self.x - quad.x),
                y: clamped(self.y - quad.y),
                z: clamped(self.z - quad.z),
                w: clamped(self.w - quad.w),
            }),
    {
        Quaternion {
            x: clamp(self.x as i128 - quad.x as i128),
            y: clamp(self.y as i128 - quad.y as i128),
            z: clamp(self.z as i128 - quad.z as i128),
            w: clamp(self.w as i128 - quad.w as i128),
        }
    }

    /// The quaternion times the factor `f`, which counts 65536ths.
    pub fn scale(&self, f: i32) -> (q: Quaternion)
        ensures
            q == (Quaternion {
                x: clamped(self.x * f / 65_536),
                y: clamped(self.y * f / 65_536),
                z: clamped(self.z * f / 65_536),
                w: clamped(self.w * f / 65_536),
            }),
    {
        proof {
            lemma_product_within(self.x as int, f as int, 0x8000_0000, 0x8000_0000);
            lemma_product_within(self.y as int, f as int, 0x8000_0000, 0x8000_0000);
            lemma_product_within(self.z as int, f as int, 0x8000_0000, 0x8000_0000);
            lemma_product_within(self.w as int, f as int, 0x8000_0000, 0x8000_0000);
        }
        Quaternion {
            x: clamp(floor_div(self.x as i128 * f as i128, 65_536)),
            y: clamp(floor_div(self.y as i128 * f as i128, 65_536)),
            z: clamp(floor_div(self.z as i128 * f as i128, 65_536)),
            w: clamp(floor_div(self.w as i128 * f as i128, 65_536)),
        }
    }

    /// The Hamilton product of two quaternions: the turn `q` followed by this
    /// one.
    pub fn multiply(&self, q: &Quaternion) -> (r: Quaternion)
        ensures
            r == self.product(*q),
    {
        Quaternion {
            x: blend(times(self.w, q.x), times(self.x, q.w), times(self.y, q.z), -times(self.z, q.y)),
            y: blend(times(self.w, q.y), -times(self.x, q.z), times(self.y, q.w), times(self.z, q.x)),
            z: blend(times(self.w, q.z), times(self.x, q.y), -times(self.y, q.x), times(self.z, q.w)),
            w: blend(times(self.w, q.w), -times(self.x, q.x), -times(self.y, q.y), -times(self.z, q.z)),
        }
    }
}

/// The product of two components, not yet scaled.
fn times(a: i32, b: i32) -> (r: i128)
    ensures
        r == a * b,
        -0x4000_0000_0000_0000 <= r <= 0x4000_0000_0000_0000,
{
    proof {
        lemma_product_within(a as int, b as int, 0x8000_0000, 0x8000_0000);
    }
    a as i128 * b as i128
}

/// Four products summed, scaled and clamped.
fn blend(a: i128, b: i128, c: i128, d: i128) -> (r: i32)
    requires
        -0x4000_0000_0000_0000 <= a <= 0x4000_0000_0000_0000,
        -0x4000_0000_0000_0000 <= b <= 0x4000_0000_0000_0000,
        -0x4000_0000_0000_0000 <= c <= 0x4000_0000_0000_0000,
        -0x4000_0000_0000_0000 <= d <= 0x4000_0000_0000_0000,
    ensures
        r == blend4(a as int, b as int, c as int, d as int),
{
    clamp(floor_div(a + b + c + d, 65_536))
}

} // verus!
