//! Vectors of whole numbers without a limit on their size, for contracts, and
//! of 128 bits, for the steps of a computation that must not round.

use vstd::prelude::*;
use crate::fixed::{floor_div, isqrt, sqrt_floor};
use crate::geometry::vec3::Vec3;

verus! {

/// A vector of three whole numbers of any size.
pub ghost struct Triple {
    pub x: int,
    pub y: int,
    pub z: int,
}

impl Triple {
    /// The difference of two vectors.
    pub open spec fn minus(self, v: Triple) -> Triple {
        Triple { x: self.x - v.x, y: self.y - v.y, z: self.z - v.z }
    }

    /// The sum of two vectors.
    pub open spec fn plus(self, v: Triple) -> Triple {
        Triple { x: self.x + v.x, y: self.y + v.y, z: self.z + v.z }
    }

    /// The vector with every component negated.
    pub open spec fn negated(self) -> Triple {
        Triple { x: -self.x, y: -self.y, z: -self.z }
    }

    /// The vector times a whole number.
    pub open spec fn times(self, f: int) -> Triple {
        Triple { x: self.x * f, y: self.y * f, z: self.z * f }
    }

    /// The vector with every component divided by `d` and rounded down.
    pub open spec fn over(self, d: int) -> Triple {
        Triple { x: self.x / d, y: self.y / d, z: self.z / d }
    }

    /// The dot product.
    pub open spec fn dot(self, v: Triple) -> int {
        self.x * v.x + self.y * v.y + self.z * v.z
    }

    /// The cross product.
    pub open spec fn cross(self, v: Triple) -> Triple {
        Triple {
            x: self.y * v.z - self.z * v.y,
            y: self.z * v.x - self.x * v.z,
            z: self.x * v.y - self.y * v.x,
        }
    }

    /// The square of the length.
    pub open spec fn norm_squared(self) -> int {
        self.dot(self)
    }

    /// Whether no component is larger than `bound`, whatever its sign.
    pub open spec fn within(self, bound: int) -> bool {
        &&& -bound <= self.x <= bound
        &&& -bound <= self.y <= bound
        &&& -bound <= self.z <= bound
    }

    /// Whether this is the zero vector.
    pub open spec fn is_zero(self) -> bool {
        self.x == 0 && self.y == 0 && self.z == 0
    }

    /// The vector of length `ONE` that points the way of this one, every
    /// component rounded down; the zero vector for the zero vector. The
    /// length by which the vector is divided is itself taken with sixteen
    /// more binary places than the vector has.
    pub open spec fn unit(self) -> Triple {
        if self.is_zero() {
            self
        } else {
            self.times(0x1_0000_0000).over(sqrt_floor(self.norm_squared() * 0x1_0000_0000))
        }
    }
}

/// Whether a direction is a unit vector along one of the three axes.
pub open spec fn along_axis(d: Triple) -> bool {
    ||| (d.x == 65_536 || d.x == -65_536) && d.y == 0 && d.z == 0
    ||| d.x == 0 && (d.y == 65_536 || d.y == -65_536) && d.z == 0
    ||| d.x == 0 && d.y == 0 && (d.z == 65_536 || d.z == -65_536)
}

/// Along an axis, going `t` forward and then `k` back is going `t - k`
/// forward, and going `k` forward from there leads to where `t` led.
pub proof fn lemma_axis_step_back(d: Triple, t: int, k: int)
    requires
        along_axis(d),
    ensures
        d.times(t).over(65_536).minus(d.times(k).over(65_536)) == d.times(t - k).over(65_536),
        d.times(t - k).over(65_536).plus(d.times(k).over(65_536)) == d.times(t).over(65_536),
{
    let m = t - k;
    assert((65_536 * m) / 65_536 == m && (65_536 * t) / 65_536 == t && (65_536 * k) / 65_536 == k);
    assert((-65_536 * m) / 65_536 == -m && (-65_536 * t) / 65_536 == -t && (-65_536 * k) / 65_536
        == -k);
    assert((0 * m) / 65_536 == 0 && (0 * t) / 65_536 == 0 && (0 * k) / 65_536 == 0);
    assert(d.times(t).over(65_536).minus(d.times(k).over(65_536)) == d.times(m).over(65_536)
        && d.times(m).over(65_536).plus(d.times(k).over(65_536)) == d.times(t).over(65_536))
        by (nonlinear_arith)
        requires
            along_axis(d),
            m == t - k,
            (65_536 * m) / 65_536 == m && (65_536 * t) / 65_536 == t && (65_536 * k) / 65_536 == k,
            (-65_536 * m) / 65_536 == -m && (-65_536 * t) / 65_536 == -t && (-65_536 * k) / 65_536
                == -k,
            (0 * m) / 65_536 == 0 && (0 * t) / 65_536 == 0 && (0 * k) / 65_536 == 0,
            d.times(t).over(65_536) == (Triple {
                x: d.x * t / 65_536,
                y: d.y * t / 65_536,
                z: d.z * t / 65_536,
            }),
            d.times(k).over(65_536) == (Triple {
                x: d.x * k / 65_536,
                y: d.y * k / 65_536,
                z: d.z * k / 65_536,
            }),
            d.times(m).over(65_536) == (Triple {
                x: d.x * m / 65_536,
                y: d.y * m / 65_536,
                z: d.z * m / 65_536,
            }),
    ;
}

/// The product of two bounded numbers is bounded by the product of the bounds.
pub proof fn lemma_product_within(a: int, b: int, ba: int, bb: int)
    requires
        -ba <= a <= ba,
        -bb <= b <= bb,
    ensures
        -(ba * bb) <= a * b <= ba * bb,
{
    assert(-(ba * bb) <= a * b <= ba * bb) by (nonlinear_arith)
        requires
            -ba <= a <= ba,
            -bb <= b <= bb,
    ;
}

/// A vector of three 128-bit numbers.
#[derive(Clone, Copy, Debug)]
pub struct Wide {
    pub x: i128,
    pub y: i128,
    pub z: i128,
}

impl View for Wide {
    type V = Triple;

    open spec fn view(&self) -> Triple {
        Triple { x: self.x as int, y: self.y as int, z: self.z as int }
    }
}

/// The largest size of a number on which every helper of this module still
/// works without overflow: two to the power of 126.
pub open spec fn limit() -> int {
    0x4000_0000_0000_0000_0000_0000_0000_0000
}

impl Wide {
    /// The vector from `from` to `to`.
    pub(crate) fn between(to: &Vec3, from: &Vec3) -> (r: Wide)
        ensures
            r@ == to@.minus(from@),
            r@.within(0xFFFF_FFFF),
    {
        Wide {
            x: to.x as i128 - from.x as i128,
            y: to.y as i128 - from.y as i128,
            z: to.z as i128 - from.z as i128,
        }
    }

    /// A vector of coordinates, widened.
    pub(crate) fn of(v: &Vec3) -> (r: Wide)
        ensures
            r@ == v@,
            r@.within(0x8000_0000),
    {
        Wide { x: v.x as i128, y: v.y as i128, z: v.z as i128 }
    }

    /// The dot product of two vectors whose components are bounded.
    pub(crate) fn dot(&self, v: &Wide, Ghost(ba): Ghost<int>, Ghost(bb): Ghost<int>) -> (r: i128)
        requires
            self@.within(ba),
            v@.within(bb),
            3 * (ba * bb) <= limit(),
        ensures
            r == self@.dot(v@),
            -(3 * (ba * bb)) <= r <= 3 * (ba * bb),
    {
        proof {
            lemma_product_within(self.x as int, v.x as int, ba, bb);
            lemma_product_within(self.y as int, v.y as int, ba, bb);
            lemma_product_within(self.z as int, v.z as int, ba, bb);
        }
        self.x * v.x + self.y * v.y + self.z * v.z
    }

    /// The cross product of two vectors whose components are bounded.
    pub(crate) fn cross(&self, v: &Wide, Ghost(ba): Ghost<int>, Ghost(bb): Ghost<int>) -> (r: Wide)
        requires
            self@.within(ba),
            v@.within(bb),
            2 * (ba * bb) <= limit(),
        ensures
            r@ == self@.cross(v@),
            r@.within(2 * (ba * bb)),
    {
        proof {
            lemma_product_within(self.y as int, v.z as int, ba, bb);
            lemma_product_within(self.z as int, v.y as int, ba, bb);
            lemma_product_within(self.z as int, v.x as int, ba, bb);
            lemma_product_within(self.x as int, v.z as int, ba, bb);
            lemma_product_within(self.x as int, v.y as int, ba, bb);
            lemma_product_within(self.y as int, v.x as int, ba, bb);
        }
        Wide {
            x: self.y * v.z - self.z * v.y,
            y: self.z * v.x - self.x * v.z,
            z: self.x * v.y - self.y * v.x,
        }
    }

    /// The unit vector, in coordinates, of a vector whose components are no
    /// larger than two to the power of 47.
    pub(crate) fn unit(&self) -> (r: Vec3)
        requires
            self@.within(0x8000_0000_0000),
        ensures
            r@ == self@.unit(),
            r@.within(65_536),
    {
        if self.x == 0 && self.y == 0 && self.z == 0 {
            return Vec3 { x: 0, y: 0, z: 0 };
        }
        proof {
            lemma_product_within(self.x as int, self.x as int, 0x8000_0000_0000, 0x8000_0000_0000);
            lemma_product_within(self.y as int, self.y as int, 0x8000_0000_0000, 0x8000_0000_0000);
            lemma_product_within(self.z as int, self.z as int, 0x8000_0000_0000, 0x8000_0000_0000);
            assert(self.x * self.x >= 0 && self.y * self.y >= 0 && self.z * self.z >= 0)
                by (nonlinear_arith);
        }
        let squared: u128 = (self.x * self.x + self.y * self.y + self.z * self.z) as u128;
        assert(squared > 0) by (nonlinear_arith)
            requires
                squared == self.x * self.x + self.y * self.y + self.z * self.z,
                self.x != 0 || self.y != 0 || self.z != 0,
        ;
        let length: u64 = isqrt(squared * 0x1_0000_0000);
        proof {
            lemma_unit_component(self.x as int, squared as int, length as int);
            lemma_unit_component(self.y as int, squared as int, length as int);
            lemma_unit_component(self.z as int, squared as int, length as int);
            assert(length > 0) by (nonlinear_arith)
                requires
                    squared > 0,
                    squared * 0x1_0000_0000 < (length + 1) * (length + 1),
                    length >= 0,
            ;
        }
        let x: i128 = floor_div(self.x * 0x1_0000_0000, length as i128);
        let y: i128 = floor_div(self.y * 0x1_0000_0000, length as i128);
        let z: i128 = floor_div(self.z * 0x1_0000_0000, length as i128);
        Vec3 { x: x as i32, y: y as i32, z: z as i32 }
    }
}

/// A component of a vector, divided by the vector's length, is at most one.
proof fn lemma_unit_component(c: int, squared: int, length: int)
    requires
        c * c <= squared,
        length * length <= squared * 0x1_0000_0000 < (length + 1) * (length + 1),
        0 <= length,
        0 < squared,
    ensures
        -65_536 <= c * 0x1_0000_0000 / length <= 65_536,
{
    let a = if c < 0 {
        -c
    } else {
        c
    };
    assert(a * a == c * c) by (nonlinear_arith)
        requires
            a == c || a == -c,
    ;
    assert(a * 65_536 <= length) by (nonlinear_arith)
        requires
            a * a <= squared,
            squared * 0x1_0000_0000 < (length + 1) * (length + 1),
            0 <= length,
            0 <= a,
    ;
    assert(length > 0) by (nonlinear_arith)
        requires
            0 < squared,
            squared * 0x1_0000_0000 < (length + 1) * (length + 1),
            0 <= length,
    ;
    assert(-65_536 <= c * 0x1_0000_0000 / length <= 65_536) by (nonlinear_arith)
        requires
            -length <= c * 65_536 <= length,
            0 < length,
    ;
}

} // verus!
