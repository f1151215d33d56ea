//! Mirroring and carrying as plain functions of two vectors.

use vstd::prelude::*;
use crate::geometry::vec3::Vec3;

verus! {

/// The vector `a` mirrored at the plane that stands at right angles to the
/// unit vector `b`.
pub fn reflect(a: Vec3, b: Vec3) -> (r: Vec3)
    ensures
        r == a.mirrored(b),
{
    a.reflect(&b)
}

/// The vector `a` carried from the frame whose third axis points straight up
/// into the frame whose third axis is the unit vector `b`.
pub fn rotate_towards(a: Vec3, b: Vec3) -> (r: Vec3)
    requires
        b.is_direction(),
    ensures
        r == a.carried(b),
{
    a.rotate_towards(&b)
}

} // verus!
