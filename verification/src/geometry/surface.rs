//! The surfaces that a scene can hold.

use vstd::prelude::*;
use crate::geometry::circle::Circle;
use crate::geometry::intersection::{nearest_outcome, Intersection};
use crate::geometry::mesh::{unit_normals, Mesh, Triangle};
use crate::geometry::plane::{crosses, crossing_hit, Plane};
use crate::geometry::ray::Ray;
use crate::geometry::sphere::Sphere;

verus! {

/// A surface: one of the shapes that this library can cross with a ray.
pub enum Surface {
    Sphere(Sphere),
    Plane(Plane),
    Circle(Circle),
    Triangle(Triangle),
    Mesh(Mesh),
}

impl Surface {
    /// What a ray finds at the surface: its nearest hit ahead of the ray's
    /// origin, or nothing.
    pub open spec fn outcome(&self, ray: Ray) -> Option<Intersection> {
        match self {
            Surface::Sphere(sphere) => if sphere.hit_by(ray) {
                Some(sphere.hit(ray))
            } else {
                None
            },
            Surface::Plane(plane) => if crosses(plane.normal, plane.position, ray) {
                Some(crossing_hit(plane.normal, plane.position, ray))
            } else {
                None
            },
            Surface::Circle(disc) => if disc.hit_by(ray) {
                Some(crossing_hit(disc.normal, disc.position, ray))
            } else {
                None
            },
            Surface::Triangle(triangle) => triangle.outcome(ray),
            Surface::Mesh(mesh) => nearest_outcome(mesh.outcomes(ray)),
        }
    }

    /// Whether every normal that the surface holds can be a direction. A
    /// sphere holds none; a triangle made by `Triangle::new` holds a unit
    /// normal; a plane and a disc hold the normal that they were given.
    pub open spec fn has_unit_normals(&self) -> bool {
        match self {
            Surface::Sphere(_) => true,
            Surface::Plane(plane) => plane.normal.is_direction(),
            Surface::Circle(disc) => disc.normal.is_direction(),
            Surface::Triangle(triangle) => triangle.normal.is_direction(),
            Surface::Mesh(mesh) => unit_normals(mesh@),
        }
    }

    /// The nearest hit of a ray on the surface. The hit lies at a positive
    /// distance along the ray, and, on a surface whose normals can be
    /// directions, its normal faces the ray.
    pub fn intersect(&self, ray: &Ray) -> (hit: Option<Intersection>)
        requires
            ray.direction.is_direction(),
        ensures
            hit == self.outcome(*ray),
            hit matches Some(found) ==> found.lies_ahead_on(*ray),
            hit matches Some(found) ==> (self.has_unit_normals() ==> found.faces(*ray)),
    {
        match self {
            Surface::Sphere(sphere) => sphere.intersect(ray),
            Surface::Plane(plane) => plane.intersect(ray),
            Surface::Circle(disc) => disc.intersect(ray),
            Surface::Triangle(triangle) => triangle.intersect(ray),
            Surface::Mesh(mesh) => mesh.intersect(ray),
        }
    }
}

} // verus!
