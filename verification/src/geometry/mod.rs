//! Points, directions and the surfaces that rays meet.

pub mod circle;
pub mod intersection;
pub mod mesh;
pub mod plane;
pub mod quaternion;
pub mod ray;
pub mod sphere;
pub mod surface;
pub mod util;
pub mod vec3;
pub mod wide;
