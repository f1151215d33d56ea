//! Materials, which send a ray on from a surface, and lights, which say how
//! brightly they shine at a wavelength.

pub mod black_body_radiator;
pub mod diffuse;
pub mod glass;
pub mod glossy;
pub mod material;
pub mod spectrum_radiator;
