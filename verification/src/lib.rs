//! A spectral Monte-Carlo path tracer in exact arithmetic.
//!
//! Light paths are traced backwards from a camera into a scene of surfaces,
//! one wavelength at a time, and what they bring home is gathered on a film
//! and shown as a picture. Every quantity is a whole number of small steps:
//! lengths, strengths and probabilities count 65536ths, wavelengths count
//! picometres. So every result is defined to the last digit, sums do not
//! depend on their order, and each function says exactly what it returns.
//!
//! What needs a sine, an exponential or a logarithm is left to the caller,
//! who hands the value in: the random direction of a scattered ray, the
//! height of a bell curve, the emission of a hot body. The walk of a path is
//! for the same reason a state machine that the caller drives.

pub mod entity;
pub mod fixed;
pub mod gamma;
pub mod geometry;
pub mod material;
pub mod plotter;
pub mod ptrandom;
pub mod scene;
pub mod spectrum;
pub mod tracer;
pub mod units;
