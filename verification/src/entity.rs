//! The things of a scene: surfaces that scatter light, and surfaces that
//! send it out.

use vstd::prelude::*;
use crate::geometry::surface::Surface;

verus! {

/// A thing in the scene. `M` is what describes a material and `R` what
/// describes a light; the scene carries both along without looking inside.
pub enum Entity<M, R> {
    /// A surface that scatters the light that falls on it.
    Dark(Surface, M),
    /// A surface that sends out light and ends every path that reaches it.
    Luminous(Surface, R),
}

impl<M, R> Entity<M, R> {
    /// The surface of the thing.
    pub open spec fn shape(&self) -> Surface {
        match self {
            Entity::Dark(surface, _) => *surface,
            Entity::Luminous(surface, _) => *surface,
        }
    }

    /// The surface of the thing.
    pub fn surface(&self) -> (surface: &Surface)
        ensures
            *surface == self.shape(),
    {
        match self {
            Entity::Dark(surface, _) => surface,
            Entity::Luminous(surface, _) => surface,
        }
    }

    /// Whether the thing sends out light.
    pub fn is_luminous(&self) -> (luminous: bool)
        ensures
            luminous == (self is Luminous),
    {
        match self {
            Entity::Dark(_, _) => false,
            Entity::Luminous(_, _) => true,
        }
    }
}

} // verus!
