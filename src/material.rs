//! Materials without parameters.

use vstd::prelude::*;

verus! {

/// Lambertian (matte) scattering: the scattered direction is the surface normal plus a
/// point drawn uniformly from the unit ball. It carries no parameters.
#[derive(Debug, Clone, Copy, PartialEq, Eq, Structural)]
pub struct Diffuse;

} // verus!
