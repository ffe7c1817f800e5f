//! Verified parts of a small stochastic ray tracer: the 8-bit image buffer and its
//! PPM encoding, the nearest-hit and depth-ceiling decisions of the light integrator,
//! and the plain value types that the floating-point renderer builds on.

pub mod background;
pub mod color;
pub mod error;
pub mod image;
pub mod material;
pub mod ppm;
pub mod trace;
pub mod util;
