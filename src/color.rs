//! Access to the channels of a color value.

use vstd::prelude::*;

verus! {

/// A color with red, green, blue and alpha channels of some value type.
pub trait Color {
    type Value;

    fn r(&self) -> Self::Value;

    fn g(&self) -> Self::Value;

    fn b(&self) -> Self::Value;

    fn a(&self) -> Self::Value;

    fn set_r(&mut self, v: Self::Value);

    fn set_g(&mut self, v: Self::Value);

    fn set_b(&mut self, v: Self::Value);

    fn set_a(&mut self, v: Self::Value);
}

} // verus!
