//! Backgrounds: the color of rays that leave the scene.

use vstd::prelude::*;

verus! {

/// The sky gradient: white toward the bottom of the view, sky blue toward the top.
/// Its color for a direction is computed by the color arithmetic that uses it.
#[derive(Debug, Clone, Copy, PartialEq, Eq, Structural)]
pub struct SkyBg;

impl SkyBg {
    pub fn new() -> (bg: SkyBg)
        ensures
            bg == SkyBg,
    {
        SkyBg
    }
}

} // verus!
