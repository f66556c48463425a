use vstd::prelude::*;

verus! {

/// How a layer surface is set up: its size, its margins and the zone it reserves at the edge. Every plan anchors the
/// surface to the top edge of the output and takes no keyboard focus.
#[derive(Clone, Copy, Debug, PartialEq, Eq, Structural)]
pub struct LayerPlan {
    pub width: u32,
    pub height: u32,
    pub margin_top: i32,
    pub margin_right: i32,
    pub margin_bottom: i32,
    pub margin_left: i32,
    pub exclusive_zone: i32,
}

/// The set-up of a floating surface of `width` by `height`: eight pixels
/// below the top edge, reserving no space.
pub fn configure(width: u32, height: u32) -> (p: LayerPlan)
    ensures
        p == (LayerPlan { width, height, margin_top: 8, margin_right: 0, margin_bottom: 0, margin_left: 0, exclusive_zone: 0 }),
{
    LayerPlan { width, height, margin_top: 8, margin_right: 0, margin_bottom: 0, margin_left: 0, exclusive_zone: 0 }
}

} // verus!
