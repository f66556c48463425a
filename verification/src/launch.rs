use vstd::prelude::*;
use crate::state::{NotchMode, EXPANDED_HEIGHT, EXPANDED_WIDTH, HEIGHT, WIDTH};
use crate::surface::LayerPlan;

verus! {

/// Gap between the top edge and the notch when it first appears.
pub const NOTCH_TOP_MARGIN: i32 = 3;

/// Space the notch reserves at the top edge when it first appears.
pub const NOTCH_EXCLUSIVE_ZONE: i32 = 37;

/// The set-up of the notch's surface at start: compact size, three pixels
/// below the top edge, reserving the compact zone.
pub fn initial_layer_plan() -> (p: LayerPlan)
    ensures
        p == (LayerPlan {
            width: WIDTH,
            height: HEIGHT,
            margin_top: NOTCH_TOP_MARGIN,
            margin_right: 0,
            margin_bottom: 0,
            margin_left: 0,
            exclusive_zone: NOTCH_EXCLUSIVE_ZONE,
        }),
{
    LayerPlan {
        width: WIDTH,
        height: HEIGHT,
        margin_top: NOTCH_TOP_MARGIN,
            margin_right: 0,
            margin_bottom: 0,
            margin_left: 0,
        exclusive_zone: NOTCH_EXCLUSIVE_ZONE,
    }
}

/// Bytes of shared memory set aside at start: one ARGB8888 frame of the
/// expanded size.
pub fn pool_bytes() -> (n: usize)
    ensures
        n == EXPANDED_WIDTH * EXPANDED_HEIGHT * 4,
{
    let n: u32 = EXPANDED_WIDTH * EXPANDED_HEIGHT * 4;
    n as usize
}

/// A frame of either mode's size fits the memory set aside at start, and the
/// surface starts out with the compact mode's layout.
pub proof fn lemma_start_fits(mode: NotchMode)
    ensures
        mode.layout_of().width * mode.layout_of().height * 4 <= EXPANDED_WIDTH * EXPANDED_HEIGHT
            * 4,
        NotchMode::Compact.layout_of().width == WIDTH,
        NotchMode::Compact.layout_of().height == HEIGHT,
        NotchMode::Compact.layout_of().exclusive_zone == NOTCH_EXCLUSIVE_ZONE,
{
}

} // verus!
