//! Small geometry helpers shared across the renderer.

use vstd::prelude::*;

verus! {

/// A width and height pair.
#[derive(Clone, Debug, Default)]
pub struct Size<T> {
    pub width: T,
    pub height: T,
}

/// `x` raised to at least `lo`, then capped at `hi`.
pub open spec fn spec_clamp(x: u32, lo: u32, hi: u32) -> u32 {
    let raised = if x > lo {
        x
    } else {
        lo
    };
    if raised > hi {
        hi
    } else {
        raised
    }
}

fn clamp(x: u32, lo: u32, hi: u32) -> (r: u32)
    ensures
        r == spec_clamp(x, lo, hi),
{
    let raised = if x > lo {
        x
    } else {
        lo
    };
    if raised > hi {
        hi
    } else {
        raised
    }
}

/// Chooses a swapchain extent: the surface's current extent when the driver
/// fixed one (neither side is the all-ones sentinel), else the window's size
/// clamped into the surface's supported range.
pub fn choose_extent(
    current: &Size<u32>,
    window: &Size<u32>,
    min_extent: &Size<u32>,
    max_extent: &Size<u32>,
) -> (r: Size<u32>)
    ensures
        current.width != u32::MAX && current.height != u32::MAX ==> r.width == current.width
            && r.height == current.height,
        !(current.width != u32::MAX && current.height != u32::MAX) ==> r.width == spec_clamp(
            window.width,
            min_extent.width,
            max_extent.width,
        ) && r.height == spec_clamp(window.height, min_extent.height, max_extent.height),
{
    if current.width != u32::MAX && current.height != u32::MAX {
        Size { width: current.width, height: current.height }
    } else {
        Size {
            width: clamp(window.width, min_extent.width, max_extent.width),
            height: clamp(window.height, min_extent.height, max_extent.height),
        }
    }
}

} // verus!
