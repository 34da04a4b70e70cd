//! Plain sizes and rectangles in pixels.
use vstd::prelude::*;

verus! {

/// A width and a height in pixels.
#[derive(Debug, Clone, Copy, PartialEq, Eq, Structural)]
pub struct Size {
    pub width: u32,
    pub height: u32,
}

impl Size {
    /// A size of the given width and height.
    pub fn new(width: u32, height: u32) -> (size: Size)
        ensures
            size == (Size { width, height }),
    {
        Size { width, height }
    }
}

/// The lesser of two coordinates.
pub open spec fn lesser(left: u32, right: u32) -> u32 {
    if left <= right {
        left
    } else {
        right
    }
}

/// Returns the lesser of two coordinates.
pub fn smaller(left: u32, right: u32) -> (least: u32)
    ensures
        least == lesser(left, right),
{
    if left <= right {
        left
    } else {
        right
    }
}

/// The lesser of two coordinates is one of them and above neither.
pub proof fn law_least_is_above_neither(left: u32, right: u32, least: u32)
    requires
        call_ensures(smaller, (left, right), least),
    ensures
        least == left || least == right,
        least <= left && least <= right,
{
}

} // verus!
