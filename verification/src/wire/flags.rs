//! Header flag bits (byte 1 of every frame header).
use vstd::prelude::*;

verus! {

/// Set on video frames that contain an IDR keyframe.
pub const IS_KEYFRAME: u8 = 1;

} // verus!
