//! Crop geometry of captured textures.
use vstd::prelude::*;
use crate::geometry::{self, Size};

verus! {

/// Absolute crop rectangle in captured-texture pixel coordinates.
///
/// The supervisor computes policy-specific geometry. The crop is clamped against each observed
/// frame, so that a concurrent window resize cannot issue an out-of-bounds copy.
#[derive(Debug, Clone, Copy, PartialEq, Eq, Structural)]
pub struct CropBox {
    /// Inclusive source x coordinate.
    pub min_x: u32,
    /// Inclusive source y coordinate.
    pub min_y: u32,
    /// Exclusive source x coordinate.
    pub max_x: u32,
    /// Exclusive source y coordinate.
    pub max_y: u32,
}

/// Region of a texture that is copied.
#[derive(Debug, Clone, Copy, PartialEq, Eq, Structural)]
pub struct SourceBox {
    pub left: u32,
    pub top: u32,
    pub front: u32,
    pub right: u32,
    pub bottom: u32,
    pub back: u32,
}

/// A dimension rounded up to the next multiple of sixteen.
pub open spec fn padded(dimension: int) -> int {
    (dimension + 15) / 16 * 16
}

/// Rounds a dimension up to the next multiple of sixteen, where that fits.
pub fn pad(dimension: u32) -> (result: u32)
    requires
        dimension + 15 <= u32::MAX,
    ensures
        result == padded(dimension as int),
        result % 16 == 0,
        dimension <= result < dimension + 16,
{
    (dimension + 15) / 16 * 16
}

impl CropBox {
    /// The crop has an area, and padding it stays in range.
    pub open spec fn paddable(self) -> bool {
        &&& self.min_x <= self.max_x
        &&& self.min_y <= self.max_y
        &&& self.max_x - self.min_x + 15 <= u32::MAX
        &&& self.max_y - self.min_y + 15 <= u32::MAX
    }

    /// The padded size of the output.
    pub open spec fn padded_size(self) -> (int, int) {
        (padded(self.max_x - self.min_x), padded(self.max_y - self.min_y))
    }

    /// Fixed encoder-compatible output size, padded on the right and bottom.
    pub fn output_size(self) -> (size: Size)
        requires
            self.paddable(),
        ensures
            size.width == self.padded_size().0,
            size.height == self.padded_size().1,
    {
        Size { width: pad(self.max_x - self.min_x), height: pad(self.max_y - self.min_y) }
    }

    /// The crop with every edge moved inside a frame.
    pub open spec fn clamped(self, source: Size) -> SourceBox {
        SourceBox {
            left: geometry::lesser(self.min_x, source.width),
            top: geometry::lesser(self.min_y, source.height),
            front: 0,
            right: geometry::lesser(self.max_x, source.width),
            bottom: geometry::lesser(self.max_y, source.height),
            back: 1,
        }
    }

    /// What is copied of a frame.
    pub open spec fn overlap(self, source: Size) -> Option<SourceBox> {
        let region = self.clamped(source);
        if region.right <= region.left || region.bottom <= region.top {
            None
        } else {
            Some(region)
        }
    }

    /// Clamp the crop to a frame so that a copy never reads out of bounds.
    pub fn to_d3d11_box(self, source: Size) -> (region: SourceBox)
        ensures
            region == self.clamped(source),
            region.left <= source.width && region.right <= source.width,
            region.top <= source.height && region.bottom <= source.height,
    {
        SourceBox {
            left: geometry::smaller(self.min_x, source.width),
            top: geometry::smaller(self.min_y, source.height),
            front: 0,
            right: geometry::smaller(self.max_x, source.width),
            bottom: geometry::smaller(self.max_y, source.height),
            back: 1,
        }
    }

    /// Clamp the crop to a live frame, returning no copy for an empty overlap.
    pub fn clamped_d3d11_box(self, source: Size) -> (region: Option<SourceBox>)
        ensures
            region == self.overlap(source),
    {
        let region = self.to_d3d11_box(source);
        if region.right <= region.left || region.bottom <= region.top {
            return None;
        }
        Some(region)
    }
}

/// A copied region lies inside the frame it is copied from, and inside the padded output it is
/// copied to.
pub proof fn law_copies_stay_in_bounds(crop: CropBox, source: Size)
    requires
        crop.paddable(),
    ensures
        crop.overlap(source) matches Some(region) ==> {
            &&& region.left < region.right <= source.width
            &&& region.top < region.bottom <= source.height
            &&& region.right - region.left <= crop.padded_size().0
            &&& region.bottom - region.top <= crop.padded_size().1
        },
{
}

/// A dimension is padded to the least multiple of sixteen that holds it.
pub proof fn law_padding_is_least(dimension: u32, result: u32, other: int)
    requires
        dimension + 15 <= u32::MAX,
        call_ensures(pad, (dimension,), result),
        other >= dimension && other % 16 == 0,
    ensures
        result % 16 == 0,
        dimension <= result <= other,
{
}

/// The output of a crop is its width and its height, each padded.
pub proof fn law_outputs_are_padded_crops(crop: CropBox, size: Size, width: u32, height: u32)
    requires
        crop.min_x <= crop.max_x && crop.min_y <= crop.max_y,
        crop.max_x - crop.min_x + 15 <= u32::MAX && crop.max_y - crop.min_y + 15 <= u32::MAX,
        call_ensures(CropBox::output_size, (crop,), size),
        call_ensures(pad, ((crop.max_x - crop.min_x) as u32,), width),
        call_ensures(pad, ((crop.max_y - crop.min_y) as u32,), height),
    ensures
        size.width == width,
        size.height == height,
{
}

/// What is copied of a frame is exactly its pixels inside the crop; where there is none nothing is.
pub proof fn law_copies_hold_the_cropped_pixels(
    crop: CropBox,
    source: Size,
    region: Option<SourceBox>,
    edges: SourceBox,
    x: int,
    y: int,
)
    requires
        call_ensures(CropBox::clamped_d3d11_box, (crop, source), region),
        call_ensures(CropBox::to_d3d11_box, (crop, source), edges),
    ensures
        crop.min_x <= x < crop.max_x && crop.min_y <= y < crop.max_y && 0 <= x < source.width && 0
            <= y < source.height <==> region is Some && region->Some_0.left <= x
            < region->Some_0.right && region->Some_0.top <= y < region->Some_0.bottom,
        region matches Some(copied) ==> copied == edges && copied.front == 0 && copied.back == 1,
{
}

} // verus!
