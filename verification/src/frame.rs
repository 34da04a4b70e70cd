//! Fixed-output frame content and the surfaces retained by an asynchronous encoder.
use std::collections::VecDeque;
use vstd::prelude::*;
use crate::config::CropRect;
use crate::geometry::{self, Size};
use crate::text;

verus! {

/// Three surfaces allow an async encoder to retain inputs without aliasing.
pub const SURFACE_COUNT: usize = 3;

/// Failures of the fixed frame and its surface pool.
#[derive(Debug, Clone, Copy, PartialEq, Eq, Structural)]
pub enum FrameError {
    /// A fixed frame has no pixels.
    EmptyFrame,
    /// Chroma subsampling needs even dimensions.
    OddDimensions,
    /// No content revision is left.
    RevisionExhausted,
    /// A slot does not exist in the pool.
    SlotOutOfRange,
    /// A released slot does not exist in the pool.
    ReleasedOutOfRange,
    /// A slot was released while it was free.
    ReleasedTwice {
        /// The slot.
        slot: usize,
    },
}

impl FrameError {
    /// The diagnostic text of this failure.
    pub open spec fn text(self) -> Seq<char> {
        match self {
            FrameError::EmptyFrame => "fixed frame dimensions must be non-zero"@,
            FrameError::OddDimensions => "NV12 dimensions must be even"@,
            FrameError::RevisionExhausted => "fixed-frame revision exhausted"@,
            FrameError::SlotOutOfRange => "NV12 slot is out of range"@,
            FrameError::ReleasedOutOfRange => "released NV12 slot is out of range"@,
            FrameError::ReleasedTwice { slot } => "NV12 slot "@ + text::decimal(slot as nat)
                + " was released more than once"@,
        }
    }

    /// Describes this failure.
    pub fn message(&self) -> (message: String)
        ensures
            message@ == self.text(),
    {
        match *self {
            FrameError::EmptyFrame => "fixed frame dimensions must be non-zero".to_owned(),
            FrameError::OddDimensions => "NV12 dimensions must be even".to_owned(),
            FrameError::RevisionExhausted => "fixed-frame revision exhausted".to_owned(),
            FrameError::SlotOutOfRange => "NV12 slot is out of range".to_owned(),
            FrameError::ReleasedOutOfRange => "released NV12 slot is out of range".to_owned(),
            FrameError::ReleasedTwice { slot } => {
                let mut message = "NV12 slot ".to_owned();
                text::push_decimal(&mut message, slot as u64);
                text::push_text(&mut message, " was released more than once");
                message
            },
        }
    }
}

/// One clamped non-empty source rectangle.
#[derive(Debug, Clone, Copy, PartialEq, Eq, Structural)]
pub struct SourceRegion {
    pub min_x: u32,
    pub min_y: u32,
    pub max_x: u32,
    pub max_y: u32,
}

impl SourceRegion {
    /// A crop, or the whole source, with every edge inside a source.
    pub open spec fn within(source: Size, crop: Option<CropRect>) -> SourceRegion {
        match crop {
            None => SourceRegion {
                min_x: 0,
                min_y: 0,
                max_x: source.width,
                max_y: source.height,
            },
            Some(crop) => SourceRegion {
                min_x: geometry::lesser(crop.min_x, source.width),
                min_y: geometry::lesser(crop.min_y, source.height),
                max_x: geometry::lesser(crop.max_x, source.width),
                max_y: geometry::lesser(crop.max_y, source.height),
            },
        }
    }

    /// Whether the rectangle holds a pixel.
    pub open spec fn holds_pixels(self) -> bool {
        self.max_x > self.min_x && self.max_y > self.min_y
    }

    /// The region drawn for a source and a crop.
    pub open spec fn drawn(source: Size, crop: Option<CropRect>) -> Option<SourceRegion> {
        if SourceRegion::within(source, crop).holds_pixels() {
            Some(SourceRegion::within(source, crop))
        } else {
            None
        }
    }

    /// Clamp optional configuration to a live source surface.
    pub fn clamped(source: Size, crop: Option<CropRect>) -> (region: Option<SourceRegion>)
        ensures
            region == SourceRegion::drawn(source, crop),
    {
        let region = match crop {
            None => SourceRegion {
                min_x: 0,
                min_y: 0,
                max_x: source.width,
                max_y: source.height,
            },
            Some(crop) => SourceRegion {
                min_x: geometry::smaller(crop.min_x, source.width),
                min_y: geometry::smaller(crop.min_y, source.height),
                max_x: geometry::smaller(crop.max_x, source.width),
                max_y: geometry::smaller(crop.max_y, source.height),
            },
        };
        if region.max_x > region.min_x && region.max_y > region.min_y {
            Some(region)
        } else {
            None
        }
    }

    /// Return integer source dimensions for aspect-fit viewport calculation.
    pub fn size(self) -> (size: Size)
        requires
            self.holds_pixels(),
        ensures
            size.width == self.max_x - self.min_x,
            size.height == self.max_y - self.min_y,
    {
        Size { width: self.max_x - self.min_x, height: self.max_y - self.min_y }
    }
}

/// A drawn region lies inside its source and inside its crop.
pub proof fn law_drawn_regions_lie_inside(source: Size, crop: CropRect)
    ensures
        match SourceRegion::drawn(source, Some(crop)) {
            Some(region) => {
                &&& crop.min_x == region.min_x < region.max_x <= crop.max_x
                &&& crop.min_y == region.min_y < region.max_y <= crop.max_y
                &&& region.max_x <= source.width
                &&& region.max_y <= source.height
            },
            None => crop.min_x >= crop.max_x || crop.min_y >= crop.max_y || crop.min_x
                >= source.width || crop.min_y >= source.height,
        },
{
}

/// What is drawn into the fixed frame.
#[derive(Debug, Clone, Copy, PartialEq, Eq, Structural)]
pub enum FrameDraw {
    /// Nothing: the frame already shows what it should.
    Nothing,
    /// The clear color alone.
    Clear,
    /// A region of the source over the clear color.
    Source(SourceRegion),
}

/// Content of a fixed image whose media type survives target switches.
#[derive(Debug, Clone, Copy, PartialEq, Eq, Structural)]
pub struct FixedFrame {
    /// Fixed encoded dimensions.
    pub size: Size,
    /// Content revision used to avoid redundant conversion on reuse.
    pub revision: u64,
    /// Whether the frame shows the clear color alone.
    pub is_clear: bool,
}

impl FixedFrame {
    /// Describe the immutable output surface, seeded with clear content.
    pub fn new(size: Size) -> (result: Result<FixedFrame, FrameError>)
        ensures
            match result {
                Ok(frame) => size.width > 0 && size.height > 0 && frame == (FixedFrame {
                    size,
                    revision: 1,
                    is_clear: true,
                }),
                Err(error) => (size.width == 0 || size.height == 0) && error
                    == FrameError::EmptyFrame,
            },
    {
        if size.width > 0 && size.height > 0 {
            Ok(FixedFrame { size, revision: 1, is_clear: true })
        } else {
            Err(FrameError::EmptyFrame)
        }
    }

    /// Clear stale target pixels once per waiting/switch transition.
    pub fn clear(&mut self) -> (result: Result<FrameDraw, FrameError>)
        ensures
            match result {
                Ok(draw) => if old(self).is_clear {
                    draw == FrameDraw::Nothing && *final(self) == *old(self)
                } else {
                    draw == FrameDraw::Clear && old(self).revision < u64::MAX && *final(self)
                        == (FixedFrame {
                        size: old(self).size,
                        revision: (old(self).revision + 1) as u64,
                        is_clear: true,
                    })
                },
                Err(error) => error == FrameError::RevisionExhausted && !old(self).is_clear
                    && old(self).revision == u64::MAX && *final(self) == *old(self),
            },
    {
        if self.is_clear {
            return Ok(FrameDraw::Nothing);
        }
        if self.revision == u64::MAX {
            return Err(FrameError::RevisionExhausted);
        }
        self.revision = self.revision + 1;
        self.is_clear = true;
        Ok(FrameDraw::Clear)
    }

    /// Crop the newest captured texture for the fixed output.
    ///
    /// An out-of-bounds crop gives a clear frame instead of an invalid region. The caller may
    /// then keep the process alive while the target is concurrently resized.
    pub fn update(&mut self, source: Size, crop: Option<CropRect>) -> (result: Result<
        FrameDraw,
        FrameError,
    >)
        ensures
            match result {
                Ok(draw) => {
                    &&& old(self).revision < u64::MAX
                    &&& draw == match SourceRegion::drawn(source, crop) {
                        Some(region) => FrameDraw::Source(region),
                        None => FrameDraw::Clear,
                    }
                    &&& *final(self) == (FixedFrame {
                        size: old(self).size,
                        revision: (old(self).revision + 1) as u64,
                        is_clear: SourceRegion::drawn(source, crop) is None,
                    })
                },
                Err(error) => error == FrameError::RevisionExhausted && old(self).revision
                    == u64::MAX && *final(self) == (FixedFrame {
                    is_clear: old(self).is_clear && SourceRegion::drawn(source, crop) is Some,
                    ..*old(self)
                }),
            },
    {
        match SourceRegion::clamped(source, crop) {
            None => {
                self.is_clear = false;
                self.clear()
            },
            Some(region) => {
                if self.revision == u64::MAX {
                    return Err(FrameError::RevisionExhausted);
                }
                self.revision = self.revision + 1;
                self.is_clear = false;
                Ok(FrameDraw::Source(region))
            },
        }
    }
}

/// Pure checked ownership state for the async-encoder surface pool.
pub struct PoolState {
    free: VecDeque<usize>,
    in_use: Vec<bool>,
}

/// Free slots, oldest first, and which slots are retained.
pub struct PoolModel {
    pub free: Seq<usize>,
    pub in_use: Seq<bool>,
}

impl PoolModel {
    /// Whether a slot exists and is retained.
    pub open spec fn retains(self, slot: int) -> bool {
        0 <= slot < self.in_use.len() && self.in_use[slot]
    }

    /// Every slot is either retained or free, and no slot is free twice.
    pub open spec fn well_formed(self) -> bool {
        &&& forall|i: int|
            0 <= i < self.free.len() ==> (#[trigger] self.free[i]) < self.in_use.len()
                && !self.in_use[self.free[i] as int]
        &&& forall|i: int, j: int|
            0 <= i < j < self.free.len() ==> #[trigger] self.free[i] != #[trigger] self.free[j]
        &&& forall|slot: usize|
            slot < self.in_use.len() && !self.in_use[slot as int]
                ==> #[trigger] self.free.contains(slot)
    }

    /// All slots of a new pool, in order.
    pub open spec fn fresh(count: usize) -> PoolModel {
        PoolModel {
            free: Seq::new(count as nat, |i: int| i as usize),
            in_use: Seq::new(count as nat, |i: int| false),
        }
    }

    /// The pool without its oldest free slot.
    pub open spec fn acquired(self) -> PoolModel {
        PoolModel {
            free: self.free.skip(1),
            in_use: self.in_use.update(self.free[0] as int, true),
        }
    }

    /// The pool with a slot back in the rotation.
    pub open spec fn released(self, slot: usize) -> PoolModel {
        PoolModel { free: self.free.push(slot), in_use: self.in_use.update(slot as int, false) }
    }
}

impl View for PoolState {
    type V = PoolModel;

    closed spec fn view(&self) -> PoolModel {
        PoolModel { free: self.free@, in_use: self.in_use@ }
    }
}

impl PoolState {
    /// Create a pool with every slot available exactly once.
    pub fn new(count: usize) -> (pool: PoolState)
        ensures
            pool@ == PoolModel::fresh(count),
            pool@.well_formed(),
    {
        let mut free: VecDeque<usize> = VecDeque::new();
        let mut in_use: Vec<bool> = Vec::new();
        let mut slot: usize = 0;
        while slot < count
            invariant
                slot <= count,
                free@ == Seq::new(slot as nat, |i: int| i as usize),
                in_use@ == Seq::new(slot as nat, |i: int| false),
            decreases count - slot,
        {
            free.push_back(slot);
            in_use.push(false);
            slot = slot + 1;
            assert(free@ =~= Seq::new(slot as nat, |i: int| i as usize));
            assert(in_use@ =~= Seq::new(slot as nat, |i: int| false));
        }
        proof {
            lemma_fresh_is_well_formed(count);
        }
        PoolState { free, in_use }
    }

    /// Mark the oldest free slot retained until a release callback arrives.
    pub fn acquire(&mut self) -> (slot: Option<usize>)
        requires
            old(self)@.well_formed(),
        ensures
            final(self)@.well_formed(),
            match slot {
                Some(slot) => {
                    &&& old(self)@.free.len() > 0
                    &&& slot == old(self)@.free[0]
                    &&& slot < old(self)@.in_use.len()
                    &&& !old(self)@.retains(slot as int)
                    &&& final(self)@ == old(self)@.acquired()
                },
                None => old(self)@.free.len() == 0 && final(self)@ == old(self)@,
            },
    {
        let ghost before = self@;
        match self.free.pop_front() {
            None => None,
            Some(slot) => {
                self.in_use.set(slot, true);
                proof {
                    assert(self@.free =~= before.free.skip(1));
                    assert(self@ == before.acquired());
                    lemma_acquiring_keeps_form(before);
                }
                Some(slot)
            },
        }
    }

    /// Validate and return one retained slot to the rotation.
    pub fn release(&mut self, slot: usize) -> (result: Result<(), FrameError>)
        requires
            old(self)@.well_formed(),
        ensures
            final(self)@.well_formed(),
            match result {
                Ok(()) => old(self)@.retains(slot as int) && final(self)@ == old(self)@.released(
                    slot,
                ),
                Err(error) => final(self)@ == old(self)@ && !old(self)@.retains(slot as int)
                    && error == if slot >= old(self)@.in_use.len() {
                    FrameError::ReleasedOutOfRange
                } else {
                    FrameError::ReleasedTwice { slot }
                },
            },
    {
        let ghost before = self@;
        if slot >= self.in_use.len() {
            return Err(FrameError::ReleasedOutOfRange);
        }
        if !self.in_use[slot] {
            return Err(FrameError::ReleasedTwice { slot });
        }
        self.in_use.set(slot, false);
        self.free.push_back(slot);
        proof {
            assert(self@ == before.released(slot));
            lemma_releasing_keeps_form(before, slot);
        }
        Ok(())
    }
}

proof fn lemma_fresh_is_well_formed(count: usize)
    ensures
        PoolModel::fresh(count).well_formed(),
{
    let pool = PoolModel::fresh(count);
    assert forall|slot: usize|
        slot < pool.in_use.len() && !pool.in_use[slot as int] implies #[trigger] pool.free.contains(
        slot,
    ) by {
        assert(pool.free[slot as int] == slot);
    }
}

proof fn lemma_acquiring_keeps_form(pool: PoolModel)
    requires
        pool.well_formed(),
        pool.free.len() > 0,
    ensures
        pool.acquired().well_formed(),
{
    let after = pool.acquired();
    assert forall|i: int| 0 <= i < after.free.len() implies (#[trigger] after.free[i])
        < after.in_use.len() && !after.in_use[after.free[i] as int] by {
        assert(after.free[i] == pool.free[i + 1]);
        assert(pool.free[0] != pool.free[i + 1]);
    }
    assert forall|slot: usize|
        slot < after.in_use.len() && !after.in_use[slot as int] implies #[trigger] after.free.contains(
        slot,
    ) by {
        assert(pool.free.contains(slot));
        let at = choose|at: int| 0 <= at < pool.free.len() && pool.free[at] == slot;
        assert(at != 0);
        assert(after.free[at - 1] == slot);
    }
}

proof fn lemma_releasing_keeps_form(pool: PoolModel, slot: usize)
    requires
        pool.well_formed(),
        pool.retains(slot as int),
    ensures
        pool.released(slot).well_formed(),
{
    let after = pool.released(slot);
    assert forall|other: usize|
        other < after.in_use.len() && !after.in_use[other as int] implies #[trigger] after.free.contains(
        other,
    ) by {
        if other == slot {
            assert(after.free[pool.free.len() as int] == slot);
        } else {
            assert(pool.free.contains(other));
            let at = choose|at: int| 0 <= at < pool.free.len() && pool.free[at] == other;
            assert(after.free[at] == other);
        }
    }
}

/// A slot that is handed out is retained, and stays retained whatever else is acquired or
/// released, until it is released itself.
pub proof fn law_retained_slots_are_not_reissued(pool: PoolModel, slot: usize, other: usize)
    requires
        pool.well_formed(),
        pool.retains(slot as int),
    ensures
        !pool.free.contains(slot),
        pool.free.len() > 0 ==> pool.free[0] != slot && pool.acquired().retains(slot as int),
        pool.retains(other as int) && other != slot ==> pool.released(other).retains(slot as int),
        pool.released(slot).free.last() == slot && !pool.released(slot).retains(slot as int),
{
}

/// The surfaces of the encoder: which are retained, and which revision each one holds.
pub struct Nv12Pool {
    state: PoolState,
    revisions: Vec<Option<u64>>,
}

impl Nv12Pool {
    /// Ownership of the surfaces.
    pub closed spec fn slots(&self) -> PoolModel {
        self.state@
    }

    /// The fixed-frame revision that each surface holds.
    pub closed spec fn contents(&self) -> Seq<Option<u64>> {
        self.revisions@
    }

    /// Every slot has a surface, and the ownership is consistent.
    pub open spec fn well_formed(&self) -> bool {
        self.slots().well_formed() && self.slots().in_use.len() == self.contents().len()
    }

    /// Describe fixed media surfaces for a frame size.
    pub fn new(size: Size) -> (result: Result<Nv12Pool, FrameError>)
        ensures
            match result {
                Ok(pool) => {
                    &&& size.width % 2 == 0 && size.height % 2 == 0
                    &&& pool.well_formed()
                    &&& pool.slots() == PoolModel::fresh(SURFACE_COUNT)
                    &&& pool.contents() == Seq::new(SURFACE_COUNT as nat, |i: int| None::<u64>)
                },
                Err(error) => (size.width % 2 != 0 || size.height % 2 != 0) && error
                    == FrameError::OddDimensions,
            },
    {
        if size.width % 2 != 0 || size.height % 2 != 0 {
            return Err(FrameError::OddDimensions);
        }
        let mut revisions: Vec<Option<u64>> = Vec::new();
        revisions.push(None);
        revisions.push(None);
        revisions.push(None);
        assert(revisions@ =~= Seq::new(SURFACE_COUNT as nat, |i: int| None::<u64>));
        Ok(Nv12Pool { state: PoolState::new(SURFACE_COUNT), revisions })
    }

    /// Acquire one surface not retained by the encoder.
    pub fn acquire(&mut self) -> (slot: Option<usize>)
        requires
            old(self).well_formed(),
        ensures
            final(self).well_formed(),
            final(self).contents() == old(self).contents(),
            match slot {
                Some(slot) => {
                    &&& old(self).slots().free.len() > 0
                    &&& slot == old(self).slots().free[0]
                    &&& slot < old(self).contents().len()
                    &&& !old(self).slots().retains(slot as int)
                    &&& final(self).slots() == old(self).slots().acquired()
                },
                None => old(self).slots().free.len() == 0 && final(self).slots()
                    == old(self).slots(),
            },
    {
        self.state.acquire()
    }

    /// Tell whether the fixed frame has to be converted into a slot: it does only if this
    /// rotating slot contains older content. Until `converted` is told of it, the slot still does.
    pub fn prepare(&self, slot: usize, revision: u64) -> (result: Result<bool, FrameError>)
        ensures
            result == if slot < self.contents().len() {
                Ok::<bool, FrameError>(self.contents()[slot as int] != Some(revision))
            } else {
                Err(FrameError::SlotOutOfRange)
            },
    {
        if slot >= self.revisions.len() {
            return Err(FrameError::SlotOutOfRange);
        }
        match self.revisions[slot] {
            Some(held) => Ok(held != revision),
            None => Ok(true),
        }
    }

    /// Note that a revision of the fixed frame was converted into a slot.
    pub fn converted(&mut self, slot: usize, revision: u64) -> (result: Result<(), FrameError>)
        ensures
            final(self).slots() == old(self).slots(),
            match result {
                Ok(()) => slot < old(self).contents().len() && final(self).contents() == old(
                    self,
                ).contents().update(slot as int, Some(revision)),
                Err(error) => slot >= old(self).contents().len() && error
                    == FrameError::SlotOutOfRange && final(self).contents() == old(self).contents(),
            },
    {
        if slot >= self.revisions.len() {
            return Err(FrameError::SlotOutOfRange);
        }
        self.revisions.set(slot, Some(revision));
        Ok(())
    }

    /// Return the fixed number of callbacks required by this pool.
    pub fn surface_count(&self) -> (count: usize)
        ensures
            count == self.contents().len(),
    {
        self.revisions.len()
    }

    /// Recycle a surface after its tracked sample is finally released.
    pub fn release(&mut self, slot: usize) -> (result: Result<(), FrameError>)
        requires
            old(self).well_formed(),
        ensures
            final(self).well_formed(),
            final(self).contents() == old(self).contents(),
            match result {
                Ok(()) => old(self).slots().retains(slot as int) && final(self).slots()
                    == old(self).slots().released(slot),
                Err(error) => final(self).slots() == old(self).slots() && !old(
                    self,
                ).slots().retains(slot as int) && error == if slot
                    >= old(self).slots().in_use.len() {
                    FrameError::ReleasedOutOfRange
                } else {
                    FrameError::ReleasedTwice { slot }
                },
            },
    {
        self.state.release(slot)
    }
}

/// Whether a pixel of a source lies inside a crop, or there is no crop.
pub open spec fn shows(source: Size, crop: Option<CropRect>, x: int, y: int) -> bool {
    &&& 0 <= x < source.width
    &&& 0 <= y < source.height
    &&& crop matches Some(crop) ==> crop.min_x <= x < crop.max_x && crop.min_y <= y < crop.max_y
}

/// What is drawn of a source is exactly its pixels inside the crop, and the whole source without
/// one; where there is no such pixel nothing is.
pub proof fn law_regions_hold_the_cropped_pixels(
    source: Size,
    crop: Option<CropRect>,
    region: Option<SourceRegion>,
    x: int,
    y: int,
)
    requires
        call_ensures(SourceRegion::clamped, (source, crop), region),
    ensures
        shows(source, crop, x, y) <==> region is Some && region->Some_0.min_x <= x
            < region->Some_0.max_x && region->Some_0.min_y <= y < region->Some_0.max_y,
{
    if crop is Some {
        law_drawn_regions_lie_inside(source, crop->Some_0);
    }
}

/// A region that is drawn holds a pixel, and its size is the distance of its edges.
pub proof fn law_regions_are_not_empty(
    source: Size,
    crop: Option<CropRect>,
    region: SourceRegion,
    size: Size,
)
    requires
        call_ensures(SourceRegion::clamped, (source, crop), Some(region)),
        call_ensures(SourceRegion::size, (region,), size),
    ensures
        size.width > 0 && size.height > 0,
        region.min_x + size.width == region.max_x,
        region.min_y + size.height == region.max_y,
        region.max_x <= source.width && region.max_y <= source.height,
        crop is None ==> size == source,
{
}

/// A frame starts clear at revision one and keeps its size. Every change of what it shows has a
/// revision of its own; clearing a clear frame changes nothing.
pub proof fn law_revisions_count_changes(
    size: Size,
    created: Result<FixedFrame, FrameError>,
    cleared: &mut FixedFrame,
    updated: &mut FixedFrame,
    source: Size,
    crop: Option<CropRect>,
    region: Option<SourceRegion>,
    draws: (Result<FrameDraw, FrameError>, Result<FrameDraw, FrameError>),
)
    requires
        call_ensures(FixedFrame::new, (size,), created),
        call_ensures(FixedFrame::clear, (cleared,), draws.0),
        call_ensures(SourceRegion::clamped, (source, crop), region),
        call_ensures(FixedFrame::update, (updated, source, crop), draws.1),
    ensures
        created is Ok <==> size.width > 0 && size.height > 0,
        created matches Ok(frame) ==> frame.size == size && frame.revision == 1 && frame.is_clear,
        draws.0 matches Ok(draw) ==> {
            &&& final(cleared).is_clear
            &&& final(cleared).size == old(cleared).size
            &&& old(cleared).is_clear ==> draw == FrameDraw::Nothing && final(cleared).revision
                == old(cleared).revision
            &&& !old(cleared).is_clear ==> draw == FrameDraw::Clear && final(cleared).revision
                == old(cleared).revision + 1
        },
        draws.0 is Err <==> !old(cleared).is_clear && old(cleared).revision
            == 0xFFFF_FFFF_FFFF_FFFF,
        draws.1 matches Ok(draw) ==> {
            &&& final(updated).revision == old(updated).revision + 1
            &&& final(updated).size == old(updated).size
            &&& region matches Some(shown) ==> draw == FrameDraw::Source(shown)
            &&& region is None ==> draw == FrameDraw::Clear
            &&& final(updated).is_clear <==> region is None
        },
        draws.1 is Err <==> old(updated).revision == 0xFFFF_FFFF_FFFF_FFFF,
{
}

/// Slots are handed out in the order in which they became free, each to one owner at a time; when
/// none is free none is handed out.
pub proof fn law_slots_are_handed_out_oldest_first(
    pool: &mut PoolState,
    slot: Option<usize>,
    back: &mut PoolState,
    result: Result<(), FrameError>,
)
    requires
        old(pool)@.well_formed(),
        call_ensures(PoolState::acquire, (pool,), slot),
        slot is Some,
        *old(back) == *final(pool),
        call_ensures(PoolState::release, (back, slot->Some_0), result),
    ensures
        ({
            let taken = slot->Some_0;
            let before = old(pool)@;
            let during = final(pool)@;
            let after = final(back)@;
            &&& before.free.len() > 0 && taken == before.free[0]
            &&& during.free == before.free.skip(1)
            &&& !before.in_use[taken as int] && during.in_use[taken as int]
            &&& forall|k: int|
                0 <= k < before.in_use.len() && k != taken ==> #[trigger] during.in_use[k]
                    == before.in_use[k]
            &&& result is Ok
            &&& after.free == before.free.skip(1).push(taken)
            &&& after.in_use =~= before.in_use
        }),
{
}

/// A pool of some slots has them all free, in order; a slot that is not retained cannot be
/// released, and asking for one where none is free changes nothing.
pub proof fn law_only_retained_slots_are_released(
    count: usize,
    fresh: PoolState,
    pool: &mut PoolState,
    slot: usize,
    result: Result<(), FrameError>,
    empty: &mut PoolState,
    nothing: Option<usize>,
)
    requires
        call_ensures(PoolState::new, (count,), fresh),
        call_ensures(PoolState::release, (pool, slot), result),
        old(empty)@.free.len() == 0,
        call_ensures(PoolState::acquire, (empty,), nothing),
    ensures
        fresh@.free.len() == count && fresh@.in_use.len() == count,
        forall|k: int| 0 <= k < count ==> #[trigger] fresh@.free[k] == k && !fresh@.in_use[k],
        result is Ok <==> slot < old(pool)@.in_use.len() && old(pool)@.in_use[slot as int],
        result is Ok ==> final(pool)@.free == old(pool)@.free.push(slot) && !final(pool)@.in_use[slot as int],
        result is Err ==> final(pool)@ == old(pool)@,
        nothing is None && final(empty)@ == old(empty)@,
{
}

/// An encoder of even dimensions has three surfaces, all free and none with content; each is
/// converted into exactly if it does not hold the revision asked for.
pub proof fn law_surfaces_are_converted_once_per_revision(
    size: Size,
    created: Result<Nv12Pool, FrameError>,
    before: Nv12Pool,
    pool: &mut Nv12Pool,
    slot: usize,
    revision: u64,
    due: Result<bool, FrameError>,
    result: Result<(), FrameError>,
    again: Result<bool, FrameError>,
    later: u64,
    next: Result<bool, FrameError>,
)
    requires
        call_ensures(Nv12Pool::new, (size,), created),
        *old(pool) == before,
        slot < before.contents().len(),
        call_ensures(Nv12Pool::prepare, (&before, slot, revision), due),
        call_ensures(Nv12Pool::converted, (pool, slot, revision), result),
        call_ensures(Nv12Pool::prepare, (final(pool), slot, revision), again),
        later != revision,
        call_ensures(Nv12Pool::prepare, (final(pool), slot, later), next),
    ensures
        created is Ok <==> size.width % 2 == 0 && size.height % 2 == 0,
        created matches Ok(made) ==> made.slots().free.len() == 3 && made.contents().len() == 3
            && forall|k: int| 0 <= k < 3 ==> #[trigger] made.contents()[k] is None,
        due == Ok::<bool, FrameError>(before.contents()[slot as int] != Some(revision)),
        result is Ok,
        again == Ok::<bool, FrameError>(false),
        next == Ok::<bool, FrameError>(true),
        forall|k: int|
            0 <= k < before.contents().len() && k != slot ==> #[trigger] final(pool).contents()[k]
                == before.contents()[k],
{
}

} // verus!
