//! Per-frame decisions of the GPU renderers: what to do with the surface
//! texture that was acquired, where each rectangle's uniforms go, and how
//! glyph quads are indexed and budgeted.
use vstd::prelude::*;

verus! {

/// The outcome of acquiring the next surface texture.
#[derive(Debug, Clone, Copy, PartialEq, Eq, Structural)]
pub enum SurfaceStatus {
    Success,
    Suboptimal,
    Timeout,
    Occluded,
    Outdated,
    Other,
}

/// What a frame does with the acquired surface texture.
#[derive(Debug, Clone, Copy, PartialEq, Eq, Structural)]
pub enum FramePlan {
    /// Draw and present; reconfigure the surface afterwards if asked.
    Draw { reconfigure_after: bool },
    /// Reconfigure the surface to the window size and skip the frame.
    ReconfigureAndSkip,
    /// Skip the frame.
    Skip,
}

/// A suboptimal texture is still drawn to, then the surface is
/// reconfigured; an outdated surface is reconfigured and the frame skipped;
/// on any other failure the frame is skipped.
pub fn frame_plan(status: SurfaceStatus) -> (r: FramePlan)
    ensures
        r == match status {
            SurfaceStatus::Success => FramePlan::Draw { reconfigure_after: false },
            SurfaceStatus::Suboptimal => FramePlan::Draw { reconfigure_after: true },
            SurfaceStatus::Outdated => FramePlan::ReconfigureAndSkip,
            _ => FramePlan::Skip,
        },
{
    match status {
        SurfaceStatus::Success => FramePlan::Draw { reconfigure_after: false },
        SurfaceStatus::Suboptimal => FramePlan::Draw { reconfigure_after: true },
        SurfaceStatus::Timeout => FramePlan::Skip,
        SurfaceStatus::Occluded => FramePlan::Skip,
        SurfaceStatus::Outdated => FramePlan::ReconfigureAndSkip,
        SurfaceStatus::Other => FramePlan::Skip,
    }
}

/// Clearing the window draws only on a successfully acquired texture.
pub fn clear_plan(status: SurfaceStatus) -> (r: FramePlan)
    ensures
        r == (if status == SurfaceStatus::Success {
            FramePlan::Draw { reconfigure_after: false }
        } else {
            FramePlan::Skip
        }),
{
    match status {
        SurfaceStatus::Success => FramePlan::Draw { reconfigure_after: false },
        _ => FramePlan::Skip,
    }
}

/// Is `a` a power of two?
pub open spec fn is_power_of_two(a: u64) -> bool {
    a != 0 && a & ((a - 1) as u64) == 0
}

/// Rounds `size` up to a multiple of the power of two `align` (a value
/// whose bits below `align` are all clear): the stride of one dynamically
/// offset uniform entry.
pub fn align_up(size: u64, align: u64) -> (r: u64)
    requires
        is_power_of_two(align),
        size + align - 1 <= u64::MAX,
    ensures
        r & ((align - 1) as u64) == 0,
        size <= r,
        r < size + align,
{
    let m = align - 1;
    let x = size + m;
    let r = x & !m;
    assert(r & m == 0 && r <= x && x - r <= m) by (bit_vector)
        requires
            r == x & !m,
    ;
    r
}

/// The number of rectangles a frame can draw.
pub const MAX_RECTANGLES_PER_FRAME: u32 = 128;

/// The byte offset of uniform slot `slot`, or `None` when the frame's slots
/// are used up.
pub fn uniform_slot_offset(slot: u32, stride: u64) -> (r: Option<u64>)
    requires
        (MAX_RECTANGLES_PER_FRAME - 1) * stride <= u64::MAX,
    ensures
        r == (if slot < MAX_RECTANGLES_PER_FRAME {
            Some((slot * stride) as u64)
        } else {
            None
        }),
{
    if slot >= MAX_RECTANGLES_PER_FRAME {
        return None;
    }
    assert(slot * stride <= (MAX_RECTANGLES_PER_FRAME - 1) * stride) by (nonlinear_arith)
        requires
            slot <= MAX_RECTANGLES_PER_FRAME - 1,
    ;
    Some(slot as u64 * stride)
}

/// The uniform slots of a frame's rectangles: each rectangle drawn takes
/// the next slot until the frame's slots are used up.
pub struct RectangleSlots {
    next: u32,
}

impl RectangleSlots {
    #[verifier::type_invariant]
    spec fn inv(&self) -> bool {
        self.next <= MAX_RECTANGLES_PER_FRAME
    }

    /// The number of slots taken in this frame.
    pub closed spec fn used(&self) -> nat {
        self.next as nat
    }

    /// No slot is taken yet.
    pub fn new() -> (r: Self)
        ensures
            r.used() == 0,
    {
        RectangleSlots { next: 0 }
    }

    /// Frees every slot at the start of a frame.
    pub fn begin_frame(&mut self)
        ensures
            final(self).used() == 0,
    {
        *self = RectangleSlots { next: 0 };
    }

    /// Takes the next slot and returns its byte offset for slots of
    /// `stride` bytes, or `None` (taking nothing) when the frame's slots
    /// are used up: the `n`-th slot of a frame lies at `(n - 1) * stride`.
    pub fn take(&mut self, stride: u64) -> (r: Option<u64>)
        requires
            (MAX_RECTANGLES_PER_FRAME - 1) * stride <= u64::MAX,
        ensures
            old(self).used() < MAX_RECTANGLES_PER_FRAME ==> {
                &&& r == Some((old(self).used() * stride) as u64)
                &&& final(self).used() == old(self).used() + 1
            },
            old(self).used() >= MAX_RECTANGLES_PER_FRAME ==> {
                &&& r is None
                &&& final(self).used() == old(self).used()
            },
            final(self).used() <= MAX_RECTANGLES_PER_FRAME,
    {
        proof {
            use_type_invariant(&*self);
        }
        let slot = self.next;
        match uniform_slot_offset(slot, stride) {
            Some(offset) => {
                *self = RectangleSlots { next: slot + 1 };
                Some(offset)
            },
            None => None,
        }
    }
}

/// Slots taken one after another in a frame never overlap: slot `i`'s
/// bytes end where slot `j > i` can start at the earliest.
pub proof fn lemma_slots_do_not_overlap(i: nat, j: nat, stride: nat)
    requires
        i < j,
    ensures
        i * stride + stride <= j * stride,
{
    assert(i * stride + stride <= j * stride) by (nonlinear_arith)
        requires
            i < j,
    ;
}

/// Vertices the text vertex buffer holds per frame (4096 glyphs × 4).
pub const MAX_TEXT_VERTICES: usize = 16384;

/// Indices the text index buffer holds per frame (6 per glyph).
pub const MAX_TEXT_INDICES: usize = 24576;

/// The indices of the two triangles of the glyph quad whose first vertex
/// is `base` (top-left, top-right, bottom-right, bottom-left).
pub fn quad_indices(base: u16) -> (r: [u16; 6])
    requires
        base + 3 <= u16::MAX,
    ensures
        r@ == seq![base, (base + 1) as u16, (base + 2) as u16, base, (base + 2) as u16, (base + 3) as u16],
{
    [base, base + 1, base + 2, base, base + 2, base + 3]
}

/// Can one more glyph quad be added to a text primitive that already has
/// `vertices` vertices?
pub fn quad_fits(vertices: usize) -> (r: bool)
    ensures
        r == (vertices + 4 <= MAX_TEXT_VERTICES),
{
    vertices <= MAX_TEXT_VERTICES - 4
}

/// The write cursors of the text renderer's vertex and index buffers within
/// a frame. Glyph quads are reserved whole, four vertices and six indices
/// each, so the cursors always stay in that ratio and inside the buffers.
pub struct TextFrameCursor {
    next_vertex: u32,
    next_index: u32,
}

impl TextFrameCursor {
    #[verifier::type_invariant]
    spec fn inv(&self) -> bool {
        &&& self.next_vertex <= MAX_TEXT_VERTICES
        &&& 2 * self.next_index == 3 * self.next_vertex
    }

    /// The next free vertex of this frame.
    pub closed spec fn vertices(&self) -> nat {
        self.next_vertex as nat
    }

    /// The next free index of this frame.
    pub closed spec fn indices(&self) -> nat {
        self.next_index as nat
    }

    /// A frame starts writing at the beginning of both buffers.
    pub fn new() -> (r: Self)
        ensures
            r.vertices() == 0 && r.indices() == 0,
    {
        TextFrameCursor { next_vertex: 0, next_index: 0 }
    }

    /// `(next free vertex, next free index)`.
    pub fn position(&self) -> (r: (u32, u32))
        ensures
            r.0 == self.vertices() && r.1 == self.indices(),
            r.0 <= MAX_TEXT_VERTICES,
            2 * r.1 == 3 * r.0,
    {
        proof {
            use_type_invariant(self);
        }
        (self.next_vertex, self.next_index)
    }

    /// Resets the cursors at the start of a frame.
    pub fn begin_frame(&mut self)
        ensures
            final(self).vertices() == 0 && final(self).indices() == 0,
    {
        *self = TextFrameCursor { next_vertex: 0, next_index: 0 };
    }

    /// Reserves room for `quads` glyph quads (four vertices and six indices
    /// each) and returns where their vertices and indices go, or `None`
    /// (reserving nothing) when the vertex buffer would overflow for this
    /// frame. Over a frame the cursors keep the four-to-six ratio and never
    /// pass the ends of the buffers.
    pub fn reserve_quads(&mut self, quads: usize) -> (r: Option<(u32, u32)>)
        ensures
            old(self).vertices() + 4 * quads <= MAX_TEXT_VERTICES ==> {
                &&& r == Some((old(self).vertices() as u32, old(self).indices() as u32))
                &&& final(self).vertices() == old(self).vertices() + 4 * quads
                &&& final(self).indices() == old(self).indices() + 6 * quads
            },
            !(old(self).vertices() + 4 * quads <= MAX_TEXT_VERTICES) ==> {
                &&& r is None
                &&& final(self).vertices() == old(self).vertices()
                &&& final(self).indices() == old(self).indices()
            },
            final(self).vertices() <= MAX_TEXT_VERTICES,
            final(self).indices() <= MAX_TEXT_INDICES,
            2 * final(self).indices() == 3 * final(self).vertices(),
    {
        proof {
            use_type_invariant(&*self);
        }
        let v = self.next_vertex;
        let ix = self.next_index;
        if quads > (MAX_TEXT_VERTICES / 4) as usize || v as usize + 4 * quads > MAX_TEXT_VERTICES {
            return None;
        }
        let q = quads as u32;
        *self = TextFrameCursor { next_vertex: v + 4 * q, next_index: ix + 6 * q };
        proof {
            use_type_invariant(&*self);
        }
        Some((v, ix))
    }
}

} // verus!
