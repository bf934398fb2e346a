//! Shelf packing of glyph bitmaps into a square texture atlas.
use vstd::prelude::*;

verus! {

/// Side length of a glyph atlas texture, in pixels.
pub const ATLAS_SIZE: u32 = 2048;

/// Transparent border kept around every glyph in the atlas, so that
/// filtering at the edge of a glyph quad never samples a neighbour.
pub const ATLAS_PADDING: u32 = 1;

/// The pixel format of an atlas texture.
#[derive(Debug, Clone, Copy, PartialEq, Eq, Structural)]
pub enum AtlasFormat {
    R8Unorm,
    Rgba8Unorm,
    Other,
}

/// A rectangle `(x, y, width, height)` over unbounded integers.
pub type Region = (int, int, int, int);

/// Do two regions share no pixel?
pub open spec fn regions_disjoint(a: Region, b: Region) -> bool {
    ||| a.0 + a.2 <= b.0
    ||| b.0 + b.2 <= a.0
    ||| a.1 + a.3 <= b.1
    ||| b.1 + b.3 <= a.1
}

/// Bytes per pixel of an atlas of the given format.
pub open spec fn format_bytes_per_pixel(format: AtlasFormat) -> u32 {
    match format {
        AtlasFormat::Rgba8Unorm => 4,
        _ => 1,
    }
}

/// The packing state of a glyph atlas: glyphs are placed left to right on
/// horizontal shelves, and a new shelf starts below the tallest glyph of
/// the current one when a glyph does not fit beside the last.
pub struct GlyphAtlas {
    format: AtlasFormat,
    cursor_x: u32,
    cursor_y: u32,
    shelf_height: u32,
    /// The padded regions handed out since the atlas was created or cleared.
    regions: Ghost<Seq<Region>>,
}

impl GlyphAtlas {
    pub closed spec fn spec_format(&self) -> AtlasFormat {
        self.format
    }

    /// `(cursor x, cursor y, current shelf height)`
    pub closed spec fn spec_cursor(&self) -> (u32, u32, u32) {
        (self.cursor_x, self.cursor_y, self.shelf_height)
    }

    /// The padded regions handed out since the atlas was created or cleared.
    pub closed spec fn spec_regions(&self) -> Seq<Region> {
        self.regions@
    }

    /// The packing invariant: every region handed out lies inside the
    /// atlas, on a finished shelf above the cursor or on the current shelf
    /// left of it, no region reaches below the current shelf, and no two
    /// regions overlap.
    pub closed spec fn wf(&self) -> bool {
        let cx = self.cursor_x as int;
        let cy = self.cursor_y as int;
        let sh = self.shelf_height as int;
        &&& cy + sh <= ATLAS_SIZE
        &&& cx <= ATLAS_SIZE
        &&& forall|i: int|
            0 <= i < self.regions@.len() ==> {
                let r = #[trigger] self.regions@[i];
                &&& 0 <= r.0
                &&& 0 <= r.1
                &&& r.2 > 0
                &&& r.3 > 0
                &&& r.0 + r.2 <= ATLAS_SIZE
                &&& (r.1 + r.3 <= cy || (r.1 == cy && r.0 + r.2 <= cx && r.3 <= sh))
            }
        &&& forall|i: int, j: int|
            0 <= i < self.regions@.len() && 0 <= j < self.regions@.len() && i != j
                ==> regions_disjoint(#[trigger] self.regions@[i], #[trigger] self.regions@[j])
    }

    /// An empty atlas of the given format.
    pub fn new(format: AtlasFormat) -> (r: Self)
        ensures
            r.wf(),
            r.spec_format() == format,
            r.spec_cursor() == (0u32, 0u32, 0u32),
            r.spec_regions() == Seq::<Region>::empty(),
    {
        GlyphAtlas { format, cursor_x: 0, cursor_y: 0, shelf_height: 0, regions: Ghost(Seq::empty()) }
    }

    pub fn format(&self) -> (r: AtlasFormat)
        ensures
            r == self.spec_format(),
    {
        self.format
    }

    /// `(cursor x, cursor y, current shelf height)`
    pub fn cursor(&self) -> (r: (u32, u32, u32))
        ensures
            r == self.spec_cursor(),
    {
        (self.cursor_x, self.cursor_y, self.shelf_height)
    }

    /// Bytes per pixel of this atlas's texture.
    pub fn bytes_per_pixel(&self) -> (r: u32)
        ensures
            r == format_bytes_per_pixel(self.spec_format()),
    {
        match self.format {
            AtlasFormat::R8Unorm => 1,
            AtlasFormat::Rgba8Unorm => 4,
            AtlasFormat::Other => 1,
        }
    }

    /// Forgets every placed glyph and returns the number of zero bytes that
    /// blank the whole texture.
    pub fn clear(&mut self) -> (bytes: u32)
        ensures
            final(self).wf(),
            final(self).spec_format() == old(self).spec_format(),
            final(self).spec_cursor() == (0u32, 0u32, 0u32),
            final(self).spec_regions() == Seq::<Region>::empty(),
            bytes == ATLAS_SIZE * ATLAS_SIZE * format_bytes_per_pixel(old(self).spec_format()),
    {
        let bytes_per_pixel = self.bytes_per_pixel();
        self.cursor_x = 0;
        self.cursor_y = 0;
        self.shelf_height = 0;
        self.regions = Ghost(Seq::empty());
        ATLAS_SIZE * ATLAS_SIZE * bytes_per_pixel
    }

    /// Reserves a `w × h` region with a transparent border of
    /// `ATLAS_PADDING` pixels and returns where the glyph's own pixels go;
    /// the glyph and its border lie inside the atlas and overlap no region
    /// handed out before.
    ///
    /// An empty glyph gets `(0, 0)` and reserves nothing; a glyph that
    /// cannot fit even into an empty atlas gets `None` and changes nothing.
    /// When the padded glyph does not fit beside the last one, a new shelf
    /// is started; when it does not fit below the last shelf either, `None`
    /// is returned (the new shelf stays started).
    pub fn allocate(&mut self, w: u32, h: u32) -> (r: Option<(u32, u32)>)
        requires
            old(self).wf(),
        ensures
            final(self).wf(),
            final(self).spec_format() == old(self).spec_format(),
            w == 0 || h == 0 ==> {
                &&& r == Some((0u32, 0u32))
                &&& final(self).spec_cursor() == old(self).spec_cursor()
                &&& final(self).spec_regions() == old(self).spec_regions()
            },
            w > 0 && h > 0 && padded_origin(old(self).spec_cursor(), w, h) is Some ==> {
                let (x, y) = padded_origin(old(self).spec_cursor(), w, h)->0;
                let sh = shelf_after(old(self).spec_cursor(), w).2;
                let ah = h + 2 * ATLAS_PADDING;
                &&& r == Some(((x + ATLAS_PADDING) as u32, (y + ATLAS_PADDING) as u32))
                &&& final(self).spec_cursor() == (
                    (x + w + 2 * ATLAS_PADDING) as u32,
                    y as u32,
                    if sh >= ah { sh as u32 } else { ah as u32 },
                )
                &&& final(self).spec_regions() == old(self).spec_regions().push(
                    (x, y, w + 2 * ATLAS_PADDING, h + 2 * ATLAS_PADDING),
                )
            },
            w > 0 && h > 0 && padded_origin(old(self).spec_cursor(), w, h) is None ==> {
                let (cx, cy, sh) = shelf_after(old(self).spec_cursor(), w);
                &&& r is None
                &&& final(self).spec_regions() == old(self).spec_regions()
                &&& final(self).spec_cursor() == (if too_big(w, h) {
                    old(self).spec_cursor()
                } else {
                    (cx as u32, cy as u32, sh as u32)
                })
            },
            r is Some && w > 0 && h > 0 ==> {
                let p = r->0;
                &&& ATLAS_PADDING <= p.0 && p.0 + w + ATLAS_PADDING <= ATLAS_SIZE
                &&& ATLAS_PADDING <= p.1 && p.1 + h + ATLAS_PADDING <= ATLAS_SIZE
                &&& forall|i: int|
                    0 <= i < old(self).spec_regions().len() ==> regions_disjoint(
                        #[trigger] old(self).spec_regions()[i],
                        (p.0 - ATLAS_PADDING, p.1 - ATLAS_PADDING, w + 2 * ATLAS_PADDING, h + 2
                            * ATLAS_PADDING),
                    )
            },
    {
        if w == 0 || h == 0 {
            return Some((0, 0));
        }
        let pad = ATLAS_PADDING;
        if w > ATLAS_SIZE - pad * 2 || h > ATLAS_SIZE - pad * 2 {
            return None;
        }
        let aw = w + pad * 2;
        let ah = h + pad * 2;
        if self.cursor_x + aw > ATLAS_SIZE {
            self.cursor_y = self.cursor_y + self.shelf_height;
            self.cursor_x = 0;
            self.shelf_height = 0;
        }
        if self.cursor_y + ah > ATLAS_SIZE {
            return None;
        }
        let pos = (self.cursor_x + pad, self.cursor_y + pad);
        let ghost old_regions = self.regions@;
        let ghost placed: Region = (self.cursor_x as int, self.cursor_y as int, aw as int, ah as int);
        self.regions = Ghost(old_regions.push(placed));
        self.cursor_x = self.cursor_x + aw;
        if ah > self.shelf_height {
            self.shelf_height = ah;
        }
        assert forall|i: int, j: int|
            0 <= i < self.regions@.len() && 0 <= j < self.regions@.len() && i != j
                implies regions_disjoint(#[trigger] self.regions@[i], #[trigger] self.regions@[j]) by {
            if i < old_regions.len() && j < old_regions.len() {
                assert(self.regions@[i] == old_regions[i]);
                assert(self.regions@[j] == old_regions[j]);
            }
        }
        Some(pos)
    }
}

/// Is a `w × h` glyph with its border too big for even an empty atlas?
pub open spec fn too_big(w: u32, h: u32) -> bool {
    w + 2 * ATLAS_PADDING > ATLAS_SIZE || h + 2 * ATLAS_PADDING > ATLAS_SIZE
}

/// The cursor `(x, y, shelf height)` from which a glyph of width `w` is
/// placed: a new shelf starts below the current one when the padded glyph
/// does not fit beside the last one.
pub open spec fn shelf_after(c: (u32, u32, u32), w: u32) -> (int, int, int) {
    let (cx0, cy0, sh0) = c;
    if cx0 + w + 2 * ATLAS_PADDING > ATLAS_SIZE {
        (0, cy0 + sh0, 0)
    } else {
        (cx0 as int, cy0 as int, sh0 as int)
    }
}

/// Where, from the cursor `c`, the padded box of a `w × h` glyph would go
/// (its top-left corner), or `None` when it is too big for the atlas or
/// does not fit below the last shelf.
pub open spec fn padded_origin(c: (u32, u32, u32), w: u32, h: u32) -> Option<(int, int)> {
    let (cx, cy, sh) = shelf_after(c, w);
    if too_big(w, h) || cy + h + 2 * ATLAS_PADDING > ATLAS_SIZE {
        None
    } else {
        Some((cx, cy))
    }
}

impl GlyphAtlas {
    /// Reserves a `w × h` region like [`GlyphAtlas::allocate`]; when the
    /// atlas is full, clears it and tries once more on the empty atlas.
    ///
    /// Returns where the glyph's pixels go (or `None`) and, when the atlas
    /// was cleared, the number of zero bytes that blank its texture. After
    /// a clear, a glyph that fits the atlas with its border is always
    /// placed in its top-left corner.
    pub fn allocate_or_clear(&mut self, w: u32, h: u32) -> (r: (Option<(u32, u32)>, Option<u32>))
        requires
            old(self).wf(),
        ensures
            final(self).wf(),
            final(self).spec_format() == old(self).spec_format(),
            w == 0 || h == 0 ==> {
                &&& r == (Some((0u32, 0u32)), None::<u32>)
                &&& final(self).spec_cursor() == old(self).spec_cursor()
                &&& final(self).spec_regions() == old(self).spec_regions()
            },
            w > 0 && h > 0 && padded_origin(old(self).spec_cursor(), w, h) is Some ==> {
                let (x, y) = padded_origin(old(self).spec_cursor(), w, h)->0;
                &&& r == (Some(((x + ATLAS_PADDING) as u32, (y + ATLAS_PADDING) as u32)), None::<u32>)
                &&& final(self).spec_regions() == old(self).spec_regions().push(
                    (x, y, w + 2 * ATLAS_PADDING, h + 2 * ATLAS_PADDING),
                )
            },
            w > 0 && h > 0 && padded_origin(old(self).spec_cursor(), w, h) is None ==> {
                &&& r.1 == Some((ATLAS_SIZE * ATLAS_SIZE * format_bytes_per_pixel(old(self).spec_format())) as u32)
                &&& !too_big(w, h) ==> {
                    &&& r.0 == Some((ATLAS_PADDING, ATLAS_PADDING))
                    &&& final(self).spec_regions() == seq![
                        (0int, 0int, w + 2 * ATLAS_PADDING, h + 2 * ATLAS_PADDING),
                    ]
                }
                &&& too_big(w, h) ==> {
                    &&& r.0 is None
                    &&& final(self).spec_regions() == Seq::<Region>::empty()
                }
            },
    {
        match self.allocate(w, h) {
            Some(pos) => (Some(pos), None),
            None => {
                let bytes = self.clear();
                let pos = self.allocate(w, h);
                (pos, Some(bytes))
            },
        }
    }
}

/// Whether a colour glyph bitmap of `w × h` pixels is stored in the colour
/// atlas: it must be non-empty and narrower and lower than the atlas.
pub fn accepts_colour_glyph(w: u32, h: u32) -> (r: bool)
    ensures
        r == (0 < w < ATLAS_SIZE && 0 < h < ATLAS_SIZE),
{
    w > 0 && h > 0 && w < ATLAS_SIZE && h < ATLAS_SIZE
}

/// Two regions handed out by an atlas since it was last cleared never
/// overlap, and each lies vertically inside the atlas.
pub proof fn lemma_atlas_regions_disjoint(atlas: &GlyphAtlas, i: int, j: int)
    requires
        atlas.wf(),
        0 <= i < atlas.spec_regions().len(),
        0 <= j < atlas.spec_regions().len(),
        i != j,
    ensures
        regions_disjoint(atlas.spec_regions()[i], atlas.spec_regions()[j]),
        0 <= atlas.spec_regions()[i].1,
        atlas.spec_regions()[i].1 + atlas.spec_regions()[i].3 <= ATLAS_SIZE,
{
    let r = atlas.spec_regions()[i];
    assert(r == atlas.regions@[i]);
}

/// Every region handed out lies inside the atlas.
pub proof fn lemma_atlas_region_inside(atlas: &GlyphAtlas, i: int)
    requires
        atlas.wf(),
        0 <= i < atlas.spec_regions().len(),
    ensures
        0 <= atlas.spec_regions()[i].0,
        atlas.spec_regions()[i].0 + atlas.spec_regions()[i].2 <= ATLAS_SIZE,
        0 <= atlas.spec_regions()[i].1,
        atlas.spec_regions()[i].1 + atlas.spec_regions()[i].3 <= ATLAS_SIZE,
{
    let r = atlas.spec_regions()[i];
    assert(r == atlas.regions@[i]);
}

} // verus!
