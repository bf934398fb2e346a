//! Integer parts of painting colour (COLRv1) glyphs: the clip stack of a
//! painter and cropping the painted RGBA canvas to its visible pixels.
use vstd::prelude::*;
use skrifa::raw::TableProvider;

verus! {

/// Index of byte `k` of pixel `(x, y)` in an RGBA buffer `w` pixels wide.
pub open spec fn rgba_index(w: int, x: int, y: int, k: int) -> int {
    (y * w + x) * 4 + k
}

/// Is pixel `(x, y)` of the `w × h` RGBA buffer inside it and not fully
/// transparent?
pub open spec fn visible(buf: Seq<u8>, w: int, h: int, x: int, y: int) -> bool {
    0 <= x < w && 0 <= y < h && buf[rgba_index(w, x, y, 3)] > 0
}

/// The visible pixels of a canvas, cut out along their bounding box.
pub struct Cropped {
    /// RGBA bytes, `width` pixels per row.
    pub pixels: Vec<u8>,
    pub width: u32,
    pub height: u32,
    /// Left edge of the box in the canvas.
    pub min_x: u32,
    /// Top edge of the box in the canvas.
    pub min_y: u32,
}

proof fn lemma_index_bounds(w: int, h: int, x: int, y: int, k: int)
    requires
        0 <= x < w,
        0 <= y < h,
        0 <= k < 4,
    ensures
        0 <= rgba_index(w, x, y, k) < w * h * 4,
        rgba_index(w, x, y, k) == (y * w + x) * 4 + k,
{
    assert(0 <= y * w) by (nonlinear_arith)
        requires
            0 <= y,
            0 <= w,
    ;
    assert(y * w + x < h * w) by (nonlinear_arith)
        requires
            0 <= x < w,
            0 <= y < h,
    ;
    assert(h * w * 4 == w * h * 4) by (nonlinear_arith);
}

proof fn lemma_row_byte_bounds(w: int, h: int, x0: int, cw: int, y: int, k: int)
    requires
        0 <= x0,
        x0 + cw <= w,
        0 <= y < h,
        0 <= k < cw * 4,
    ensures
        0 <= (y * w + x0) * 4 + k < w * h * 4,
{
    assert(0 <= y * w) by (nonlinear_arith)
        requires
            0 <= y,
            0 <= w,
    ;
    assert((y * w + x0) * 4 + k < (y * w + w) * 4) by (nonlinear_arith)
        requires
            x0 + cw <= w,
            k < cw * 4,
    ;
    assert(y * w + w <= h * w) by (nonlinear_arith)
        requires
            y < h,
            0 <= w,
    ;
    assert(h * w * 4 == w * h * 4) by (nonlinear_arith);
}

proof fn lemma_row_index(ry: int, yy: int, rb: int, kk: int)
    requires
        0 <= ry < yy,
        0 <= kk < rb,
    ensures
        0 <= ry * rb + kk < yy * rb,
{
    assert(0 <= ry * rb + kk < yy * rb) by (nonlinear_arith)
        requires
            0 <= ry < yy,
            0 <= kk < rb,
    ;
}

/// Cuts the visible pixels of the `w × h` RGBA canvas `buf` out along
/// their bounding box; `None` when no pixel is visible.
#[verifier::spinoff_prover]
pub fn crop_to_visible(buf: &Vec<u8>, w: u32, h: u32) -> (r: Option<Cropped>)
    requires
        buf@.len() == w * h * 4,
        w * h * 4 <= u32::MAX,
    ensures
        r is None <==> !exists|x: int, y: int| visible(buf@, w as int, h as int, x, y),
        r matches Some(c) ==> {
            &&& c.width > 0 && c.height > 0
            &&& c.min_x + c.width <= w
            &&& c.min_y + c.height <= h
            &&& forall|x: int, y: int|
                #[trigger] visible(buf@, w as int, h as int, x, y) ==> c.min_x <= x < c.min_x
                    + c.width && c.min_y <= y < c.min_y + c.height
            &&& exists|y: int| #[trigger] visible(buf@, w as int, h as int, c.min_x as int, y)
            &&& exists|y: int| #[trigger] visible(buf@, w as int, h as int, c.min_x + c.width - 1, y)
            &&& exists|x: int| #[trigger] visible(buf@, w as int, h as int, x, c.min_y as int)
            &&& exists|x: int| #[trigger] visible(buf@, w as int, h as int, x, c.min_y + c.height - 1)
            &&& c.pixels@.len() == c.width * c.height * 4
            &&& forall|yy: int, k: int|
                0 <= yy < c.height && 0 <= k < c.width * 4 ==> #[trigger] c.pixels@[yy * (c.width
                    * 4) + k] == buf@[((c.min_y + yy) * w + c.min_x) * 4 + k]
        },
{
    let mut min_x: u32 = w;
    let mut min_y: u32 = h;
    let mut max_x: u32 = 0;
    let mut max_y: u32 = 0;
    let ghost mut wl: (int, int) = (0, 0);
    let ghost mut wr: (int, int) = (0, 0);
    let ghost mut wt: (int, int) = (0, 0);
    let ghost mut wb: (int, int) = (0, 0);
    let mut y: u32 = 0;
    while y < h
        invariant
            buf@.len() == w * h * 4,
            w * h * 4 <= u32::MAX,
            y <= h,
            min_x <= w,
            min_y <= h,
            max_x <= w,
            max_y <= h,
            forall|px: int, py: int|
                0 <= py < y && #[trigger] visible(buf@, w as int, h as int, px, py) ==> min_x <= px
                    < max_x && min_y <= py < max_y,
            (min_x < max_x) ==> {
                &&& min_y < max_y
                &&& visible(buf@, w as int, h as int, wl.0, wl.1) && wl.0 == min_x
                &&& visible(buf@, w as int, h as int, wr.0, wr.1) && wr.0 == max_x - 1
                &&& visible(buf@, w as int, h as int, wt.0, wt.1) && wt.1 == min_y
                &&& visible(buf@, w as int, h as int, wb.0, wb.1) && wb.1 == max_y - 1
            },
            !(min_x < max_x) ==> min_x == w && max_x == 0 && min_y == h && max_y == 0,
        decreases h - y,
    {
        let mut x: u32 = 0;
        while x < w
            invariant
                buf@.len() == w * h * 4,
                w * h * 4 <= u32::MAX,
                y < h,
                x <= w,
                min_x <= w,
                min_y <= h,
                max_x <= w,
                max_y <= h,
                forall|px: int, py: int|
                    (0 <= py < y || (py == y && 0 <= px < x)) && #[trigger] visible(
                        buf@,
                        w as int,
                        h as int,
                        px,
                        py,
                    ) ==> min_x <= px < max_x && min_y <= py < max_y,
                (min_x < max_x) ==> {
                    &&& min_y < max_y
                    &&& visible(buf@, w as int, h as int, wl.0, wl.1) && wl.0 == min_x
                    &&& visible(buf@, w as int, h as int, wr.0, wr.1) && wr.0 == max_x - 1
                    &&& visible(buf@, w as int, h as int, wt.0, wt.1) && wt.1 == min_y
                    &&& visible(buf@, w as int, h as int, wb.0, wb.1) && wb.1 == max_y - 1
                },
                !(min_x < max_x) ==> min_x == w && max_x == 0 && min_y == h && max_y == 0,
            decreases w - x,
        {
            proof {
                lemma_index_bounds(w as int, h as int, x as int, y as int, 3);
            }
            let a = buf[((y * w + x) * 4 + 3) as usize];
            if a > 0 {
                assert(visible(buf@, w as int, h as int, x as int, y as int));
                let was_empty = !(min_x < max_x);
                if was_empty || x < min_x {
                    min_x = x;
                    proof {
                        wl = (x as int, y as int);
                    }
                }
                if was_empty || y < min_y {
                    min_y = y;
                    proof {
                        wt = (x as int, y as int);
                    }
                }
                if was_empty || x + 1 > max_x {
                    max_x = x + 1;
                    proof {
                        wr = (x as int, y as int);
                    }
                }
                if was_empty || y + 1 > max_y {
                    max_y = y + 1;
                    proof {
                        wb = (x as int, y as int);
                    }
                }
            }
            x = x + 1;
        }
        y = y + 1;
    }
    if min_x >= max_x || min_y >= max_y {
        return None;
    }
    let cw = max_x - min_x;
    let ch = max_y - min_y;
    assert(cw * ch * 4 <= w * h * 4) by (nonlinear_arith)
        requires
            0 < cw <= w,
            0 < ch <= h,
    ;
    assert(cw * 4 <= w * h * 4) by (nonlinear_arith)
        requires
            0 < cw <= w,
            0 < ch <= h,
    ;
    let row_bytes: u32 = cw * 4;
    let mut pixels: Vec<u8> = Vec::new();
    let mut yy: u32 = 0;
    while yy < ch
        invariant
            buf@.len() == w * h * 4,
            w * h * 4 <= u32::MAX,
            min_x + cw <= w,
            min_y + ch <= h,
            cw > 0,
            row_bytes == cw * 4,
            yy <= ch,
            pixels@.len() == yy * row_bytes,
            forall|ry: int, k: int|
                0 <= ry < yy && 0 <= k < row_bytes ==> #[trigger] pixels@[ry * row_bytes + k]
                    == buf@[((min_y + ry) * w + min_x) * 4 + k],
        decreases ch - yy,
    {
        proof {
            lemma_row_byte_bounds(w as int, h as int, min_x as int, cw as int, (min_y + yy) as int, 0);
        }
        let src_row: u32 = ((min_y + yy) * w + min_x) * 4;
        let mut k: u32 = 0;
        while k < row_bytes
            invariant
                buf@.len() == w * h * 4,
                w * h * 4 <= u32::MAX,
                min_x + cw <= w,
                min_y + ch <= h,
                cw > 0,
                row_bytes == cw * 4,
                yy < ch,
                src_row == ((min_y + yy) * w + min_x) * 4,
                k <= row_bytes,
                pixels@.len() == yy * row_bytes + k,
                forall|ry: int, kk: int|
                    0 <= ry < yy && 0 <= kk < row_bytes ==> #[trigger] pixels@[ry * row_bytes + kk]
                        == buf@[((min_y + ry) * w + min_x) * 4 + kk],
                forall|kk: int|
                    0 <= kk < k ==> #[trigger] pixels@[yy * row_bytes + kk] == buf@[src_row + kk],
            decreases row_bytes - k,
        {
            proof {
                lemma_row_byte_bounds(w as int, h as int, min_x as int, cw as int, (min_y + yy) as int, k as int);
            }
            let ghost before = pixels@;
            pixels.push(buf[(src_row + k) as usize]);
            proof {
                assert forall|ry: int, kk: int|
                    0 <= ry < yy && 0 <= kk < row_bytes implies #[trigger] pixels@[ry * row_bytes + kk]
                        == buf@[((min_y + ry) * w + min_x) * 4 + kk] by {
                    lemma_row_index(ry, yy as int, row_bytes as int, kk);
                    assert(pixels@[ry * row_bytes + kk] == before[ry * row_bytes + kk]);
                }
            }
            k = k + 1;
        }
        proof {
            assert forall|ry: int, kk: int|
                0 <= ry < yy + 1 && 0 <= kk < row_bytes implies #[trigger] pixels@[ry * row_bytes + kk]
                    == buf@[((min_y + ry) * w + min_x) * 4 + kk] by {
                if ry == yy {
                } else {
                }
            }
            assert((yy + 1) * row_bytes == yy * row_bytes + row_bytes) by (nonlinear_arith);
        }
        yy = yy + 1;
    }
    assert(ch * row_bytes == cw * ch * 4) by (nonlinear_arith)
        requires
            row_bytes == cw * 4,
    ;
    assert forall|ry: int, k: int|
        0 <= ry < ch && 0 <= k < cw * 4 implies #[trigger] pixels@[ry * (cw * 4) + k] == buf@[((min_y
            + ry) * w + min_x) * 4 + k] by {
        assert(pixels@[ry * row_bytes + k] == buf@[((min_y + ry) * w + min_x) * 4 + k]);
    }
    Some(Cropped { pixels, width: cw, height: ch, min_x, min_y })
}

} // verus!

verus! {

/// The clip state of a colour-glyph painter: the glyph whose outline clips
/// the next fill, or the clip box (of type `B`) that does, and the states
/// saved by the clips pushed so far.
pub struct ClipState<B> {
    pub glyph: Option<u16>,
    pub clip_box: Option<B>,
    pub stack: Vec<(Option<u16>, Option<B>)>,
}

/// The clip box that a fill without a glyph uses: the current one, else
/// the most recently saved one.
pub open spec fn effective_clip_box<B>(clip_box: Option<B>, stack: Seq<(Option<u16>, Option<B>)>) -> Option<B>
    decreases stack.len(),
{
    if clip_box is Some {
        clip_box
    } else if stack.len() == 0 {
        None
    } else {
        effective_clip_box(stack.last().1, stack.drop_last())
    }
}

/// A clip state as `(glyph, clip box, saved states)`.
pub type Clips<B> = (Option<u16>, Option<B>, Seq<(Option<u16>, Option<B>)>);

impl<B> ClipState<B> {
    /// The state as plain values.
    pub open spec fn clips(&self) -> Clips<B> {
        (self.glyph, self.clip_box, self.stack@)
    }
}

/// The state after clipping to glyph `glyph_id` (taken modulo 2^16): the
/// current clip is saved.
pub open spec fn clips_after_glyph<B>(c: Clips<B>, glyph_id: u32) -> Clips<B> {
    (Some(glyph_id as u16), None, c.2.push((c.0, c.1)))
}

/// The state after clipping to the box `clip_box`: the current clip is
/// saved.
pub open spec fn clips_after_box<B>(c: Clips<B>, clip_box: B) -> Clips<B> {
    (None, Some(clip_box), c.2.push((c.0, c.1)))
}

/// The state after popping a clip: the last saved one, or no clip at all
/// when nothing is saved.
pub open spec fn clips_after_pop<B>(c: Clips<B>) -> Clips<B> {
    if c.2.len() > 0 {
        (c.2.last().0, c.2.last().1, c.2.drop_last())
    } else {
        (None, None, c.2)
    }
}

impl<B: Copy> ClipState<B> {
    /// No clip and nothing saved.
    pub fn new() -> (r: Self)
        ensures
            r.clips() == (None::<u16>, None::<B>, Seq::<(Option<u16>, Option<B>)>::empty()),
    {
        ClipState { glyph: None, clip_box: None, stack: Vec::new() }
    }

    /// Saves the current clip and clips to the outline of glyph `glyph_id`
    /// (taken modulo 2^16).
    pub fn push_clip_glyph(&mut self, glyph_id: u32)
        ensures
            final(self).clips() == clips_after_glyph(old(self).clips(), glyph_id),
    {
        self.stack.push((self.glyph, self.clip_box));
        self.glyph = Some(glyph_id as u16);
        self.clip_box = None;
    }

    /// Saves the current clip and clips to the box `clip_box`.
    pub fn push_clip_box(&mut self, clip_box: B)
        ensures
            final(self).clips() == clips_after_box(old(self).clips(), clip_box),
    {
        self.stack.push((self.glyph, self.clip_box));
        self.glyph = None;
        self.clip_box = Some(clip_box);
    }

    /// Restores the most recently saved clip; with nothing saved, removes
    /// every clip.
    pub fn pop_clip(&mut self)
        ensures
            final(self).clips() == clips_after_pop(old(self).clips()),
    {
        match self.stack.pop() {
            Some((glyph, clip_box)) => {
                self.glyph = glyph;
                self.clip_box = clip_box;
            },
            None => {
                self.glyph = None;
                self.clip_box = None;
            },
        }
    }

    /// The clip box a fill without a usable glyph outline paints into.
    pub fn fallback_clip_box(&self) -> (r: Option<B>)
        ensures
            r == effective_clip_box(self.clip_box, self.stack@),
    {
        if self.clip_box.is_some() {
            return self.clip_box;
        }
        let mut i = self.stack.len();
        assert(self.stack@.subrange(0, i as int) =~= self.stack@);
        while i > 0
            invariant
                i <= self.stack@.len(),
                effective_clip_box(self.clip_box, self.stack@) == effective_clip_box(
                    None::<B>,
                    self.stack@.subrange(0, i as int),
                ),
            decreases i,
        {
            let cb = self.stack[i - 1].1;
            assert(self.stack@.subrange(0, i as int).drop_last() =~= self.stack@.subrange(0, i - 1));
            assert(self.stack@.subrange(0, i as int).last() == self.stack@[i - 1]);
            if cb.is_some() {
                assert(effective_clip_box(cb, self.stack@.subrange(0, i - 1)) == cb);
                return cb;
            }
            i = i - 1;
        }
        None
    }
}

/// Popping a clip right after pushing one, of a glyph or of a box,
/// restores the clip state as it was.
pub proof fn lemma_pop_undoes_push<B>(c: Clips<B>, glyph_id: u32, clip_box: B)
    ensures
        clips_after_pop(clips_after_glyph(c, glyph_id)) == c,
        clips_after_pop(clips_after_box(c, clip_box)) == c,
{
    assert(c.2.push((c.0, c.1)).drop_last() =~= c.2);
}

} // verus!

verus! {

/// A colour as `(red, green, blue, alpha)`.
pub type Rgba = (u8, u8, u8, u8);

/// The palette entry count and colour records of the `CPAL` table of a
/// face, as `skrifa` reads them; `None` when the face or its table cannot
/// be read.
pub uninterp spec fn cpal_records(data: Seq<u8>, face_index: u32) -> Option<(u16, Seq<Rgba>)>;

/// `skrifa::FontRef::from_index(data, face_index)`, then its `cpal()` table's
/// `num_palette_entries()` and `color_records_array()`, each record as
/// `(red, green, blue, alpha)`.
///
/// Trusted: the result is `cpal_records(data, face_index)`, `None` when
/// the face, the table or its record array cannot be read.
#[verifier::external_body]
fn read_cpal_records(data: &[u8], face_index: u32) -> (r: Option<(u16, Vec<Rgba>)>)
    ensures
        match r {
            Some((n, recs)) => cpal_records(data@, face_index) == Some((n, recs@)),
            None => cpal_records(data@, face_index) is None,
        },
{
    let font = skrifa::FontRef::from_index(data, face_index).ok()?;
    let cpal = font.cpal().ok()?;
    let records = cpal.color_records_array()?.ok()?;
    let colours: Vec<Rgba> = records.iter().map(|r| (r.red, r.green, r.blue, r.alpha)).collect();
    Some((cpal.num_palette_entries(), colours))
}

/// The first palette: one colour per palette entry, opaque black for an
/// entry without a colour record.
pub open spec fn first_palette(n: u16, records: Seq<Rgba>) -> Seq<Rgba> {
    Seq::new(n as nat, |i: int| if i < records.len() { records[i] } else { (0u8, 0u8, 0u8, 255u8) })
}

/// Pixel `p` of `bgra`, in RGBA order.
pub open spec fn rgba_pixel(bgra: Seq<u8>, p: int) -> Seq<u8> {
    seq![bgra[4 * p + 2], bgra[4 * p + 1], bgra[4 * p], bgra[4 * p + 3]]
}

/// Swaps the blue and red bytes of every whole 4-byte BGRA pixel; bytes
/// after the last whole pixel are dropped.
pub fn bgra_to_rgba(bgra: &Vec<u8>) -> (r: Vec<u8>)
    ensures
        r@.len() == bgra@.len() / 4 * 4,
        forall|p: int| 0 <= p < bgra@.len() / 4 ==> #[trigger] r@.subrange(4 * p, 4 * p + 4) == rgba_pixel(bgra@, p),
{
    let len = bgra.len();
    let n = len / 4;
    let mut out: Vec<u8> = Vec::new();
    let mut p: usize = 0;
    while p < n
        invariant
            len == bgra@.len(),
            n == bgra@.len() / 4,
            p <= n,
            out@.len() == 4 * p,
            forall|q: int| 0 <= q < p ==> #[trigger] out@.subrange(4 * q, 4 * q + 4) == rgba_pixel(bgra@, q),
        decreases n - p,
    {
        assert(4 * p + 3 < len) by (nonlinear_arith)
            requires
                p < n,
                n == len / 4,
        ;
        let i = 4 * p;
        let ghost before = out@;
        out.push(bgra[i + 2]);
        out.push(bgra[i + 1]);
        out.push(bgra[i]);
        out.push(bgra[i + 3]);
        proof {
            assert forall|q: int| 0 <= q < p + 1 implies #[trigger] out@.subrange(4 * q, 4 * q + 4)
                == rgba_pixel(bgra@, q) by {
                if q < p {
                    assert(out@.subrange(4 * q, 4 * q + 4) =~= before.subrange(4 * q, 4 * q + 4));
                } else {
                    assert(out@.subrange(4 * q, 4 * q + 4) =~= rgba_pixel(bgra@, q));
                }
            }
        }
        p = p + 1;
    }
    out
}

/// The first palette from a `CPAL` table's entry count and colour
/// records: one colour per entry, opaque black for an entry without a
/// record.
pub fn palette_from_records(n: u16, records: &Vec<Rgba>) -> (r: Vec<Rgba>)
    ensures
        r@ == first_palette(n, records@),
{
    let mut out: Vec<Rgba> = Vec::new();
    let mut i: u16 = 0;
    while i < n
        invariant
            i <= n,
            out@ =~= first_palette(n, records@).take(i as int),
        decreases n - i,
    {
        if (i as usize) < records.len() {
            out.push(records[i as usize]);
        } else {
            out.push((0, 0, 0, 255));
        }
        i = i + 1;
    }
    out
}

/// Reads the first colour palette of a face (empty when the face has no
/// readable `CPAL` table).
pub fn read_cpal(data: &[u8], face_index: u32) -> (r: Vec<Rgba>)
    ensures
        match cpal_records(data@, face_index) {
            Some((n, recs)) => r@ == first_palette(n, recs),
            None => r@.len() == 0,
        },
{
    match read_cpal_records(data, face_index) {
        None => Vec::new(),
        Some((n, records)) => palette_from_records(n, &records),
    }
}

/// The colour of palette entry `index`, magenta when the palette has no
/// such entry.
pub fn palette_colour(palette: &Vec<Rgba>, index: u16) -> (r: Rgba)
    ensures
        r == (if (index as int) < palette@.len() {
            palette@[index as int]
        } else {
            (255u8, 0u8, 255u8, 255u8)
        }),
{
    if (index as usize) < palette.len() {
        palette[index as usize]
    } else {
        (255, 0, 255, 255)
    }
}

} // verus!
