use vstd::prelude::*;
use vstd::string::StrSliceExecFns;
use ab_glyph::Font;

use super::emoji::{is_emoji_text, is_emoji_token};
use super::segment::{has_white_space_property, is_white_space};

verus! {

/// A font file's bytes and the index of the face inside it (for
/// collections).
pub struct FontFace {
    pub data: Vec<u8>,
    pub face_index: u32,
}

/// The glyph `ab_glyph` maps a character to in a face (0 when the face has
/// no glyph for it or cannot be parsed).
pub uninterp spec fn font_glyph_index(data: Seq<u8>, face_index: u32, c: char) -> u16;

/// `ab_glyph::FontRef::try_from_slice_and_index(data, face_index)` followed
/// by `Font::glyph_id(c)`, with 0 for data that does not parse.
///
/// Trusted: the result is `font_glyph_index(data, face_index, c)`, a
/// function of the font bytes, the face index and the character.
#[verifier::external_body]
fn glyph_index(data: &[u8], face_index: u32, c: char) -> (r: u16)
    ensures
        r == font_glyph_index(data@, face_index, c),
{
    match ab_glyph::FontRef::try_from_slice_and_index(data, face_index) {
        Ok(font) => font.glyph_id(c).0,
        Err(_) => 0,
    }
}

/// The glyph of `c` in `face`.
pub open spec fn glyph_of(face: FontFace, c: char) -> u16 {
    font_glyph_index(face.data@, face.face_index, c)
}

/// The half-open range `start..end` of font indices.
#[derive(Debug, Clone, Copy, PartialEq, Eq, Structural)]
pub struct IndexRange {
    pub start: usize,
    pub end: usize,
}

/// The indices of the fonts loaded for each script family, in priority
/// order.
#[derive(Debug, Clone, Copy, PartialEq, Eq, Structural)]
pub struct FontGroupRanges {
    pub latin: IndexRange,
    pub cjk: IndexRange,
    pub arabic: IndexRange,
    pub emoji: IndexRange,
}

/// Boundary `i` of a group list, 0 when there is none.
pub open spec fn boundary_at(b: Seq<usize>, i: int) -> usize {
    if 0 <= i < b.len() {
        b[i]
    } else {
        0
    }
}

fn boundary(b: &Vec<usize>, i: usize) -> (r: usize)
    ensures
        r == boundary_at(b@, i as int),
{
    if i < b.len() {
        b[i]
    } else {
        0
    }
}

/// The font groups from the font counts after each group was loaded:
/// latin fonts come first, then CJK, Arabic and emoji fonts.
pub fn font_groups_from_boundaries(boundaries: &Vec<usize>) -> (r: FontGroupRanges)
    ensures
        r.latin == (IndexRange { start: 0, end: boundary_at(boundaries@, 0) }),
        r.cjk == (IndexRange { start: boundary_at(boundaries@, 0), end: boundary_at(boundaries@, 1) }),
        r.arabic == (IndexRange { start: boundary_at(boundaries@, 1), end: boundary_at(boundaries@, 2) }),
        r.emoji == (IndexRange { start: boundary_at(boundaries@, 2), end: boundary_at(boundaries@, 3) }),
{
    FontGroupRanges {
        latin: IndexRange { start: 0, end: boundary(boundaries, 0) },
        cjk: IndexRange { start: boundary(boundaries, 0), end: boundary(boundaries, 1) },
        arabic: IndexRange { start: boundary(boundaries, 1), end: boundary(boundaries, 2) },
        emoji: IndexRange { start: boundary(boundaries, 2), end: boundary(boundaries, 3) },
    }
}

// ── Scripts and directions ────────────────────────────────────────────

/// ISO 15924 tags (big-endian `u32`) of the scripts that select a font group.
pub const SCRIPT_ARABIC: u32 = 0x41726162;
pub const SCRIPT_HEBREW: u32 = 0x48656272;
pub const SCRIPT_HAN: u32 = 0x48616e69;
pub const SCRIPT_HIRAGANA: u32 = 0x48697261;
pub const SCRIPT_KATAKANA: u32 = 0x4b616e61;
pub const SCRIPT_HANGUL: u32 = 0x48616e67;

/// The direction text is set in.
#[derive(Debug, Clone, Copy, PartialEq, Eq, Structural)]
pub enum TextDirection {
    Invalid,
    LeftToRight,
    RightToLeft,
    TopToBottom,
    BottomToTop,
}

/// The script tag and direction `harfrust` guesses for a text.
pub uninterp spec fn guessed_segment_properties(text: Seq<char>) -> (Option<u32>, TextDirection);

/// Detects the script and direction of a text run with `harfrust`'s
/// HarfBuzz-compatible guessing (`UnicodeBuffer::guess_segment_properties`):
/// the script of the first character with a script of its own, the
/// direction of that script.
///
/// Trusted: the result is `guessed_segment_properties(text)`, with the
/// script given by its ISO 15924 tag.
#[verifier::external_body]
pub(crate) fn detect_script_and_dir(text: &str) -> (r: (Option<u32>, TextDirection))
    ensures
        r == guessed_segment_properties(text@),
{
    let mut buffer = harfrust::Buffer::new();
    buffer.push_str(text);
    buffer.guess_segment_properties();
    let script = buffer.script().map(|s| u32::from_be_bytes(s.tag().to_be_bytes()));
    let direction = match buffer.direction() {
        harfrust::Direction::Invalid => TextDirection::Invalid,
        harfrust::Direction::LeftToRight => TextDirection::LeftToRight,
        harfrust::Direction::RightToLeft => TextDirection::RightToLeft,
        harfrust::Direction::TopToBottom => TextDirection::TopToBottom,
        harfrust::Direction::BottomToTop => TextDirection::BottomToTop,
    };
    (script, direction)
}

// ── Font selection ────────────────────────────────────────────────────

/// Finds the first font that contains a glyph for `c`; 0 if none does.
pub fn find_font_for_char(c: char, fonts: &Vec<FontFace>) -> (r: usize)
    ensures
        (exists|i: int| 0 <= i < fonts@.len() && glyph_of(#[trigger] fonts@[i], c) != 0) ==> {
            &&& r < fonts@.len()
            &&& glyph_of(fonts@[r as int], c) != 0
            &&& forall|j: int| 0 <= j < r ==> glyph_of(#[trigger] fonts@[j], c) == 0
        },
        !(exists|i: int| 0 <= i < fonts@.len() && glyph_of(#[trigger] fonts@[i], c) != 0) ==> r == 0,
{
    let n = fonts.len();
    let mut i: usize = 0;
    while i < n
        invariant
            n == fonts@.len(),
            i <= n,
            forall|j: int| 0 <= j < i ==> glyph_of(#[trigger] fonts@[j], c) == 0,
        decreases n - i,
    {
        if glyph_index(fonts[i].data.as_slice(), fonts[i].face_index, c) != 0 {
            return i;
        }
        i = i + 1;
    }
    0
}

/// Does `face` have a glyph for every character of `text` that is not white
/// space?
pub open spec fn covers(face: FontFace, text: Seq<char>) -> bool {
    forall|i: int|
        0 <= i < text.len() && !has_white_space_property(#[trigger] text[i]) ==> glyph_of(face, text[i])
            != 0
}

/// How many characters of `text` that are not white space `face` has a
/// glyph for.
pub open spec fn coverage_count(face: FontFace, text: Seq<char>) -> nat
    decreases text.len(),
{
    if text.len() == 0 {
        0
    } else {
        coverage_count(face, text.drop_last()) + if !has_white_space_property(text.last())
            && glyph_of(face, text.last()) != 0 {
            1nat
        } else {
            0nat
        }
    }
}

/// The first font in `lo..hi` that covers `text`.
pub open spec fn first_covering(fonts: Seq<FontFace>, text: Seq<char>, lo: int, hi: int) -> Option<int>
    decreases hi - lo,
{
    if lo >= hi {
        None
    } else if covers(fonts[lo], text) {
        Some(lo)
    } else {
        first_covering(fonts, text, lo + 1, hi)
    }
}

/// Among the first `n` fonts, the last one covering the most characters of
/// `text` (0 when `n` is 0).
pub open spec fn last_best_coverage(fonts: Seq<FontFace>, text: Seq<char>, n: int) -> int
    decreases n,
{
    if n <= 1 {
        0
    } else {
        let best = last_best_coverage(fonts, text, n - 1);
        if coverage_count(fonts[n - 1], text) >= coverage_count(fonts[best], text) {
            n - 1
        } else {
            best
        }
    }
}

/// The font group preferred for `text` in `script`.
pub open spec fn preferred_group(text: Seq<char>, script: Option<u32>, groups: FontGroupRanges) -> IndexRange {
    if is_emoji_text(text) {
        groups.emoji
    } else if script == Some(SCRIPT_ARABIC) || script == Some(SCRIPT_HEBREW) {
        groups.arabic
    } else if script == Some(SCRIPT_HAN) || script == Some(SCRIPT_HIRAGANA) || script == Some(
        SCRIPT_KATAKANA,
    ) || script == Some(SCRIPT_HANGUL) {
        groups.cjk
    } else {
        groups.latin
    }
}

/// The font chosen for `text`: the first covering font of the preferred
/// group, else the first covering font, else the last font covering the
/// most characters, else 0.
pub open spec fn best_font_index(
    text: Seq<char>,
    fonts: Seq<FontFace>,
    script: Option<u32>,
    groups: FontGroupRanges,
) -> int {
    let pref = preferred_group(text, script, groups);
    let hi = if pref.end < fonts.len() { pref.end as int } else { fonts.len() as int };
    match first_covering(fonts, text, pref.start as int, hi) {
        Some(i) => i,
        None => match first_covering(fonts, text, 0, fonts.len() as int) {
            Some(i) => i,
            None => last_best_coverage(fonts, text, fonts.len() as int),
        },
    }
}

fn face_covers(face: &FontFace, text: &str) -> (r: bool)
    ensures
        r == covers(*face, text@),
{
    let n = text.unicode_len();
    let mut i: usize = 0;
    while i < n
        invariant
            n == text@.len(),
            i <= n,
            forall|j: int|
                0 <= j < i && !has_white_space_property(#[trigger] text@[j]) ==> glyph_of(*face, text@[j])
                    != 0,
        decreases n - i,
    {
        let c = text.get_char(i);
        if !is_white_space(c) && glyph_index(face.data.as_slice(), face.face_index, c) == 0 {
            return false;
        }
        i = i + 1;
    }
    true
}

fn face_coverage(face: &FontFace, text: &str) -> (r: usize)
    ensures
        r == coverage_count(*face, text@),
{
    let n = text.unicode_len();
    let mut count: usize = 0;
    let mut i: usize = 0;
    while i < n
        invariant
            n == text@.len(),
            i <= n,
            count <= i,
            count == coverage_count(*face, text@.take(i as int)),
        decreases n - i,
    {
        let c = text.get_char(i);
        assert(text@.take(i + 1).drop_last() =~= text@.take(i as int));
        assert(text@.take(i + 1).last() == c);
        if !is_white_space(c) && glyph_index(face.data.as_slice(), face.face_index, c) != 0 {
            count = count + 1;
        }
        i = i + 1;
    }
    assert(text@.take(n as int) =~= text@);
    count
}

fn first_covering_in(fonts: &Vec<FontFace>, text: &str, lo: usize, hi: usize) -> (r: Option<usize>)
    requires
        hi <= fonts@.len(),
    ensures
        r matches Some(i) ==> first_covering(fonts@, text@, lo as int, hi as int) == Some(i as int),
        r is None ==> first_covering(fonts@, text@, lo as int, hi as int) is None,
{
    let mut i = lo;
    while i < hi
        invariant
            hi <= fonts@.len(),
            lo <= i || hi <= i,
            first_covering(fonts@, text@, lo as int, hi as int) == first_covering(
                fonts@,
                text@,
                i as int,
                hi as int,
            ),
        decreases hi - i,
    {
        if face_covers(&fonts[i], text) {
            return Some(i);
        }
        i = i + 1;
    }
    None
}

/// Picks the best font for a piece of text (a word or a single grapheme
/// cluster): the first font of the group that suits the text's script that
/// has a glyph for every non-white-space character, else the first such
/// font of all, else the (last) font with glyphs for the most characters.
pub fn find_best_font_for_text(
    text: &str,
    fonts: &Vec<FontFace>,
    script: Option<u32>,
    groups: &FontGroupRanges,
) -> (r: usize)
    ensures
        r == best_font_index(text@, fonts@, script, *groups),
        fonts@.len() > 0 ==> r < fonts@.len(),
{
    let preferred: IndexRange = if is_emoji_token(text) {
        groups.emoji
    } else if script == Some(SCRIPT_ARABIC) || script == Some(SCRIPT_HEBREW) {
        groups.arabic
    } else if script == Some(SCRIPT_HAN) || script == Some(SCRIPT_HIRAGANA) || script == Some(
        SCRIPT_KATAKANA,
    ) || script == Some(SCRIPT_HANGUL) {
        groups.cjk
    } else {
        groups.latin
    };
    let n = fonts.len();
    let hi = if preferred.end < n {
        preferred.end
    } else {
        n
    };
    if let Some(i) = first_covering_in(fonts, text, preferred.start, hi) {
        proof {
            lemma_first_covering_in_range(fonts@, text@, preferred.start as int, hi as int);
        }
        return i;
    }
    if let Some(i) = first_covering_in(fonts, text, 0, n) {
        proof {
            lemma_first_covering_in_range(fonts@, text@, 0, n as int);
        }
        return i;
    }
    if n == 0 {
        return 0;
    }
    let mut best: usize = 0;
    let mut best_count = face_coverage(&fonts[0], text);
    let mut i: usize = 1;
    while i < n
        invariant
            n == fonts@.len(),
            1 <= i <= n,
            best < i,
            best == last_best_coverage(fonts@, text@, i as int),
            best_count == coverage_count(fonts@[best as int], text@),
        decreases n - i,
    {
        let count = face_coverage(&fonts[i], text);
        if count >= best_count {
            best = i;
            best_count = count;
        }
        i = i + 1;
    }
    best
}

/// Some font of `group` that is loaded covers `text`.
pub open spec fn group_has_covering_font(fonts: Seq<FontFace>, text: Seq<char>, group: IndexRange) -> bool {
    exists|i: int| group.start <= i < group.end && i < fonts.len() && covers(#[trigger] fonts[i], text)
}

/// Font `i` is the first loaded font of `group` that covers `text`.
pub open spec fn is_first_covering_font(fonts: Seq<FontFace>, text: Seq<char>, group: IndexRange, i: int) -> bool {
    &&& group.start <= i < group.end
    &&& i < fonts.len()
    &&& covers(fonts[i], text)
    &&& forall|j: int| group.start <= j < i ==> !covers(#[trigger] fonts[j], text)
}

proof fn lemma_first_covering_is_first(fonts: Seq<FontFace>, text: Seq<char>, lo: int, hi: int)
    requires
        0 <= lo,
        hi <= fonts.len(),
    ensures
        first_covering(fonts, text, lo, hi) matches Some(i) ==> {
            &&& lo <= i < hi
            &&& covers(fonts[i], text)
            &&& forall|j: int| lo <= j < i ==> !covers(#[trigger] fonts[j], text)
        },
        first_covering(fonts, text, lo, hi) is None ==> forall|j: int|
            lo <= j < hi ==> !covers(#[trigger] fonts[j], text),
    decreases hi - lo,
{
    if lo < hi {
        lemma_first_covering_is_first(fonts, text, lo + 1, hi);
    }
}

proof fn lemma_group_choice(fonts: Seq<FontFace>, text: Seq<char>, group: IndexRange)
    requires
        group_has_covering_font(fonts, text, group),
    ensures
        ({
            let hi = if group.end < fonts.len() { group.end as int } else { fonts.len() as int };
            first_covering(fonts, text, group.start as int, hi) matches Some(i)
                && is_first_covering_font(fonts, text, group, i)
        }),
{
    let hi = if group.end < fonts.len() { group.end as int } else { fonts.len() as int };
    lemma_first_covering_is_first(fonts, text, group.start as int, hi);
    let w = choose|i: int| group.start <= i < group.end && i < fonts.len() && covers(#[trigger] fonts[i], text);
    assert(group.start <= w < hi);
}

/// The font chosen for a piece of text is the first loaded font of the
/// group its script asks for that covers it, whenever that group has one:
/// the emoji group for emoji, the Arabic group for Arabic and Hebrew, the
/// CJK group for Han, Hiragana, Katakana and Hangul, the latin group for
/// anything else. Whenever any font covers the text, the chosen font does,
/// and the choice is always a loaded font when there is one.
pub proof fn lemma_script_selects_font_group(
    text: Seq<char>,
    fonts: Seq<FontFace>,
    script: Option<u32>,
    groups: FontGroupRanges,
)
    ensures
        is_emoji_text(text) && group_has_covering_font(fonts, text, groups.emoji) ==> is_first_covering_font(
            fonts,
            text,
            groups.emoji,
            best_font_index(text, fonts, script, groups),
        ),
        !is_emoji_text(text) && (script == Some(SCRIPT_ARABIC) || script == Some(SCRIPT_HEBREW))
            && group_has_covering_font(fonts, text, groups.arabic) ==> is_first_covering_font(
            fonts,
            text,
            groups.arabic,
            best_font_index(text, fonts, script, groups),
        ),
        !is_emoji_text(text) && (script == Some(SCRIPT_HAN) || script == Some(SCRIPT_HIRAGANA) || script
            == Some(SCRIPT_KATAKANA) || script == Some(SCRIPT_HANGUL)) && group_has_covering_font(
            fonts,
            text,
            groups.cjk,
        ) ==> is_first_covering_font(fonts, text, groups.cjk, best_font_index(text, fonts, script, groups)),
        !is_emoji_text(text) && script != Some(SCRIPT_ARABIC) && script != Some(SCRIPT_HEBREW) && script
            != Some(SCRIPT_HAN) && script != Some(SCRIPT_HIRAGANA) && script != Some(SCRIPT_KATAKANA)
            && script != Some(SCRIPT_HANGUL) && group_has_covering_font(fonts, text, groups.latin)
            ==> is_first_covering_font(fonts, text, groups.latin, best_font_index(text, fonts, script, groups)),
        (exists|i: int| 0 <= i < fonts.len() && covers(#[trigger] fonts[i], text)) ==> {
            let r = best_font_index(text, fonts, script, groups);
            0 <= r < fonts.len() && covers(fonts[r], text)
        },
        fonts.len() > 0 ==> 0 <= best_font_index(text, fonts, script, groups) < fonts.len(),
{
    let pref = preferred_group(text, script, groups);
    if group_has_covering_font(fonts, text, pref) {
        lemma_group_choice(fonts, text, pref);
    }
    let hi = if pref.end < fonts.len() { pref.end as int } else { fonts.len() as int };
    lemma_first_covering_is_first(fonts, text, pref.start as int, hi);
    lemma_first_covering_is_first(fonts, text, 0, fonts.len() as int);
    lemma_last_best_coverage_in_range(fonts, text, fonts.len() as int);
}

proof fn lemma_last_best_coverage_in_range(fonts: Seq<FontFace>, text: Seq<char>, n: int)
    ensures
        n > 0 ==> 0 <= last_best_coverage(fonts, text, n) < n,
        n <= 0 ==> last_best_coverage(fonts, text, n) == 0,
    decreases n,
{
    if n > 1 {
        lemma_last_best_coverage_in_range(fonts, text, n - 1);
    }
}

proof fn lemma_first_covering_in_range(fonts: Seq<FontFace>, text: Seq<char>, lo: int, hi: int)
    ensures
        first_covering(fonts, text, lo, hi) matches Some(i) ==> lo <= i < hi,
    decreases hi - lo,
{
    if lo < hi {
        lemma_first_covering_in_range(fonts, text, lo + 1, hi);
    }
}

} // verus!
