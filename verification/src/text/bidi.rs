use vstd::prelude::*;
use vstd::string::StrSliceExecFns;
use vstd::utf8::{encode_scalar, encode_utf8};

use super::segment::views;

verus! {

broadcast use vstd::utf8::char_is_scalar;

/// The embedding level of the first paragraph of `text` and the levels of
/// its bytes, as `unicode-bidi` resolves them.
pub uninterp spec fn first_paragraph_levels(text: Seq<char>) -> (u8, Seq<u8>);

/// `unicode_bidi::BidiInfo::new(text, None)`: the level of its first
/// paragraph and the levels (by byte) of that paragraph's range.
///
/// Trusted: the result is `first_paragraph_levels(text)`, and every level
/// is at most 126, the deepest embedding a `Level` can hold. A non-empty
/// text has at least one paragraph.
#[verifier::external_body]
fn bidi_first_paragraph(text: &str) -> (r: (u8, Vec<u8>))
    requires
        text@.len() > 0,
    ensures
        (r.0, r.1@) == first_paragraph_levels(text@),
        r.0 <= 126,
        forall|i: int| 0 <= i < r.1@.len() ==> #[trigger] r.1@[i] <= 126,
{
    let info = unicode_bidi::BidiInfo::new(text, None);
    let para = &info.paragraphs[0];
    let levels: Vec<u8> = info.levels[para.range.clone()].iter().map(|l| l.number()).collect();
    (para.level.number(), levels)
}

/// The visual order `unicode-bidi` gives to a sequence of levels.
pub uninterp spec fn visual_order(levels: Seq<u8>) -> Seq<usize>;

/// `unicode_bidi::BidiInfo::reorder_visual`: for each visual position, the
/// logical index shown there.
///
/// Trusted: the result is `visual_order(levels)`, a permutation of the
/// indices of `levels`: one entry per level, every entry an index of
/// `levels`, no index twice (the map starts as `0..len` and only whole
/// sub-ranges of it are reversed).
#[verifier::external_body]
fn reorder_visual(levels: &Vec<u8>) -> (r: Vec<usize>)
    requires
        forall|i: int| 0 <= i < levels@.len() ==> #[trigger] levels@[i] <= 126,
    ensures
        r@ == visual_order(levels@),
        r@.len() == levels@.len(),
        forall|i: int| 0 <= i < r@.len() ==> #[trigger] r@[i] < levels@.len(),
        forall|i: int, j: int| 0 <= i < j < r@.len() ==> r@[i] != r@[j],
{
    let levels: Vec<unicode_bidi::Level> = levels.iter().map(|&l| unicode_bidi::Level::new(l).unwrap()).collect();
    unicode_bidi::BidiInfo::reorder_visual(&levels)
}

/// Number of bytes of the UTF-8 encoding of `s`.
pub open spec fn utf8_len(s: Seq<char>) -> int {
    encode_utf8(s).len() as int
}

proof fn lemma_encode_utf8_concat(a: Seq<char>, b: Seq<char>)
    ensures
        encode_utf8(a + b) == encode_utf8(a) + encode_utf8(b),
    decreases a.len(),
{
    if a.len() == 0 {
        assert(a + b =~= b);
        assert(encode_utf8(a) =~= Seq::<u8>::empty());
        assert(encode_utf8(a) + encode_utf8(b) =~= encode_utf8(b));
    } else {
        assert((a + b).drop_first() =~= a.drop_first() + b);
        assert((a + b)[0] == a[0]);
        lemma_encode_utf8_concat(a.drop_first(), b);
        assert(encode_utf8(a + b) =~= encode_scalar(a[0] as u32) + encode_utf8(a.drop_first() + b));
        assert(encode_utf8(a) + encode_utf8(b) =~= encode_scalar(a[0] as u32) + (encode_utf8(
            a.drop_first(),
        ) + encode_utf8(b)));
    }
}

proof fn lemma_utf8_len_push(s: Seq<char>, c: char)
    ensures
        utf8_len(s.push(c)) == utf8_len(s) + encode_scalar(c as u32).len(),
{
    lemma_encode_utf8_concat(s, seq![c]);
    assert(s + seq![c] =~= s.push(c));
    assert(seq![c].drop_first() =~= Seq::<char>::empty());
    assert(encode_utf8(seq![c]) =~= encode_scalar(c as u32) + encode_utf8(Seq::<char>::empty()));
}

/// The number of bytes of the UTF-8 encoding of `c` (`char::len_utf8`).
pub fn char_utf8_len(c: char) -> (r: usize)
    ensures
        r == encode_scalar(c as u32).len(),
{
    let v = c as u32;
    if v <= 0x7F {
        1
    } else if v <= 0x7FF {
        2
    } else if v <= 0xFFFF {
        3
    } else {
        4
    }
}

/// The level of a token: the paragraph level raised to the highest level of
/// the bytes its first `n` characters start at (bytes beyond `levels` do
/// not count); `start` is the token's byte offset in the text.
pub open spec fn token_level(levels: Seq<u8>, para: u8, token: Seq<char>, start: int, n: int) -> u8
    decreases n,
{
    if n <= 0 {
        para
    } else {
        let prev = token_level(levels, para, token, start, n - 1);
        let off = start + utf8_len(token.take(n - 1));
        if 0 <= off < levels.len() && levels[off] > prev {
            levels[off]
        } else {
            prev
        }
    }
}

/// The levels of all tokens.
pub open spec fn token_levels(levels: Seq<u8>, para: u8, tokens: Seq<Seq<char>>) -> Seq<u8> {
    Seq::new(
        tokens.len(),
        |k: int| token_level(levels, para, tokens[k], utf8_len(tokens.take(k).flatten()), tokens[k].len() as int),
    )
}

/// The visual order of the tokens of `text`.
pub open spec fn visual_token_order(text: Seq<char>, tokens: Seq<Seq<char>>) -> Seq<usize> {
    let (para, levels) = first_paragraph_levels(text);
    visual_order(token_levels(levels, para, tokens))
}

proof fn lemma_token_level_bounded(levels: Seq<u8>, para: u8, token: Seq<char>, start: int, n: int)
    requires
        para <= 126,
        forall|i: int| 0 <= i < levels.len() ==> #[trigger] levels[i] <= 126,
    ensures
        token_level(levels, para, token, start, n) <= 126,
    decreases n,
{
    if n > 0 {
        lemma_token_level_bounded(levels, para, token, start, n - 1);
    }
}

/// The byte offset, in the text, of character `j` of a token that starts at
/// byte `start`.
pub open spec fn char_offset(token: Seq<char>, start: int, j: int) -> int {
    start + utf8_len(token.take(j))
}

proof fn lemma_token_level_is_max(levels: Seq<u8>, para: u8, token: Seq<char>, start: int, n: int)
    requires
        0 <= n,
    ensures
        token_level(levels, para, token, start, n) >= para,
        forall|j: int|
            0 <= j < n && 0 <= #[trigger] char_offset(token, start, j) < levels.len() ==> token_level(
                levels,
                para,
                token,
                start,
                n,
            ) >= levels[char_offset(token, start, j)],
        token_level(levels, para, token, start, n) == para || exists|j: int|
            0 <= j < n && 0 <= #[trigger] char_offset(token, start, j) < levels.len() && token_level(
                levels,
                para,
                token,
                start,
                n,
            ) == levels[char_offset(token, start, j)],
    decreases n,
{
    if n > 0 {
        lemma_token_level_is_max(levels, para, token, start, n - 1);
        let prev = token_level(levels, para, token, start, n - 1);
        let cur = token_level(levels, para, token, start, n);
        assert(cur >= prev);
        assert(char_offset(token, start, n - 1) == start + utf8_len(token.take(n - 1)));
        if cur != para && cur != prev {
            assert(0 <= char_offset(token, start, n - 1) < levels.len());
            assert(cur == levels[char_offset(token, start, n - 1)]);
        }
    }
}

/// A token's level is the highest embedding level among the bytes its
/// characters start at, and never below the paragraph level: at least the
/// paragraph level and the level of each of its characters (those past the
/// end of the levels do not count), and equal to one of them. Token `k`
/// starts at the byte where the tokens before it end.
pub proof fn lemma_token_level_is_highest(levels: Seq<u8>, para: u8, tokens: Seq<Seq<char>>, k: int)
    requires
        0 <= k < tokens.len(),
    ensures
        ({
            let lv = token_levels(levels, para, tokens)[k];
            let start = utf8_len(tokens.take(k).flatten());
            &&& lv >= para
            &&& forall|j: int|
                0 <= j < tokens[k].len() && 0 <= #[trigger] char_offset(tokens[k], start, j) < levels.len()
                    ==> lv >= levels[char_offset(tokens[k], start, j)]
            &&& lv == para || exists|j: int|
                0 <= j < tokens[k].len() && 0 <= #[trigger] char_offset(tokens[k], start, j) < levels.len()
                    && lv == levels[char_offset(tokens[k], start, j)]
        }),
{
    let start = utf8_len(tokens.take(k).flatten());
    lemma_token_level_is_max(levels, para, tokens[k], start, tokens[k].len() as int);
}

/// `x` capped at `usize::MAX`.
pub open spec fn capped(x: int) -> int {
    if x > usize::MAX {
        usize::MAX as int
    } else {
        x
    }
}

/// Orders the tokens of `text` for display: every token gets the highest
/// embedding level among its characters (at least its paragraph's level,
/// the first paragraph's levels applying), and the tokens are then
/// reordered by those levels. Returns, for each visual position, the index
/// of the token shown there; every token is shown exactly once.
pub fn order_tokens_visually(text: &str, tokens: &Vec<String>) -> (r: Vec<usize>)
    requires
        text@.len() > 0,
    ensures
        r@ == visual_token_order(text@, views(tokens@)),
        r@.len() == tokens@.len(),
        forall|i: int| 0 <= i < r@.len() ==> #[trigger] r@[i] < tokens@.len(),
        forall|i: int, j: int| 0 <= i < j < r@.len() ==> r@[i] != r@[j],
        forall|t: int| 0 <= t < tokens@.len() ==> #[trigger] shows(r@, t),
{
    let (para_level, levels) = bidi_first_paragraph(text);
    let token_lv = token_levels_of(para_level, &levels, tokens);
    let order = reorder_visual(&token_lv);
    proof {
        lemma_injective_covers(order@, tokens@.len() as int);
    }
    order
}

/// The level of every token: the paragraph level `para_level` raised to the
/// highest of the byte levels `levels` that the token's characters start
/// at, the tokens lying one after the other from byte 0. With levels of at
/// most 126, every token's level is at most 126.
pub fn token_levels_of(para_level: u8, levels: &Vec<u8>, tokens: &Vec<String>) -> (r: Vec<u8>)
    ensures
        r@ == token_levels(levels@, para_level, views(tokens@)),
        para_level <= 126 && (forall|i: int| 0 <= i < levels@.len() ==> #[trigger] levels@[i] <= 126)
            ==> forall|j: int| 0 <= j < r@.len() ==> #[trigger] r@[j] <= 126,
{
    let ghost bounded = para_level <= 126 && (forall|i: int|
        0 <= i < levels@.len() ==> #[trigger] levels@[i] <= 126);
    let ghost ts = views(tokens@);
    let n = tokens.len();
    let mut token_lv: Vec<u8> = Vec::new();
    let mut byte_pos: usize = 0;
    let mut k: usize = 0;
    proof {
        assert(ts.take(0) =~= Seq::<Seq<char>>::empty());
        assert(ts.take(0).flatten() =~= Seq::<char>::empty());
        assert(encode_utf8(Seq::<char>::empty()) =~= Seq::<u8>::empty());
    }
    while k < n
        invariant
            n == tokens@.len(),
            ts == views(tokens@),
            bounded == (para_level <= 126 && (forall|i: int|
                0 <= i < levels@.len() ==> #[trigger] levels@[i] <= 126)),
            k <= n,
            byte_pos == capped(utf8_len(ts.take(k as int).flatten())),
            token_lv@.len() == k,
            forall|j: int|
                0 <= j < k ==> #[trigger] token_lv@[j] == token_levels(levels@, para_level, ts)[j],
            bounded ==> forall|j: int| 0 <= j < k ==> #[trigger] token_lv@[j] <= 126,
        decreases n - k,
    {
        let token = tokens[k].as_str();
        let ghost t = ts[k as int];
        let ghost start = utf8_len(ts.take(k as int).flatten());
        assert(t == token@);
        let m = token.unicode_len();
        let mut max_level = para_level;
        let mut off: usize = 0;
        let mut j: usize = 0;
        assert(token@.take(0) =~= Seq::<char>::empty());
        assert(encode_utf8(Seq::<char>::empty()) =~= Seq::<u8>::empty());
        while j < m
            invariant
                m == token@.len(),
                t == token@,
                j <= m,
                byte_pos == capped(start),
                start >= 0,
                off == capped(utf8_len(t.take(j as int))),
                max_level == token_level(levels@, para_level, t, start, j as int),
            decreases m - j,
        {
            let c = token.get_char(j);
            proof {
                assert(t.take(j + 1) =~= t.take(j as int).push(c));
                lemma_utf8_len_push(t.take(j as int), c);
                assert(t.take(j + 1).take(j as int) =~= t.take(j as int));
            }
            let abs = byte_pos.saturating_add(off);
            if abs < levels.len() && levels[abs] > max_level {
                max_level = levels[abs];
            }
            off = off.saturating_add(char_utf8_len(c));
            j = j + 1;
        }
        assert(t.take(m as int) =~= t);
        proof {
            if bounded {
                lemma_token_level_bounded(levels@, para_level, t, start, m as int);
            }
            assert(ts.take(k + 1) =~= ts.take(k as int).push(t));
            ts.take(k as int).lemma_flatten_push(t);
            lemma_encode_utf8_concat(ts.take(k as int).flatten(), t);
        }
        token_lv.push(max_level);
        byte_pos = byte_pos.saturating_add(off);
        k = k + 1;
    }
    assert(token_lv@ =~= token_levels(levels@, para_level, ts));
    token_lv
}

/// Does the order `order` show the index `t` at some position?
pub open spec fn shows(order: Seq<usize>, t: int) -> bool {
    exists|i: int| 0 <= i < order.len() && order[i] == t
}

/// `n` distinct indices below `n` cover every index below `n`.
proof fn lemma_injective_covers(s: Seq<usize>, n: int)
    requires
        s.len() == n,
        forall|i: int| 0 <= i < s.len() ==> #[trigger] s[i] < n,
        forall|i: int, j: int| 0 <= i < j < s.len() ==> s[i] != s[j],
    ensures
        forall|t: int| 0 <= t < n ==> #[trigger] shows(s, t),
{
    let si = s.map_values(|v: usize| v as int);
    assert(si.no_duplicates()) by {
        assert forall|i: int, j: int| 0 <= i < si.len() && 0 <= j < si.len() && i != j implies si[i]
            != si[j] by {
            if i < j {
                assert(s[i] != s[j]);
            } else {
                assert(s[j] != s[i]);
            }
        }
    }
    si.unique_seq_to_set();
    let range = vstd::set_lib::set_int_range(0, n);
    vstd::set_lib::lemma_int_range(0, n);
    assert forall|t: int| 0 <= t < n implies #[trigger] shows(s, t) by {
        if !(exists|i: int| 0 <= i < s.len() && s[i] == t) {
            assert(range.contains(t));
            assert(si.to_set().subset_of(range.remove(t))) by {
                assert forall|v: int| si.to_set().contains(v) implies range.remove(t).contains(v) by {
                    let i = choose|i: int| 0 <= i < si.len() && si[i] == v;
                    assert(s[i] < n);
                }
            }
            vstd::set_lib::lemma_len_subset(si.to_set(), range.remove(t));
        }
    }
}

} // verus!
