use vstd::prelude::*;
use vstd::string::StrSliceExecFns;
use vstd::string::StringExecFns;
use unicode_segmentation::UnicodeSegmentation;

verus! {

/// The extended grapheme clusters of `text`, as `unicode-segmentation`
/// splits it.
pub uninterp spec fn extended_graphemes(text: Seq<char>) -> Seq<Seq<char>>;

/// Does `c` have the Unicode `White_Space` property (the characters
/// `char::is_whitespace` accepts)? Tabs, line feeds, vertical tabs, form
/// feeds, carriage returns, the space, next line, the no-break space, the
/// Ogham space mark, the spaces from en quad to hair space, the line and
/// paragraph separators, the narrow no-break space, the medium mathematical
/// space and the ideographic space.
pub open spec fn has_white_space_property(c: char) -> bool {
    let v = c as u32;
    ||| 0x9 <= v <= 0xD
    ||| v == 0x20
    ||| v == 0x85
    ||| v == 0xA0
    ||| v == 0x1680
    ||| 0x2000 <= v <= 0x200A
    ||| v == 0x2028
    ||| v == 0x2029
    ||| v == 0x202F
    ||| v == 0x205F
    ||| v == 0x3000
}

/// The views of a sequence of strings.
pub open spec fn views(v: Seq<String>) -> Seq<Seq<char>> {
    v.map_values(|s: String| s@)
}

/// `UnicodeSegmentation::graphemes(text, true)`, each cluster copied into a
/// `String`.
///
/// Trusted: the clusters are `extended_graphemes(text)`, none is empty,
/// and together, in order, they are the whole text (the iterator hands out
/// the slices between consecutive cluster boundaries, from the start to the
/// end of the text).
#[verifier::external_body]
pub(crate) fn graphemes_of(text: &str) -> (r: Vec<String>)
    ensures
        views(r@) == extended_graphemes(text@),
        views(r@).flatten() == text@,
        forall|i: int| 0 <= i < r@.len() ==> (#[trigger] r@[i])@.len() > 0,
{
    text.graphemes(true).map(|g| g.to_string()).collect()
}

/// Whether `c` is white space, as `char::is_whitespace` decides it.
pub fn is_white_space(c: char) -> (r: bool)
    ensures
        r == has_white_space_property(c),
{
    let v = c as u32;
    (0x9 <= v && v <= 0xD) || v == 0x20 || v == 0x85 || v == 0xA0 || v == 0x1680 || (0x2000 <= v
        && v <= 0x200A) || v == 0x2028 || v == 0x2029 || v == 0x202F || v == 0x205F || v == 0x3000
}

/// Is every character of `s` white space? (True for the empty sequence.)
pub open spec fn all_white(s: Seq<char>) -> bool {
    forall|i: int| 0 <= i < s.len() ==> has_white_space_property(#[trigger] s[i])
}

/// Consecutive clusters joined into runs that are either all white space or
/// not: a new run starts wherever whiteness changes between two clusters.
pub open spec fn whitespace_runs(gs: Seq<Seq<char>>) -> Seq<Seq<char>>
    decreases gs.len(),
{
    if gs.len() == 0 {
        Seq::empty()
    } else {
        let prev = whitespace_runs(gs.drop_last());
        let g = gs.last();
        if gs.len() >= 2 && all_white(g) == all_white(gs[gs.len() - 2]) {
            prev.update(prev.len() - 1, prev.last() + g)
        } else {
            prev.push(g)
        }
    }
}

/// The tokens of `text`: its grapheme clusters joined into alternating
/// white-space and non-white-space runs.
pub open spec fn grapheme_tokens(text: Seq<char>) -> Seq<Seq<char>> {
    whitespace_runs(extended_graphemes(text))
}

/// No token is empty and whiteness alternates from one token to the next.
pub open spec fn alternating(tokens: Seq<Seq<char>>) -> bool {
    &&& forall|j: int| 0 <= j < tokens.len() ==> (#[trigger] tokens[j]).len() > 0
    &&& forall|j: int|
        0 <= j < tokens.len() - 1 ==> all_white(#[trigger] tokens[j]) != all_white(tokens[j + 1])
}

/// Tests whether every character of `s` is white space.
pub fn is_all_white(s: &str) -> (r: bool)
    ensures
        r == all_white(s@),
{
    let n = s.unicode_len();
    let mut i: usize = 0;
    while i < n
        invariant
            n == s@.len(),
            i <= n,
            forall|j: int| 0 <= j < i ==> has_white_space_property(#[trigger] s@[j]),
        decreases n - i,
    {
        if !is_white_space(s.get_char(i)) {
            return false;
        }
        i = i + 1;
    }
    true
}

proof fn lemma_all_white_concat(a: Seq<char>, b: Seq<char>)
    ensures
        all_white(a + b) == (all_white(a) && all_white(b)),
{
    if all_white(a) && all_white(b) {
        assert forall|i: int| 0 <= i < (a + b).len() implies has_white_space_property(
            #[trigger] (a + b)[i],
        ) by {
            if i < a.len() {
                assert((a + b)[i] == a[i]);
            } else {
                assert((a + b)[i] == b[i - a.len()]);
            }
        }
    }
    if all_white(a + b) {
        assert forall|i: int| 0 <= i < a.len() implies has_white_space_property(#[trigger] a[i]) by {
            assert((a + b)[i] == a[i]);
        }
        assert forall|i: int| 0 <= i < b.len() implies has_white_space_property(#[trigger] b[i]) by {
            assert((a + b)[i + a.len()] == b[i]);
        }
    }
}

/// Splits `text` into alternating white-space and non-white-space tokens
/// along its grapheme clusters, so that emoji sequences joined by zero-width
/// joiners stay in one token.
pub fn tokenize_by_graphemes(text: &str) -> (r: Vec<String>)
    ensures
        views(r@) == grapheme_tokens(text@),
        views(r@).flatten() == text@,
        alternating(views(r@)),
{
    let gs = graphemes_of(text);
    tokens_from_clusters(&gs)
}

/// Joins consecutive clusters into tokens that are either all white space
/// or not: a new token starts wherever whiteness changes between two
/// clusters. When no cluster is empty, no token is and whiteness alternates
/// from one token to the next.
pub fn tokens_from_clusters(gs: &Vec<String>) -> (r: Vec<String>)
    ensures
        views(r@) == whitespace_runs(views(gs@)),
        views(r@).flatten() == views(gs@).flatten(),
        (forall|j: int| 0 <= j < gs@.len() ==> (#[trigger] gs@[j])@.len() > 0) ==> alternating(
            views(r@),
        ),
{
    let ghost g = views(gs@);
    let ghost ne = forall|j: int| 0 <= j < gs@.len() ==> (#[trigger] gs@[j])@.len() > 0;
    let n = gs.len();
    let mut tokens: Vec<String> = Vec::new();
    let mut current = String::new();
    let mut prev_ws = true;
    let mut i: usize = 0;
    assert(g.take(0) =~= Seq::<Seq<char>>::empty());
    while i < n
        invariant
            n == gs@.len(),
            g == views(gs@),
            ne == (forall|j: int| 0 <= j < n ==> (#[trigger] gs@[j])@.len() > 0),
            i <= n,
            i == 0 ==> tokens@.len() == 0 && current@.len() == 0,
            i > 0 ==> views(tokens@).push(current@) == whitespace_runs(g.take(i as int)),
            ne && i > 0 ==> alternating(views(tokens@).push(current@)),
            i > 0 ==> prev_ws == all_white(g[i - 1]) && all_white(current@) == prev_ws,
            i > 0 ==> views(tokens@).push(current@).flatten() == g.take(i as int).flatten(),
        decreases n - i,
    {
        let ghost take_i = g.take(i as int);
        let ghost take_next = g.take(i + 1);
        assert(take_next.drop_last() =~= take_i);
        assert(take_next.last() == g[i as int]);
        assert(g[i as int] == gs@[i as int]@);
        let is_ws = is_all_white(gs[i].as_str());
        if i > 0 && is_ws != prev_ws {
            let ghost before = views(tokens@).push(current@);
            tokens.push(current);
            current = String::new();
            current.append(gs[i].as_str());
            proof {
                assert(views(tokens@) =~= before);
                assert(views(tokens@).push(current@) =~= before.push(g[i as int]));
                assert(take_next[i as int - 1] == g[i - 1]);
                before.lemma_flatten_push(g[i as int]);
                assert(take_i.push(g[i as int]) =~= take_next);
                take_i.lemma_flatten_push(g[i as int]);
                let after = views(tokens@).push(current@);
                if ne {
                    assert forall|j: int| 0 <= j < after.len() implies (#[trigger] after[j]).len() > 0 by {
                        if j < before.len() {
                            assert(after[j] == before[j]);
                        } else {
                            assert(gs@[i as int]@.len() > 0);
                        }
                    }
                    assert forall|j: int| 0 <= j < after.len() - 1 implies all_white(#[trigger] after[j])
                        != all_white(after[j + 1]) by {
                        if j < before.len() - 1 {
                            assert(after[j] == before[j]);
                            assert(after[j + 1] == before[j + 1]);
                        } else {
                            assert(after[j] == before.last());
                        }
                    }
                }
            }
        } else {
            let ghost before_tokens = views(tokens@);
            let ghost before_current = current@;
            current.append(gs[i].as_str());
            proof {
                assert(views(tokens@) == before_tokens);
                if i > 0 {
                    assert(take_next[i as int - 1] == g[i - 1]);
                    let before = before_tokens.push(before_current);
                    assert(before[before.len() - 1] == before_current);
                    lemma_all_white_concat(before_current, g[i as int]);
                    let after = before_tokens.push(current@);
                    assert(after =~= before.update(before.len() - 1, before.last() + g[i as int]));
                    assert(take_i.push(g[i as int]) =~= take_next);
                    take_i.lemma_flatten_push(g[i as int]);
                    before_tokens.lemma_flatten_push(before_current);
                    before_tokens.lemma_flatten_push(current@);
                    if ne {
                        assert forall|j: int| 0 <= j < after.len() implies (#[trigger] after[j]).len()
                            > 0 by {
                            if j < before.len() - 1 {
                                assert(after[j] == before[j]);
                            }
                        }
                        assert forall|j: int| 0 <= j < after.len() - 1 implies all_white(
                            #[trigger] after[j],
                        ) != all_white(after[j + 1]) by {
                            assert(after[j] == before[j]);
                            if j + 1 < before.len() - 1 {
                                assert(after[j + 1] == before[j + 1]);
                            }
                        }
                    }
                } else {
                    assert(current@ =~= g[0]);
                    assert(take_next =~= seq![g[0]]);
                    assert(take_next.drop_last() =~= Seq::<Seq<char>>::empty());
                    assert(whitespace_runs(Seq::<Seq<char>>::empty()) =~= Seq::<Seq<char>>::empty());
                    assert(whitespace_runs(take_next) =~= seq![g[0]]);
                    assert(views(tokens@) =~= Seq::<Seq<char>>::empty());
                    assert(views(tokens@).push(current@) =~= seq![g[0]]);
                    seq![g[0]].lemma_flatten_one_element();
                    if ne {
                        assert(gs@[0]@.len() > 0);
                    }
                }
            }
        }
        prev_ws = is_ws;
        i = i + 1;
    }
    assert(g.take(n as int) =~= g);
    if n > 0 {
        let ghost before = views(tokens@).push(current@);
        tokens.push(current);
        assert(views(tokens@) =~= before);
    } else {
        assert(views(tokens@) =~= Seq::<Seq<char>>::empty());
        assert(g =~= Seq::<Seq<char>>::empty());
    }
    tokens
}

} // verus!
