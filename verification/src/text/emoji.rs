use vstd::prelude::*;
use vstd::string::StrSliceExecFns;

verus! {

/// Whether `emojis::get` finds the string in its emoji table.
pub uninterp spec fn listed_emoji(s: Seq<char>) -> bool;

/// `emojis::get(s).is_some()`.
///
/// Trusted: the result is `listed_emoji(s)`, a lookup of the whole string
/// in the crate's fixed emoji table.
#[verifier::external_body]
fn emoji_table_contains(s: &str) -> (r: bool)
    ensures
        r == listed_emoji(s@),
{
    emojis::get(s).is_some()
}

/// `char::to_string`.
///
/// Trusted: the result is the one-character string holding `c`.
#[verifier::external_body]
fn char_to_string(c: char) -> (r: String)
    ensures
        r@ == seq![c],
{
    c.to_string()
}

/// A token is emoji when the whole token is a listed emoji sequence (flags,
/// joined sequences, keycaps, …) or any one of its characters is a listed
/// emoji.
pub open spec fn is_emoji_text(token: Seq<char>) -> bool {
    listed_emoji(token) || exists|i: int| 0 <= i < token.len() && listed_emoji(seq![#[trigger] token[i]])
}

/// A token holding a listed emoji character anywhere in it, first, last or
/// between other characters, is emoji; so is a token that is a listed emoji
/// sequence as a whole. A token that is not a listed sequence, whose
/// character is not listed and whose parts before and after it hold no
/// emoji, holds none.
pub proof fn lemma_emoji_anywhere_makes_emoji(before: Seq<char>, c: char, after: Seq<char>)
    ensures
        listed_emoji(seq![c]) ==> is_emoji_text(before + seq![c] + after),
        listed_emoji(before + seq![c] + after) ==> is_emoji_text(before + seq![c] + after),
        !listed_emoji(before + seq![c] + after) && !listed_emoji(seq![c]) && !is_emoji_text(before)
            && !is_emoji_text(after) ==> !is_emoji_text(before + seq![c] + after),
{
    let t = before + seq![c] + after;
    let k = before.len() as int;
    assert(t[k] == c);
    assert(seq![t[k]] =~= seq![c]);
    if !listed_emoji(t) && !listed_emoji(seq![c]) && !is_emoji_text(before) && !is_emoji_text(after) {
        assert forall|i: int| 0 <= i < t.len() implies !listed_emoji(seq![#[trigger] t[i]]) by {
            if i < k {
                assert(t[i] == before[i]);
            } else if i > k {
                assert(t[i] == after[i - k - 1]);
            }
        }
    }
}

/// Does this token contain emoji that should be rendered with a colour font?
pub fn is_emoji_token(token: &str) -> (r: bool)
    ensures
        r == is_emoji_text(token@),
{
    if emoji_table_contains(token) {
        return true;
    }
    let n = token.unicode_len();
    let mut i: usize = 0;
    while i < n
        invariant
            n == token@.len(),
            i <= n,
            forall|j: int| 0 <= j < i ==> !listed_emoji(seq![#[trigger] token@[j]]),
        decreases n - i,
    {
        let c = token.get_char(i);
        let one = char_to_string(c);
        if emoji_table_contains(one.as_str()) {
            return true;
        }
        i = i + 1;
    }
    false
}

} // verus!
