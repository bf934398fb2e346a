use vstd::prelude::*;
use vstd::string::StringExecFns;

use super::fonts::{
    best_font_index, detect_script_and_dir, find_best_font_for_text, guessed_segment_properties,
    FontFace, FontGroupRanges, TextDirection,
};
use super::segment::{extended_graphemes, graphemes_of, views};

verus! {

/// A piece of a token shaped with one font.
pub struct FontRun {
    pub text: String,
    /// Index of the font in the fallback list.
    pub font_index: u16,
    /// ISO 15924 tag of the run's script, if it has one.
    pub script: Option<u32>,
    pub direction: TextDirection,
}

/// The font (truncated to `u16`) chosen for one grapheme cluster.
pub open spec fn cluster_font(cluster: Seq<char>, fonts: Seq<FontFace>, groups: FontGroupRanges) -> u16 {
    best_font_index(cluster, fonts, guessed_segment_properties(cluster).0, groups) as u16
}

/// Consecutive clusters with the same font joined into one run.
pub open spec fn merge_runs(clusters: Seq<Seq<char>>, ids: Seq<u16>) -> Seq<(Seq<char>, u16)>
    decreases clusters.len(),
{
    if clusters.len() == 0 {
        Seq::empty()
    } else {
        let n = clusters.len() - 1;
        let prev = merge_runs(clusters.drop_last(), ids);
        let c = clusters.last();
        let id = ids[n];
        if prev.len() > 0 && prev.last().1 == id {
            prev.update(prev.len() - 1, (prev.last().0 + c, id))
        } else {
            prev.push((c, id))
        }
    }
}

/// The runs of a token: its grapheme clusters joined by font.
pub open spec fn token_runs(token: Seq<char>, fonts: Seq<FontFace>, groups: FontGroupRanges) -> Seq<(Seq<char>, u16)> {
    let cs = extended_graphemes(token);
    merge_runs(cs, Seq::new(cs.len(), |i: int| cluster_font(cs[i], fonts, groups)))
}

/// The texts of a list of runs.
pub open spec fn run_texts(runs: Seq<(Seq<char>, u16)>) -> Seq<Seq<char>> {
    runs.map_values(|r: (Seq<char>, u16)| r.0)
}

/// Joins consecutive clusters that share a font id into runs: `ids[i]` is
/// the font of `clusters[i]`. Neighbouring runs have different fonts, and
/// the runs' texts together are the clusters.
pub fn merge_font_runs(clusters: &Vec<String>, ids: &Vec<u16>) -> (r: Vec<(String, u16)>)
    requires
        ids@.len() == clusters@.len(),
    ensures
        r@.len() == merge_runs(views(clusters@), ids@).len(),
        forall|j: int|
            0 <= j < r@.len() ==> (#[trigger] r@[j]).0@ == merge_runs(views(clusters@), ids@)[j].0
                && r@[j].1 == merge_runs(views(clusters@), ids@)[j].1,
        run_texts(merge_runs(views(clusters@), ids@)).flatten() == views(clusters@).flatten(),
        forall|j: int| 0 <= j < r@.len() - 1 ==> (#[trigger] r@[j]).1 != r@[j + 1].1,
{
    let ghost cs = views(clusters@);
    let ghost fid = ids@;
    let n = clusters.len();
    let mut runs: Vec<(String, u16)> = Vec::new();
    let mut i: usize = 0;
    while i < n
        invariant
            n == clusters@.len(),
            cs == views(clusters@),
            cs.len() == n,
            fid.len() == n,
            fid == ids@,
            i <= n,
            runs@.len() == merge_runs(cs.take(i as int), fid).len(),
            forall|j: int|
                0 <= j < runs@.len() ==> (#[trigger] runs@[j]).0@ == merge_runs(cs.take(i as int), fid)[j].0
                    && runs@[j].1 == merge_runs(cs.take(i as int), fid)[j].1,
            run_texts(merge_runs(cs.take(i as int), fid)).flatten() == cs.take(i as int).flatten(),
            forall|j: int|
                0 <= j < runs@.len() - 1 ==> (#[trigger] runs@[j]).1 != runs@[j + 1].1,
        decreases n - i,
    {
        let ghost take_i = cs.take(i as int);
        let ghost take_next = cs.take(i + 1);
        let ghost prev = merge_runs(take_i, fid);
        assert(take_next.drop_last() =~= take_i);
        assert(take_next.last() == cs[i as int]);
        assert(cs[i as int] == clusters@[i as int]@);
        let font_idx = ids[i];
        let len = runs.len();
        proof {
            take_i.lemma_flatten_push(cs[i as int]);
            assert(take_i.push(cs[i as int]) =~= take_next);
        }
        if len > 0 && runs[len - 1].1 == font_idx {
            let ghost before = runs@;
            let (mut text, id) = runs.pop().unwrap();
            text.append(clusters[i].as_str());
            runs.push((text, id));
            proof {
                let next = merge_runs(take_next, fid);
                assert(next == prev.update(prev.len() - 1, (prev.last().0 + cs[i as int], font_idx)));
                assert forall|j: int| 0 <= j < runs@.len() implies (#[trigger] runs@[j]).0@ == next[j].0
                    && runs@[j].1 == next[j].1 by {
                    if j < len - 1 {
                        assert(runs@[j] == before[j]);
                    }
                }
                assert forall|j: int| 0 <= j < runs@.len() - 1 implies (#[trigger] runs@[j]).1
                    != runs@[j + 1].1 by {
                    assert(runs@[j] == before[j]);
                    if j + 1 < len - 1 {
                        assert(runs@[j + 1] == before[j + 1]);
                    }
                }
                let pt = run_texts(prev);
                let nt = run_texts(next);
                assert(pt.drop_last() =~= nt.drop_last());
                assert(pt =~= pt.drop_last().push(pt.last()));
                assert(nt =~= nt.drop_last().push(nt.last()));
                pt.drop_last().lemma_flatten_push(pt.last());
                nt.drop_last().lemma_flatten_push(nt.last());
            }
        } else {
            let ghost before = runs@;
            let mut text = String::new();
            text.append(clusters[i].as_str());
            runs.push((text, font_idx));
            proof {
                let next = merge_runs(take_next, fid);
                assert(next == prev.push((cs[i as int], font_idx)));
                assert forall|j: int| 0 <= j < runs@.len() implies (#[trigger] runs@[j]).0@ == next[j].0
                    && runs@[j].1 == next[j].1 by {
                    if j < len {
                        assert(runs@[j] == before[j]);
                    }
                }
                assert forall|j: int| 0 <= j < runs@.len() - 1 implies (#[trigger] runs@[j]).1
                    != runs@[j + 1].1 by {
                    assert(runs@[j] == before[j]);
                    if j + 1 < len {
                        assert(runs@[j + 1] == before[j + 1]);
                    }
                }
                assert(run_texts(next) =~= run_texts(prev).push(cs[i as int]));
                run_texts(prev).lemma_flatten_push(cs[i as int]);
            }
        }
        i = i + 1;
    }
    assert(cs.take(n as int) =~= cs);
    runs
}

/// Splits a token into runs shaped with one font each: every grapheme
/// cluster is given a font by `find_best_font_for_text`, consecutive
/// clusters with the same font are joined, and each run gets the script
/// and direction guessed for its text.
pub fn font_runs(token: &str, fonts: &Vec<FontFace>, groups: &FontGroupRanges) -> (r: Vec<FontRun>)
    ensures
        r@.len() == token_runs(token@, fonts@, *groups).len(),
        forall|i: int|
            0 <= i < r@.len() ==> {
                let run = token_runs(token@, fonts@, *groups)[i];
                &&& (#[trigger] r@[i]).text@ == run.0
                &&& r@[i].font_index == run.1
                &&& (r@[i].script, r@[i].direction) == guessed_segment_properties(run.0)
            },
        run_texts(token_runs(token@, fonts@, *groups)).flatten() == token@,
        forall|i: int|
            0 <= i < r@.len() - 1 ==> (#[trigger] r@[i]).font_index != r@[i + 1].font_index,
{
    let clusters = graphemes_of(token);
    let ghost cs = views(clusters@);
    let n = clusters.len();
    let mut ids: Vec<u16> = Vec::new();
    let mut i: usize = 0;
    while i < n
        invariant
            n == clusters@.len(),
            cs == views(clusters@),
            i <= n,
            ids@.len() == i,
            forall|j: int| 0 <= j < i ==> #[trigger] ids@[j] == cluster_font(cs[j], fonts@, *groups),
        decreases n - i,
    {
        assert(cs[i as int] == clusters@[i as int]@);
        let (script, _) = detect_script_and_dir(clusters[i].as_str());
        ids.push(find_best_font_for_text(clusters[i].as_str(), fonts, script, groups) as u16);
        i = i + 1;
    }
    assert(ids@ =~= Seq::new(cs.len(), |i: int| cluster_font(cs[i], fonts@, *groups)));
    let runs = merge_font_runs(&clusters, &ids);
    let ghost merged = merge_runs(cs, ids@);
    let m = runs.len();
    let mut out: Vec<FontRun> = Vec::new();
    let mut k: usize = 0;
    while k < m
        invariant
            m == runs@.len(),
            m == merged.len(),
            forall|j: int| 0 <= j < m ==> (#[trigger] runs@[j]).0@ == merged[j].0 && runs@[j].1 == merged[j].1,
            forall|j: int| 0 <= j < m - 1 ==> (#[trigger] runs@[j]).1 != runs@[j + 1].1,
            k <= m,
            out@.len() == k,
            forall|j: int|
                0 <= j < k ==> {
                    &&& (#[trigger] out@[j]).text@ == merged[j].0
                    &&& out@[j].font_index == merged[j].1
                    &&& (out@[j].script, out@[j].direction) == guessed_segment_properties(merged[j].0)
                },
        decreases m - k,
    {
        let (script, direction) = detect_script_and_dir(runs[k].0.as_str());
        let text = runs[k].0.clone();
        out.push(FontRun { text, font_index: runs[k].1, script, direction });
        k = k + 1;
    }
    assert forall|j: int| 0 <= j < out@.len() - 1 implies (#[trigger] out@[j]).font_index != out@[j + 1].font_index by {
        assert(runs@[j].1 != runs@[j + 1].1);
    }
    out
}

} // verus!
