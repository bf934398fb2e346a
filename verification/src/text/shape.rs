//! Shaping text with `harfrust`: the glyphs of a token, run by run, each
//! run in the font chosen for its clusters.
use vstd::prelude::*;

use super::fonts::{guessed_segment_properties, FontFace, FontGroupRanges};
use super::runs::{font_runs, token_runs};

verus! {

/// What `harfrust` shapes `text` into with the face `face_index` of the
/// font file `data`, in the script and direction it guesses for the text:
/// the face's units per em and, per glyph, `(glyph id, cluster, x advance,
/// x offset, y offset)` in font units; `None` when the face cannot be read
/// or shaping fails.
pub uninterp spec fn harfrust_glyphs(data: Seq<u8>, face_index: u32, text: Seq<char>) -> Option<
    (u16, Seq<(u32, u32, i32, i32, i32)>),
>;

/// `harfrust::Font::new(face.data, face.face_index)`, then a buffer holding
/// `text` whose script and direction are guessed
/// (`Buffer::guess_segment_properties`, the guess `detect_script_and_dir`
/// reports), then `harfrust::shape` with a `ShaperFont` of the font and
/// default shape options, copying out `(glyph_id, cluster, x_advance,
/// x_offset, y_offset)` for each glyph and the font's units per em.
///
/// Trusted: the result is `harfrust_glyphs` of the face's bytes, its index
/// and the text.
#[verifier::external_body]
pub fn shape_with_face(face: &FontFace, text: &str) -> (r: Option<(u16, Vec<(u32, u32, i32, i32, i32)>)>)
    ensures
        match r {
            Some(p) => harfrust_glyphs(face.data@, face.face_index, text@) == Some((p.0, p.1@)),
            None => harfrust_glyphs(face.data@, face.face_index, text@) is None,
        },
{
    let font = harfrust::Font::new(face.data.clone(), face.face_index)?;
    let shaper = harfrust::ShaperFont::new(&font);
    let mut buffer = harfrust::Buffer::new();
    buffer.push_str(text);
    buffer.guess_segment_properties();
    harfrust::shape(&shaper, &mut buffer, harfrust::ShapeOptions::new()).ok()?;
    let pairs = buffer.glyph_infos().iter().zip(buffer.glyph_positions());
    Some((font.units_per_em(), pairs.map(|(i, p)| (i.glyph_id, i.cluster, p.x_advance, p.x_offset, p.y_offset)).collect()))
}

/// A shaped glyph of a token: its id in the font `font_index`, that font's
/// units per em, and its offsets in font units.
#[derive(Debug, Clone, Copy, PartialEq, Eq, Structural)]
pub struct RunGlyph {
    pub glyph_id: u32,
    pub font_index: u16,
    pub units_per_em: u16,
    pub x_offset: i32,
    pub y_offset: i32,
}

/// A glyph that `harfrust` returned for a run in font `font_index`.
pub open spec fn tag_glyph(g: (u32, u32, i32, i32, i32), font_index: u16, units_per_em: u16) -> RunGlyph {
    RunGlyph { glyph_id: g.0, font_index, units_per_em, x_offset: g.3, y_offset: g.4 }
}

/// The glyphs of one run, shaped with its font in the script and direction
/// guessed for its text (those of the run); none when shaping fails or
/// there is no such font.
pub open spec fn run_glyphs(run: (Seq<char>, u16), faces: Seq<FontFace>) -> Seq<RunGlyph> {
    if (run.1 as int) < faces.len() {
        let face = faces[run.1 as int];
        match harfrust_glyphs(face.data@, face.face_index, run.0) {
            Some((upem, gs)) => gs.map_values(|g: (u32, u32, i32, i32, i32)| tag_glyph(g, run.1, upem)),
            None => Seq::empty(),
        }
    } else {
        Seq::empty()
    }
}

/// The glyphs of a token: the glyphs of its font runs, one run after the
/// other.
pub open spec fn token_glyphs(token: Seq<char>, faces: Seq<FontFace>, groups: FontGroupRanges) -> Seq<RunGlyph> {
    token_runs(token, faces, groups).map_values(|run: (Seq<char>, u16)| run_glyphs(run, faces)).flatten()
}

/// Each glyph of a run is the glyph `harfrust` shaped at the same place,
/// with its id and its offsets as `harfrust` gave them (whatever its
/// advance), tagged with the run's font and that font's units per em; a
/// run whose font is missing or fails to shape gives no glyph.
pub proof fn lemma_run_glyphs_keep_shaped_glyphs(run: (Seq<char>, u16), faces: Seq<FontFace>)
    ensures
        (run.1 as int) < faces.len() ==> match harfrust_glyphs(
            faces[run.1 as int].data@,
            faces[run.1 as int].face_index,
            run.0,
        ) {
            Some((upem, gs)) => {
                &&& run_glyphs(run, faces).len() == gs.len()
                &&& forall|j: int|
                    0 <= j < gs.len() ==> {
                        &&& (#[trigger] run_glyphs(run, faces)[j]).glyph_id == gs[j].0
                        &&& run_glyphs(run, faces)[j].x_offset == gs[j].3
                        &&& run_glyphs(run, faces)[j].y_offset == gs[j].4
                        &&& run_glyphs(run, faces)[j].font_index == run.1
                        &&& run_glyphs(run, faces)[j].units_per_em == upem
                    }
            },
            None => run_glyphs(run, faces).len() == 0,
        },
        (run.1 as int) >= faces.len() ==> run_glyphs(run, faces).len() == 0,
{
}

/// The glyphs of a token are the glyphs of its font runs, one run after the
/// other: those of run `k` follow those of the runs before it and precede
/// those of the runs after it.
pub proof fn lemma_token_glyphs_join_runs(token: Seq<char>, faces: Seq<FontFace>, groups: FontGroupRanges, k: int)
    requires
        0 <= k < token_runs(token, faces, groups).len(),
    ensures
        ({
            let per = token_runs(token, faces, groups).map_values(
                |run: (Seq<char>, u16)| run_glyphs(run, faces),
            );
            token_glyphs(token, faces, groups) == per.take(k).flatten() + run_glyphs(
                token_runs(token, faces, groups)[k],
                faces,
            ) + per.skip(k + 1).flatten()
        }),
{
    let runs = token_runs(token, faces, groups);
    let per = runs.map_values(|run: (Seq<char>, u16)| run_glyphs(run, faces));
    assert(per =~= per.take(k) + (seq![per[k]] + per.skip(k + 1)));
    vstd::seq_lib::lemma_flatten_concat(per.take(k), seq![per[k]] + per.skip(k + 1));
    vstd::seq_lib::lemma_flatten_concat(seq![per[k]], per.skip(k + 1));
    seq![per[k]].lemma_flatten_singleton();
    assert(token_glyphs(token, faces, groups) =~= per.take(k).flatten() + run_glyphs(runs[k], faces)
        + per.skip(k + 1).flatten());
}

/// Shapes a token with per-cluster font fallback: the token is split into
/// font runs, each run is shaped with its font (so kerning and ligatures
/// apply within a run), and the glyphs of the runs are joined, each tagged
/// with the font that produced it.
pub fn shape_token_glyphs(token: &str, faces: &Vec<FontFace>, groups: &FontGroupRanges) -> (r: Vec<RunGlyph>)
    ensures
        r@ == token_glyphs(token@, faces@, *groups),
{
    let runs = font_runs(token, faces, groups);
    let ghost truns = token_runs(token@, faces@, *groups);
    let ghost per_run = truns.map_values(|run: (Seq<char>, u16)| run_glyphs(run, faces@));
    let mut out: Vec<RunGlyph> = Vec::new();
    let mut k: usize = 0;
    assert(per_run.take(0) =~= Seq::<Seq<RunGlyph>>::empty());
    while k < runs.len()
        invariant
            runs@.len() == truns.len(),
            per_run.len() == truns.len(),
            per_run == truns.map_values(|run: (Seq<char>, u16)| run_glyphs(run, faces@)),
            forall|i: int|
                0 <= i < runs@.len() ==> {
                    let run = truns[i];
                    &&& (#[trigger] runs@[i]).text@ == run.0
                    &&& runs@[i].font_index == run.1
                    &&& (runs@[i].script, runs@[i].direction) == guessed_segment_properties(run.0)
                },
            k <= runs@.len(),
            out@ == per_run.take(k as int).flatten(),
        decreases runs@.len() - k,
    {
        let ghost before = out@;
        let ghost run = truns[k as int];
        let fi = runs[k].font_index;
        let idx = fi as usize;
        if idx < faces.len() {
            match shape_with_face(&faces[idx], runs[k].text.as_str()) {
                Some((upem, gs)) => {
                    let mut j: usize = 0;
                    while j < gs.len()
                        invariant
                            j <= gs@.len(),
                            out@ == before + gs@.take(j as int).map_values(
                                |g: (u32, u32, i32, i32, i32)| tag_glyph(g, run.1, upem),
                            ),
                            run.1 == fi,
                        decreases gs@.len() - j,
                    {
                        let g = gs[j];
                        out.push(
                            RunGlyph {
                                glyph_id: g.0,
                                font_index: fi,
                                units_per_em: upem,
                                x_offset: g.3,
                                y_offset: g.4,
                            },
                        );
                        assert(gs@.take(j + 1) =~= gs@.take(j as int).push(g));
                        j = j + 1;
                    }
                    assert(gs@.take(j as int) =~= gs@);
                },
                None => {
                    assert(out@ =~= before + Seq::<RunGlyph>::empty());
                },
            }
        } else {
            assert(out@ =~= before + Seq::<RunGlyph>::empty());
        }
        proof {
            assert(per_run[k as int] == run_glyphs(run, faces@));
            assert(per_run.take(k + 1) =~= per_run.take(k as int).push(per_run[k as int]));
            per_run.take(k as int).lemma_flatten_push(per_run[k as int]);
        }
        k = k + 1;
    }
    assert(per_run.take(runs@.len() as int) =~= per_run);
    out
}

} // verus!
