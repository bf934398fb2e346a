use render::text::shape::{shape_token_glyphs, shape_with_face};
use render::text::segment::tokens_from_clusters;
use render::text::bidi::token_levels_of;
use render::text::runs::merge_font_runs;
use render::text::bidi::order_tokens_visually;
use render::text::emoji::is_emoji_token;
use render::text::fonts::{
    find_best_font_for_text, find_font_for_char,
    font_groups_from_boundaries, FontFace, FontGroupRanges, IndexRange, TextDirection,
    SCRIPT_ARABIC, SCRIPT_HAN, SCRIPT_HANGUL, SCRIPT_HEBREW, SCRIPT_HIRAGANA, SCRIPT_KATAKANA,
};
use render::text::runs::font_runs;
use render::text::segment::{is_all_white, is_white_space, tokenize_by_graphemes};

#[test]
fn grapheme_clustering_zwj_emoji() {
    let tokens = tokenize_by_graphemes("👨‍👩‍👧‍👦");
    assert_eq!(
        tokens.len(),
        1,
        "expected 1 token, got {}: {:?}",
        tokens.len(),
        tokens
    );
}

#[test]
fn grapheme_clustering_word_and_space() {
    let tokens = tokenize_by_graphemes("Hello World");
    assert_eq!(
        tokens.len(),
        3,
        "expected [Hello, ' ', World], got {}: {:?}",
        tokens.len(),
        tokens
    );
    assert_eq!(tokens[0], "Hello");
    assert_eq!(tokens[1], " ");
    assert_eq!(tokens[2], "World");
}

#[test]
fn tokens_alternate_and_rebuild_the_text() {
    let text = "  two  words\tand\u{3000}more ";
    let tokens = tokenize_by_graphemes(text);
    assert_eq!(tokens, vec!["  ", "two", "  ", "words", "\t", "and", "\u{3000}", "more", " "]);
    assert_eq!(tokens.concat(), text);
}

#[test]
fn tokenize_empty_text_gives_no_tokens() {
    assert!(tokenize_by_graphemes("").is_empty());
}

#[test]
fn tokenize_keeps_combining_marks_with_their_base() {
    // "e" + combining acute accent is one cluster; a space after it splits.
    let tokens = tokenize_by_graphemes("e\u{301} x");
    assert_eq!(tokens, vec!["e\u{301}", " ", "x"]);
}

#[test]
fn white_space_follows_unicode() {
    assert!(is_all_white(" "));
    assert!(is_all_white("\u{3000}"));
    assert!(is_all_white("\n"));
    assert!(!is_all_white("a"));
    assert!(!is_all_white("\u{200D}"));
    assert!(is_all_white(" \t "));
    assert!(is_all_white(""));
    assert!(!is_all_white(" a "));
}

#[test]
fn emoji_tokens_are_recognised() {
    assert!(is_emoji_token("🚀"));
    assert!(is_emoji_token("👨‍👩‍👧‍👦"));
    assert!(is_emoji_token("go🚀"));
    assert!(!is_emoji_token("hello"));
    assert!(!is_emoji_token(""));
}

#[test]
fn script_tags_match_harfrust() {
    let tag = |s: harfrust::Script| u32::from_be_bytes(s.tag().to_be_bytes());
    assert_eq!(SCRIPT_ARABIC, tag(harfrust::Script::ARABIC));
    assert_eq!(SCRIPT_HEBREW, tag(harfrust::Script::HEBREW));
    assert_eq!(SCRIPT_HAN, tag(harfrust::Script::HAN));
    assert_eq!(SCRIPT_HIRAGANA, tag(harfrust::Script::HIRAGANA));
    assert_eq!(SCRIPT_KATAKANA, tag(harfrust::Script::KATAKANA));
    assert_eq!(SCRIPT_HANGUL, tag(harfrust::Script::HANGUL));
}

/// The script and direction of a text that forms one font run.
fn guessed(text: &str) -> (Option<u32>, TextDirection) {
    let runs = font_runs(text, &vec![], &no_groups());
    assert_eq!(runs.len(), 1);
    assert_eq!(runs[0].text, text);
    (runs[0].script, runs[0].direction)
}

#[test]
fn scripts_and_directions_are_guessed() {
    assert_eq!(guessed("مرحبا"), (Some(SCRIPT_ARABIC), TextDirection::RightToLeft));
    assert_eq!(guessed("שלום"), (Some(SCRIPT_HEBREW), TextDirection::RightToLeft));
    assert_eq!(guessed("漢字"), (Some(SCRIPT_HAN), TextDirection::LeftToRight));
    // Digits and spaces have no script of their own.
    assert_eq!(guessed("12 34"), (None, TextDirection::LeftToRight));
}

#[test]
fn font_groups_follow_the_boundaries() {
    let groups = font_groups_from_boundaries(&vec![2, 5, 6, 9]);
    assert_eq!(groups.latin, IndexRange { start: 0, end: 2 });
    assert_eq!(groups.cjk, IndexRange { start: 2, end: 5 });
    assert_eq!(groups.arabic, IndexRange { start: 5, end: 6 });
    assert_eq!(groups.emoji, IndexRange { start: 6, end: 9 });
    let partial = font_groups_from_boundaries(&vec![3]);
    assert_eq!(partial.cjk, IndexRange { start: 3, end: 0 });
    assert_eq!(partial.emoji, IndexRange { start: 0, end: 0 });
}

fn no_groups() -> FontGroupRanges {
    font_groups_from_boundaries(&Vec::new())
}

/// A face whose bytes are no font at all: it has no glyph for anything.
fn broken_face() -> FontFace {
    FontFace { data: vec![0, 1, 2, 3], face_index: 0 }
}

#[test]
fn without_usable_fonts_the_first_font_is_chosen() {
    let fonts = vec![broken_face(), broken_face()];
    assert_eq!(find_font_for_char('a', &fonts), 0);
    assert_eq!(find_font_for_char('a', &Vec::new()), 0);
    // No font covers the text and all cover nothing: the last best one wins.
    assert_eq!(find_best_font_for_text("ab", &fonts, None, &no_groups()), 1);
    // White space needs no glyph, so every font covers it: the first one.
    assert_eq!(find_best_font_for_text("  ", &fonts, None, &no_groups()), 0);
    assert_eq!(find_best_font_for_text("ab", &Vec::new(), None, &no_groups()), 0);
}

fn system_face(family: &str) -> Option<FontFace> {
    let mut db = fontdb::Database::new();
    db.load_system_fonts();
    let query = fontdb::Query { families: &[fontdb::Family::Name(family)], ..Default::default() };
    let id = db.query(&query)?;
    db.with_face_data(id, |data, index| FontFace { data: data.to_vec(), face_index: index })
}

#[test]
fn real_fonts_are_chosen_by_coverage() {
    let Some(face) = system_face("DejaVu Sans") else {
        println!("No system fonts, skipping");
        return;
    };
    let fonts = vec![broken_face(), face];
    // The broken face has no glyph for 'A'; the real one has.
    assert_eq!(find_font_for_char('A', &fonts), 1);
    let groups = FontGroupRanges {
        latin: IndexRange { start: 0, end: 2 },
        cjk: IndexRange { start: 0, end: 0 },
        arabic: IndexRange { start: 0, end: 0 },
        emoji: IndexRange { start: 0, end: 0 },
    };
    assert_eq!(find_best_font_for_text("Hello", &fonts, None, &groups), 1);
    // White space needs no glyph, so the first font of the group covers the
    // space between the words and splits the runs.
    let runs = font_runs("Hi there", &fonts, &groups);
    let got: Vec<(&str, u16)> = runs.iter().map(|r| (r.text.as_str(), r.font_index)).collect();
    assert_eq!(got, vec![("Hi", 1), (" ", 0), ("there", 1)]);
}

#[test]
fn runs_join_clusters_with_the_same_font() {
    let fonts = vec![broken_face()];
    let runs = font_runs("ab c", &fonts, &no_groups());
    assert_eq!(runs.len(), 1);
    assert_eq!(runs[0].text, "ab c");
    assert_eq!(runs[0].font_index, 0);
    assert_eq!(runs[0].direction, TextDirection::LeftToRight);
    assert!(font_runs("", &fonts, &no_groups()).is_empty());
}

#[test]
fn left_to_right_tokens_keep_their_order() {
    let text = "one two";
    let tokens = tokenize_by_graphemes(text);
    assert_eq!(order_tokens_visually(text, &tokens), vec![0, 1, 2]);
}

#[test]
fn right_to_left_tokens_are_reversed() {
    let text = "שלום עולם";
    let tokens = tokenize_by_graphemes(text);
    assert_eq!(tokens.len(), 3);
    assert_eq!(order_tokens_visually(text, &tokens), vec![2, 1, 0]);
}

#[test]
fn mixed_direction_tokens_reverse_only_the_embedded_run() {
    let text = "ab שלום עולם cd";
    let tokens = tokenize_by_graphemes(text);
    assert_eq!(tokens.len(), 7);
    assert_eq!(order_tokens_visually(text, &tokens), vec![0, 1, 4, 3, 2, 5, 6]);
}

#[test]
fn every_token_is_shown_exactly_once() {
    let text = "x مرحبا بالعالم 12 و 34 end\nשלום";
    let tokens = tokenize_by_graphemes(text);
    let mut order = order_tokens_visually(text, &tokens);
    assert_eq!(order.len(), tokens.len());
    order.sort();
    assert_eq!(order, (0..tokens.len()).collect::<Vec<_>>());
}

#[test]
fn clusters_are_joined_into_tokens() {
    let clusters: Vec<String> = ["a", "b", " ", "\t", "c", "👨‍👩‍👧"].iter().map(|s| s.to_string()).collect();
    assert_eq!(tokens_from_clusters(&clusters), vec!["ab", " \t", "c👨‍👩‍👧"]);
    assert!(tokens_from_clusters(&vec![]).is_empty());
    assert_eq!(tokens_from_clusters(&vec![" ".to_string()]), vec![" "]);
}

#[test]
fn token_levels_take_the_highest_level_of_their_characters() {
    let tokens: Vec<String> = ["ab", " ", "é"].iter().map(|s| s.to_string()).collect();
    // bytes: a b ' ' é(2 bytes)
    assert_eq!(token_levels_of(0, &vec![0, 2, 1, 1, 3], &tokens), vec![2, 1, 1]);
    // the paragraph level is the least a token gets; missing levels count as nothing
    assert_eq!(token_levels_of(1, &vec![0], &tokens), vec![1, 1, 1]);
}

#[test]
fn clusters_with_the_same_font_form_one_run() {
    let clusters: Vec<String> = ["a", "b", "😀", "c", "d"].iter().map(|s| s.to_string()).collect();
    let runs = merge_font_runs(&clusters, &vec![0, 0, 3, 0, 0]);
    assert_eq!(runs, vec![("ab".to_string(), 0), ("😀".to_string(), 3), ("cd".to_string(), 0)]);
    assert!(merge_font_runs(&vec![], &vec![]).is_empty());
}

#[test]
fn unreadable_faces_shape_nothing() {
    assert_eq!(shape_with_face(&broken_face(), "ab"), None);
    assert!(shape_token_glyphs("ab", &vec![broken_face()], &no_groups()).is_empty());
    assert!(shape_token_glyphs("ab", &vec![], &no_groups()).is_empty());
}

#[test]
fn tokens_are_shaped_run_by_run() {
    let Some(face) = system_face("DejaVu Sans") else {
        println!("No system fonts, skipping");
        return;
    };
    let (upem, glyphs) = shape_with_face(&face, "Hello").unwrap();
    assert!(upem > 0);
    assert_eq!(glyphs.len(), 5);
    assert!(glyphs.iter().all(|g| g.0 != 0 && g.2 > 0));
    // clusters count the text's bytes
    assert_eq!(glyphs.iter().map(|g| g.1).collect::<Vec<_>>(), vec![0, 1, 2, 3, 4]);
    let faces = vec![broken_face(), face];
    let shaped = shape_token_glyphs("Hello", &faces, &no_groups());
    assert_eq!(shaped.len(), 5);
    assert!(shaped.iter().all(|g| g.font_index == 1 && g.units_per_em == upem));
    assert_eq!(shaped.iter().map(|g| g.glyph_id).collect::<Vec<_>>(), glyphs.iter().map(|g| g.0).collect::<Vec<_>>());
}

#[test]
fn white_space_matches_the_standard_library_for_every_character() {
    for v in 0..=0x10FFFFu32 {
        if let Some(c) = char::from_u32(v) {
            assert_eq!(is_white_space(c), c.is_whitespace(), "U+{:04X}", v);
        }
    }
}
