use render::colr::{crop_to_visible, ClipState};

fn canvas(w: u32, h: u32, visible: &[(u32, u32, [u8; 4])]) -> Vec<u8> {
    let mut buf = vec![0u8; (w * h * 4) as usize];
    for &(x, y, px) in visible {
        let i = ((y * w + x) * 4) as usize;
        buf[i..i + 4].copy_from_slice(&px);
    }
    buf
}

#[test]
fn crop_cuts_the_bounding_box_of_visible_pixels() {
    let buf = canvas(5, 4, &[(1, 1, [9, 8, 7, 255]), (3, 2, [1, 2, 3, 4])]);
    let c = crop_to_visible(&buf, 5, 4).unwrap();
    assert_eq!((c.min_x, c.min_y, c.width, c.height), (1, 1, 3, 2));
    assert_eq!(c.pixels.len(), 3 * 2 * 4);
    assert_eq!(&c.pixels[0..4], &[9, 8, 7, 255]);
    assert_eq!(&c.pixels[(3 + 2) * 4..(3 + 2) * 4 + 4], &[1, 2, 3, 4]);
    assert!(c.pixels[4..20].iter().all(|&b| b == 0));
}

#[test]
fn colour_without_alpha_does_not_count() {
    let buf = canvas(3, 3, &[(0, 0, [255, 255, 255, 0]), (2, 2, [0, 0, 0, 1])]);
    let c = crop_to_visible(&buf, 3, 3).unwrap();
    assert_eq!((c.min_x, c.min_y, c.width, c.height), (2, 2, 1, 1));
    assert_eq!(c.pixels, vec![0, 0, 0, 1]);
}

#[test]
fn a_fully_transparent_canvas_has_nothing_to_crop() {
    let buf = canvas(4, 4, &[(1, 1, [200, 0, 0, 0])]);
    assert!(crop_to_visible(&buf, 4, 4).is_none());
    assert!(crop_to_visible(&Vec::new(), 0, 0).is_none());
}

#[test]
fn popping_a_clip_restores_the_previous_one() {
    let mut clip: ClipState<[i32; 4]> = ClipState::new();
    clip.push_clip_box([0, 0, 10, 10]);
    clip.push_clip_glyph(7);
    assert_eq!(clip.glyph, Some(7));
    assert_eq!(clip.clip_box, None);
    clip.pop_clip();
    assert_eq!(clip.glyph, None);
    assert_eq!(clip.clip_box, Some([0, 0, 10, 10]));
    clip.pop_clip();
    assert_eq!(clip.clip_box, None);
    assert!(clip.stack.is_empty());
    // popping with nothing saved removes every clip
    clip.push_clip_glyph(3);
    clip.pop_clip();
    clip.glyph = Some(5);
    clip.pop_clip();
    assert_eq!((clip.glyph, clip.clip_box), (None, None));
}

#[test]
fn glyph_ids_are_taken_modulo_two_to_the_sixteen() {
    let mut clip: ClipState<[i32; 4]> = ClipState::new();
    clip.push_clip_glyph(0x1_0005);
    assert_eq!(clip.glyph, Some(5));
}

#[test]
fn a_fill_without_a_box_uses_the_latest_saved_box() {
    let mut clip: ClipState<[i32; 4]> = ClipState::new();
    assert_eq!(clip.fallback_clip_box(), None);
    clip.push_clip_box([1, 1, 2, 2]);
    clip.push_clip_box([3, 3, 4, 4]);
    clip.push_clip_glyph(9);
    assert_eq!(clip.fallback_clip_box(), Some([3, 3, 4, 4]));
    clip.push_clip_glyph(10);
    assert_eq!(clip.fallback_clip_box(), Some([3, 3, 4, 4]));
    clip.pop_clip();
    clip.pop_clip();
    assert_eq!(clip.fallback_clip_box(), Some([3, 3, 4, 4]));
}
