use render::colr::bgra_to_rgba;
use render::colr::palette_from_records;
use render::colr::{palette_colour, read_cpal};
use render::layout::{
    absolute_layout, row_check, row_fits, row_remainder_total, LayoutError, LayoutType, Layouted,
    RowDirection,
};
use render::text::bidi::char_utf8_len;

fn child(ty: LayoutType) -> Layouted<u8> {
    Layouted::new(0, ty)
}

#[test]
fn children_beyond_the_pixel_range_are_refused() {
    let mut children = vec![child(LayoutType::AbsolutePxPxGrowGrow(10, 10))];
    assert_eq!(absolute_layout((0, 0, 100, 100), &mut children, &vec![None]), Ok(()));
    let mut children = vec![child(LayoutType::AbsoluteBg), child(LayoutType::AbsolutePxPxGrowGrow(10, 10))];
    assert_eq!(
        absolute_layout((u32::MAX - 5, 0, 100, 100), &mut children, &vec![None, None]),
        Err(LayoutError::OutOfPixelRange)
    );
    // the child before the refused one is placed, the refused one is not
    assert_eq!(children[0].effective_layout, Some((u32::MAX - 5, 0, 100, 100)));
    assert_eq!(children[1].effective_layout, None);
    // an out-of-bounds offset is reported before the pixel range
    let mut children = vec![child(LayoutType::AbsolutePxPxGrowGrow(200, 0))];
    assert_eq!(
        absolute_layout((u32::MAX - 5, 0, 100, 100), &mut children, &vec![None]),
        Err(LayoutError::OutOfBounds { x: 200, y: 0, width: 100, height: 100 })
    );
}

#[test]
fn fraction_corners_beyond_the_pixel_range_are_refused() {
    let ty = LayoutType::AbsoluteFrFrFrFr(0, 0, 0, 0);
    let mut children = vec![child(ty)];
    assert_eq!(absolute_layout((10, 10, 100, 100), &mut children, &vec![Some((5, 5, 50, 50))]), Ok(()));
    assert_eq!(children[0].effective_layout, Some((15, 15, 50, 50)));
    let mut children = vec![child(ty)];
    assert_eq!(
        absolute_layout((10, u32::MAX - 1, 100, 100), &mut children, &vec![Some((5, 5, 50, 50))]),
        Err(LayoutError::OutOfPixelRange)
    );
}

#[test]
fn row_check_reports_the_first_error() {
    let children = vec![
        child(LayoutType::RowPx(30)),
        child(LayoutType::RowFr(0)),
        child(LayoutType::AbsoluteBg),
    ];
    assert_eq!(row_check(&children, &vec![0, 10, 0], 100), Some(LayoutError::UnsupportedForRow(LayoutType::AbsoluteBg)));
    assert_eq!(row_check(&children, &vec![0, 80, 0], 100), Some(LayoutError::RowOverflow));
    let children = vec![child(LayoutType::RowPx(30)), child(LayoutType::RowRemainder(2))];
    assert_eq!(row_check(&children, &vec![0, 500], 30), None);
}

#[test]
fn row_fits_checks_both_directions() {
    let children = vec![child(LayoutType::RowPx(30)), child(LayoutType::RowRemainder(1))];
    assert!(row_fits((0, 0, 100, 10), &children, &vec![0, 70], RowDirection::LTR));
    assert!(!row_fits((u32::MAX - 50, 0, 100, 10), &children, &vec![0, 70], RowDirection::LTR));
    assert!(row_fits((10, 0, 100, 10), &children, &vec![0, 70], RowDirection::RTL));
    assert!(!row_fits((10, 0, 100, 10), &children, &vec![0, 200], RowDirection::RTL));
    assert!(!row_fits((u32::MAX - 50, 0, 100, 10), &children, &vec![0, 0], RowDirection::RTL));
}

#[test]
fn remainder_weights_are_summed_with_overflow_detection() {
    let children = vec![
        child(LayoutType::RowRemainder(3)),
        child(LayoutType::RowPx(9)),
        child(LayoutType::RowRemainder(4)),
    ];
    assert_eq!(row_remainder_total(&children), Some(7));
    let children = vec![child(LayoutType::RowRemainder(u32::MAX)), child(LayoutType::RowRemainder(1))];
    assert_eq!(row_remainder_total(&children), None);
    assert_eq!(row_remainder_total::<u8>(&vec![]), Some(0));
}

#[test]
fn palette_lookups_fall_back_to_magenta() {
    let palette = vec![(1, 2, 3, 4), (5, 6, 7, 8)];
    assert_eq!(palette_colour(&palette, 1), (5, 6, 7, 8));
    assert_eq!(palette_colour(&palette, 2), (255, 0, 255, 255));
    assert_eq!(palette_colour(&vec![], 0), (255, 0, 255, 255));
}

#[test]
fn unreadable_fonts_have_no_palette() {
    assert!(read_cpal(&[], 0).is_empty());
    assert!(read_cpal(b"definitely not a font file", 0).is_empty());
}

#[test]
fn utf8_lengths_of_characters() {
    assert_eq!(char_utf8_len('a'), 1);
    assert_eq!(char_utf8_len('é'), 2);
    assert_eq!(char_utf8_len('中'), 3);
    assert_eq!(char_utf8_len('😀'), 4);
}

#[test]
fn bgra_pixels_become_rgba() {
    assert_eq!(bgra_to_rgba(&vec![1, 2, 3, 4, 5, 6, 7, 8]), vec![3, 2, 1, 4, 7, 6, 5, 8]);
    // bytes after the last whole pixel are dropped
    assert_eq!(bgra_to_rgba(&vec![1, 2, 3, 4, 9, 9]), vec![3, 2, 1, 4]);
    assert!(bgra_to_rgba(&vec![]).is_empty());
}

#[test]
fn palettes_are_built_from_records() {
    let records = vec![(1, 2, 3, 4)];
    assert_eq!(palette_from_records(3, &records), vec![(1, 2, 3, 4), (0, 0, 0, 255), (0, 0, 0, 255)]);
    assert!(palette_from_records(0, &records).is_empty());
}
