use render::layout::{
    absolute_layout, bounds_check, row_layout, LayoutError, LayoutType, Layouted, RowDirection,
};

fn child(ty: LayoutType) -> Layouted<u32> {
    Layouted::new(7, ty)
}

#[test]
fn bounds_check_accepts_points_on_the_edge() {
    assert_eq!(bounds_check(100, 50, 100, 50), Ok(()));
    assert_eq!(bounds_check(100, 50, 0, 0), Ok(()));
    assert_eq!(
        bounds_check(100, 50, 101, 10),
        Err(LayoutError::OutOfBounds { x: 101, y: 10, width: 100, height: 50 })
    );
    assert_eq!(
        bounds_check(100, 50, 10, 51),
        Err(LayoutError::OutOfBounds { x: 10, y: 51, width: 100, height: 50 })
    );
}

#[test]
fn absolute_layout_places_every_kind_of_child() {
    let area = (10, 20, 100, 50);
    let mut children = vec![
        child(LayoutType::AbsolutePxPxGrowGrow(5, 6)),
        child(LayoutType::AbsoluteBg),
        child(LayoutType::AbsolutePxPxGrowPx(5, 6, 30)),
        child(LayoutType::AbsolutePxPxPxGrow(5, 6, 40)),
        child(LayoutType::AbsolutePxPxPxPx(5, 6, 40, 30)),
        child(LayoutType::AbsoluteFrFrFrFr(0, 0, 0, 0)),
    ];
    let fractions = vec![None, None, None, None, None, Some((25, 10, 50, 25))];
    assert_eq!(absolute_layout(area, &mut children, &fractions), Ok(()));
    let got: Vec<_> = children.iter().map(|c| c.effective_layout).collect();
    assert_eq!(
        got,
        vec![
            // grows to the right and bottom edges
            Some((15, 26, 95, 44)),
            Some((10, 20, 100, 50)),
            // a fixed height, the width grows to the right edge
            Some((15, 26, 95, 30)),
            // a fixed width, the height grows to the bottom edge
            Some((15, 26, 40, 44)),
            // fixed width and height
            Some((15, 26, 40, 30)),
            Some((35, 30, 50, 25)),
        ]
    );
    assert!(children.iter().all(|c| c.element == 7));
}

#[test]
fn growing_child_ends_at_the_parent_corner() {
    let area = (3, 4, 30, 40);
    let mut children = vec![child(LayoutType::AbsolutePxPxGrowGrow(7, 9))];
    absolute_layout(area, &mut children, &vec![None]).unwrap();
    let (x, y, w, h) = children[0].effective_layout.unwrap();
    assert_eq!((x + w, y + h), (3 + 30, 4 + 40));
}

#[test]
fn absolute_layout_stops_at_the_first_error() {
    let area = (0, 0, 10, 10);
    let mut children = vec![
        child(LayoutType::AbsoluteBg),
        child(LayoutType::AbsolutePxPxPxPx(1, 1, 11, 5)),
        child(LayoutType::AbsoluteBg),
    ];
    let r = absolute_layout(area, &mut children, &vec![None, None, None]);
    assert_eq!(r, Err(LayoutError::OutOfBounds { x: 11, y: 5, width: 10, height: 10 }));
    assert_eq!(children[0].effective_layout, Some((0, 0, 10, 10)));
    assert_eq!(children[1].effective_layout, None);
    assert_eq!(children[2].effective_layout, None);
}

#[test]
fn absolute_layout_reports_each_error() {
    let area = (0, 0, 10, 10);
    let mut c = vec![child(LayoutType::AbsoluteFrFrFrFr(0, 0, 0, 0))];
    assert_eq!(absolute_layout(area, &mut c, &vec![None]), Err(LayoutError::FractionTooBig));
    let mut c = vec![child(LayoutType::RowPx(3))];
    assert_eq!(
        absolute_layout(area, &mut c, &vec![None]),
        Err(LayoutError::UnsupportedForAbsolute(LayoutType::RowPx(3)))
    );
    let mut c = vec![child(LayoutType::AbsoluteDDDD(0, 0, 0, 0))];
    assert_eq!(
        absolute_layout(area, &mut c, &vec![None]),
        Err(LayoutError::UnsupportedForAbsolute(LayoutType::AbsoluteDDDD(0, 0, 0, 0)))
    );
    let mut c = vec![child(LayoutType::AbsolutePxPxGrowPx(2, 3, 11))];
    assert_eq!(
        absolute_layout(area, &mut c, &vec![None]),
        Err(LayoutError::OutOfBounds { x: 2, y: 11, width: 10, height: 10 })
    );
    let mut c = vec![child(LayoutType::AbsolutePxPxPxGrow(2, 3, 12))];
    assert_eq!(
        absolute_layout(area, &mut c, &vec![None]),
        Err(LayoutError::OutOfBounds { x: 12, y: 3, width: 10, height: 10 })
    );
}

#[test]
fn row_layout_left_to_right_is_contiguous() {
    let area = (10, 5, 100, 20);
    let mut children = vec![
        child(LayoutType::RowPx(30)),
        child(LayoutType::RowFr(0)),
        child(LayoutType::RowRemainder(1)),
    ];
    // spans: the fraction scales to 25 px, the remainder to 45 px
    let spans = vec![0, 25, 45];
    assert_eq!(row_layout(area, &mut children, RowDirection::LTR, &spans), Ok(()));
    let got: Vec<_> = children.iter().map(|c| c.effective_layout.unwrap()).collect();
    assert_eq!(got, vec![(10, 5, 30, 20), (40, 5, 25, 20), (65, 5, 45, 20)]);
}

#[test]
fn row_layout_right_to_left_starts_at_the_right_edge() {
    let area = (10, 5, 100, 20);
    let mut children = vec![child(LayoutType::RowPx(30)), child(LayoutType::RowPx(20))];
    assert_eq!(row_layout(area, &mut children, RowDirection::RTL, &vec![0, 0]), Ok(()));
    let got: Vec<_> = children.iter().map(|c| c.effective_layout.unwrap()).collect();
    assert_eq!(got, vec![(80, 5, 30, 20), (60, 5, 20, 20)]);
}

#[test]
fn row_layout_rejects_rows_that_do_not_fit() {
    let area = (0, 0, 50, 10);
    let mut children = vec![
        child(LayoutType::RowPx(30)),
        child(LayoutType::RowRemainder(5)),
        child(LayoutType::RowFr(0)),
    ];
    let r = row_layout(area, &mut children, RowDirection::LTR, &vec![0, 99, 21]);
    assert_eq!(r, Err(LayoutError::RowOverflow));
    assert!(children.iter().all(|c| c.effective_layout.is_none()));
    // Remainders claim nothing up front, so this one fits.
    let mut children = vec![child(LayoutType::RowPx(50)), child(LayoutType::RowRemainder(1))];
    assert_eq!(row_layout(area, &mut children, RowDirection::LTR, &vec![0, 0]), Ok(()));
}

#[test]
fn row_layout_rejects_absolute_children() {
    let area = (0, 0, 50, 10);
    let mut children = vec![child(LayoutType::RowPx(10)), child(LayoutType::AbsoluteBg)];
    let r = row_layout(area, &mut children, RowDirection::LTR, &vec![0, 0]);
    assert_eq!(r, Err(LayoutError::UnsupportedForRow(LayoutType::AbsoluteBg)));
    assert!(children.iter().all(|c| c.effective_layout.is_none()));
}

#[test]
fn a_background_child_fits_any_size() {
    for area in [(0, 0, 0, 0), (3, 4, 1, 1), (10, 20, 800, 600), (0, 0, u32::MAX, u32::MAX)] {
        let mut children = vec![child(LayoutType::AbsolutePxPxGrowGrow(0, 0))];
        assert_eq!(absolute_layout(area, &mut children, &vec![None]), Ok(()));
        assert_eq!(children[0].effective_layout, Some(area));
    }
}

#[test]
fn fixed_size_children_keep_their_size_when_the_parent_moves() {
    for (x, y) in [(0, 0), (7, 3), (1000, 2000)] {
        let mut children = vec![
            child(LayoutType::AbsolutePxPxPxPx(0, 0, 50, 50)),
            child(LayoutType::AbsolutePxPxPxGrow(5, 5, 20)),
            child(LayoutType::AbsolutePxPxGrowPx(5, 5, 20)),
        ];
        absolute_layout((x, y, 100, 100), &mut children, &vec![None, None, None]).unwrap();
        let got: Vec<_> = children.iter().map(|c| c.effective_layout.unwrap()).collect();
        assert_eq!(got, vec![(x, y, 50, 50), (x + 5, y + 5, 20, 95), (x + 5, y + 5, 95, 20)]);
    }
}

#[test]
fn rows_that_run_out_of_pixels_report_an_error() {
    // right to left, the children are wider than the row: nothing is placed
    let mut children = vec![child(LayoutType::RowPx(30)), child(LayoutType::RowRemainder(1))];
    let r = row_layout((0, 0, 100, 10), &mut children, RowDirection::RTL, &vec![0, 100]);
    assert_eq!(r, Err(LayoutError::RowOverflow));
    assert!(children.iter().all(|c| c.effective_layout.is_none()));
    // left to right, the same row is laid out past its right edge
    let r = row_layout((0, 0, 100, 10), &mut children, RowDirection::LTR, &vec![0, 100]);
    assert_eq!(r, Ok(()));
    assert_eq!(children[1].effective_layout, Some((30, 0, 100, 10)));
    // left to right, the pixel range ends
    let mut children = vec![child(LayoutType::RowPx(30))];
    let r = row_layout((u32::MAX - 10, 0, 40, 10), &mut children, RowDirection::LTR, &vec![0]);
    assert_eq!(r, Err(LayoutError::RowOverflow));
}
