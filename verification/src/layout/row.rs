use vstd::prelude::*;

use super::absolute::assigned;
use super::types::{Area, LayoutError, LayoutType, Layouted};

verus! {

/// The direction in which a row places its children.
#[derive(Debug, Clone, Copy, PartialEq, Eq, Structural)]
pub enum RowDirection {
    LTR,
    RTL,
}

/// Can a row lay out a child of this type?
pub open spec fn row_supported(ty: LayoutType) -> bool {
    ty is RowPx || ty is RowFr || ty is RowRemainder
}

/// The width a child of type `ty` is given in a row, where `span` is what
/// its fraction (for `RowFr`) or its share of the remainder (for
/// `RowRemainder`) scales to in this row.
pub open spec fn row_width(ty: LayoutType, span: u32) -> int {
    match ty {
        LayoutType::RowPx(px) => px as int,
        LayoutType::RowFr(_) => span as int,
        LayoutType::RowRemainder(_) => span as int,
        _ => 0,
    }
}

/// The width a child claims up front, before any remainder is shared out.
pub open spec fn row_claim(ty: LayoutType, span: u32) -> int {
    match ty {
        LayoutType::RowPx(px) => px as int,
        LayoutType::RowFr(_) => span as int,
        _ => 0,
    }
}

/// The width claimed up front by the first `n` children.
pub open spec fn row_claimed<T>(children: Seq<Layouted<T>>, spans: Seq<u32>, n: int) -> int
    decreases n,
{
    if n <= 0 {
        0
    } else {
        row_claimed(children, spans, n - 1) + row_claim(children[n - 1].layout_type, spans[n - 1])
    }
}

/// The width given to the first `n` children.
pub open spec fn row_offset<T>(children: Seq<Layouted<T>>, spans: Seq<u32>, n: int) -> int
    decreases n,
{
    if n <= 0 {
        0
    } else {
        row_offset(children, spans, n - 1) + row_width(children[n - 1].layout_type, spans[n - 1])
    }
}

/// The error a row of `width` pixels reports for its children from `i` on,
/// if any: the first child that is not a row child, or whose claim makes
/// the claims exceed the width.
pub open spec fn row_error_from<T>(
    children: Seq<Layouted<T>>,
    spans: Seq<u32>,
    width: u32,
    i: int,
) -> Option<LayoutError>
    decreases children.len() - i,
{
    if i < 0 || i >= children.len() {
        None
    } else if !row_supported(children[i].layout_type) {
        Some(LayoutError::UnsupportedForRow(children[i].layout_type))
    } else if !(children[i].layout_type is RowRemainder) && row_claimed(children, spans, i + 1)
        > width {
        Some(LayoutError::RowOverflow)
    } else {
        row_error_from(children, spans, width, i + 1)
    }
}

/// The x coordinate at which child `i` starts.
pub open spec fn row_child_x<T>(
    area: Area,
    children: Seq<Layouted<T>>,
    spans: Seq<u32>,
    dir: RowDirection,
    i: int,
) -> int {
    match dir {
        RowDirection::LTR => area.0 + row_offset(children, spans, i),
        RowDirection::RTL => area.0 + area.2 - row_offset(children, spans, i + 1),
    }
}

/// The rectangle child `i` is given.
pub open spec fn row_child_area<T>(
    area: Area,
    children: Seq<Layouted<T>>,
    spans: Seq<u32>,
    dir: RowDirection,
    i: int,
) -> Area {
    (
        row_child_x(area, children, spans, dir, i) as u32,
        area.1,
        row_width(children[i].layout_type, spans[i]) as u32,
        area.3,
    )
}

/// Placing the children moves the cursor only inside `u32`.
pub open spec fn row_no_overflow<T>(
    area: Area,
    children: Seq<Layouted<T>>,
    spans: Seq<u32>,
    dir: RowDirection,
) -> bool {
    let total = row_offset(children, spans, children.len() as int);
    match dir {
        RowDirection::LTR => area.0 + total <= u32::MAX,
        RowDirection::RTL => area.0 + area.2 <= u32::MAX && total <= area.0 + area.2,
    }
}

proof fn lemma_row_claimed_monotone<T>(children: Seq<Layouted<T>>, spans: Seq<u32>, i: int, j: int)
    requires
        0 <= i <= j,
    ensures
        row_claimed(children, spans, i) <= row_claimed(children, spans, j),
    decreases j - i,
{
    if i < j {
        lemma_row_claimed_monotone(children, spans, i, j - 1);
    }
}

proof fn lemma_row_offset_monotone<T>(children: Seq<Layouted<T>>, spans: Seq<u32>, i: int, j: int)
    requires
        0 <= i <= j,
    ensures
        row_offset(children, spans, i) <= row_offset(children, spans, j),
    decreases j - i,
{
    if i < j {
        lemma_row_offset_monotone(children, spans, i, j - 1);
    }
}

proof fn lemma_row_claimed_frame<T>(
    a: Seq<Layouted<T>>,
    b: Seq<Layouted<T>>,
    spans: Seq<u32>,
    n: int,
)
    requires
        0 <= n <= a.len(),
        a.len() == b.len(),
        forall|j: int| 0 <= j < a.len() ==> a[j].layout_type == b[j].layout_type,
    ensures
        row_claimed(a, spans, n) == row_claimed(b, spans, n),
        row_offset(a, spans, n) == row_offset(b, spans, n),
    decreases n,
{
    if n > 0 {
        lemma_row_claimed_frame(a, b, spans, n - 1);
    }
}

proof fn lemma_row_no_error_supported<T>(
    children: Seq<Layouted<T>>,
    spans: Seq<u32>,
    width: u32,
    i: int,
    k: int,
)
    requires
        0 <= i <= k < children.len(),
        row_error_from(children, spans, width, i) is None,
    ensures
        row_supported(children[k].layout_type),
    decreases k - i,
{
    if i < k {
        lemma_row_no_error_supported(children, spans, width, i + 1, k);
    }
}

/// The error a row of `width` pixels reports for `children`, if any.
pub fn row_check<T>(children: &Vec<Layouted<T>>, spans: &Vec<u32>, width: u32) -> (r: Option<LayoutError>)
    requires
        spans@.len() == children@.len(),
    ensures
        r == row_error_from(children@, spans@, width, 0),
{
    let n = children.len();
    let mut assignable_width: u32 = width;
    let mut i: usize = 0;
    while i < n
        invariant
            n == children@.len(),
            spans@.len() == n,
            i <= n,
            row_claimed(children@, spans@, i as int) <= width,
            assignable_width == width - row_claimed(children@, spans@, i as int),
            row_error_from(children@, spans@, width, 0) == row_error_from(
                children@,
                spans@,
                width,
                i as int,
            ),
        decreases n - i,
    {
        match children[i].layout_type {
            LayoutType::RowPx(px) => {
                if px <= assignable_width {
                    assignable_width = assignable_width - px;
                } else {
                    assert(row_claimed(children@, spans@, i + 1) > width);
                    return Some(LayoutError::RowOverflow);
                }
            },
            LayoutType::RowFr(_) => {
                let px = spans[i];
                if px <= assignable_width {
                    assignable_width = assignable_width - px;
                } else {
                    assert(row_claimed(children@, spans@, i + 1) > width);
                    return Some(LayoutError::RowOverflow);
                }
            },
            LayoutType::RowRemainder(_) => {},
            _ => {
                return Some(LayoutError::UnsupportedForRow(children[i].layout_type));
            },
        }
        i = i + 1;
    }
    None
}

/// Would placing `children` in `area` keep every coordinate inside `u32`?
pub fn row_fits<T>(area: Area, children: &Vec<Layouted<T>>, spans: &Vec<u32>, dir: RowDirection) -> (r: bool)
    requires
        spans@.len() == children@.len(),
    ensures
        r == row_no_overflow(area, children@, spans@, dir),
{
    let (x, _, width, _) = area;
    let n = children.len();
    let limit: u64 = match dir {
        RowDirection::LTR => u32::MAX as u64 - x as u64,
        RowDirection::RTL => {
            if x as u64 + width as u64 > u32::MAX as u64 {
                return false;
            }
            x as u64 + width as u64
        },
    };
    let mut total: u64 = 0;
    let mut i: usize = 0;
    while i < n
        invariant
            n == children@.len(),
            spans@.len() == n,
            i <= n,
            limit <= u32::MAX,
            x == area.0,
            width == area.2,
            dir == RowDirection::LTR ==> limit == u32::MAX - x,
            dir == RowDirection::RTL ==> limit == x + width && x + width <= u32::MAX,
            total == row_offset(children@, spans@, i as int),
            total <= limit,
        decreases n - i,
    {
        let w: u32 = match children[i].layout_type {
            LayoutType::RowPx(px) => px,
            LayoutType::RowFr(_) => spans[i],
            LayoutType::RowRemainder(_) => spans[i],
            _ => 0,
        };
        assert(w == row_width(children@[i as int].layout_type, spans@[i as int]));
        total = total + w as u64;
        assert(total == row_offset(children@, spans@, i + 1));
        if total > limit {
            proof {
                lemma_row_offset_monotone(children@, spans@, i + 1, n as int);
            }
            return false;
        }
        i = i + 1;
    }
    true
}

/// Lays out `children` side by side in `area`, from its left edge for
/// `LTR` and from its right edge for `RTL`; every child gets the full
/// height of the row.
///
/// A first pass checks that every child is a row child and that the fixed
/// (`RowPx`) and fractional (`RowFr`) widths fit into the row; then that
/// all widths together stay inside the pixel range from the row's start
/// (for `RTL`, that they fit left of the row's right edge), else
/// `RowOverflow` is reported. On failure no child is touched. `spans[i]` is what child `i`'s fraction, or its
/// weighted share of the row for `RowRemainder`, scales to in this row; it
/// is not read for `RowPx` children.
pub fn row_layout<T>(
    area: Area,
    children: &mut Vec<Layouted<T>>,
    dir: RowDirection,
    spans: &Vec<u32>,
) -> (r: Result<(), LayoutError>)
    requires
        spans@.len() == old(children)@.len(),
    ensures
        final(children)@.len() == old(children)@.len(),
        match row_error_from(old(children)@, spans@, area.2, 0) {
            Some(e) => r == Err::<(), LayoutError>(e) && final(children)@ == old(children)@,
            None => if row_no_overflow(area, old(children)@, spans@, dir) {
                r is Ok
            } else {
                r == Err::<(), LayoutError>(LayoutError::RowOverflow) && final(children)@ == old(
                    children,
                )@
            },
        },
        r is Ok ==> forall|i: int|
            0 <= i < old(children)@.len() ==> assigned(
                #[trigger] final(children)@[i],
                old(children)@[i],
                row_child_area(area, old(children)@, spans@, dir, i),
            ),
{
    let (x, y, width, height) = area;
    let n = children.len();
    let ghost old_children = children@;
    // First pass: check the children and what they claim of the width.
    if let Some(e) = row_check(children, spans, width) {
        return Err(e);
    }
    // The children must also fit between the row's start and the ends of
    // the pixel range.
    if !row_fits(area, children, spans, dir) {
        return Err(LayoutError::RowOverflow);
    }
    proof {
        lemma_row_offset_monotone(old_children, spans@, 0, n as int);
    }
    // Second pass: place the children.
    let mut rx: u32 = match dir {
        RowDirection::LTR => x,
        RowDirection::RTL => x + width,
    };
    let mut i: usize = 0;
    while i < n
        invariant
            n == children@.len(),
            old_children == old(children)@,
            n == old_children.len(),
            spans@.len() == n,
            i <= n,
            area == (x, y, width, height),
            row_error_from(old_children, spans@, width, 0) is None,
            row_no_overflow(area, old_children, spans@, dir),
            rx == match dir {
                RowDirection::LTR => x + row_offset(old_children, spans@, i as int),
                RowDirection::RTL => x + width - row_offset(old_children, spans@, i as int),
            },
            forall|j: int|
                0 <= j < i ==> assigned(
                    #[trigger] children@[j],
                    old_children[j],
                    row_child_area(area, old_children, spans@, dir, j),
                ),
            forall|j: int| i <= j < n ==> #[trigger] children@[j] == old_children[j],
        decreases n - i,
    {
        proof {
            lemma_row_offset_monotone(old_children, spans@, i + 1, n as int);
            lemma_row_no_error_supported(old_children, spans@, width, 0, i as int);
        }
        let px: u32 = match children[i].layout_type {
            LayoutType::RowPx(px) => px,
            _ => spans[i],
        };
        assert(px == row_width(old_children[i as int].layout_type, spans@[i as int]));
        let ex = match dir {
            RowDirection::LTR => rx,
            RowDirection::RTL => rx - px,
        };
        children[i].effective_layout = Some((ex, y, px, height));
        match dir {
            RowDirection::LTR => rx = rx + px,
            RowDirection::RTL => rx = rx - px,
        }
        i = i + 1;
    }
    Ok(())
}

} // verus!

verus! {

/// Children of a row sit side by side without gaps: left to right, each
/// child starts where the one before it ends; right to left, each child
/// ends where the one before it starts. Every child spans the full height
/// of the row.
pub proof fn lemma_row_children_are_adjacent<T>(
    area: Area,
    children: Seq<Layouted<T>>,
    spans: Seq<u32>,
    dir: RowDirection,
    i: int,
)
    requires
        0 <= i,
        i + 1 < children.len(),
        spans.len() == children.len(),
        row_error_from(children, spans, area.2, 0) is None,
        row_no_overflow(area, children, spans, dir),
    ensures
        dir == RowDirection::LTR ==> row_child_area(area, children, spans, dir, i + 1).0 == row_child_area(
            area,
            children,
            spans,
            dir,
            i,
        ).0 + row_child_area(area, children, spans, dir, i).2,
        dir == RowDirection::RTL ==> row_child_area(area, children, spans, dir, i).0 == row_child_area(
            area,
            children,
            spans,
            dir,
            i + 1,
        ).0 + row_child_area(area, children, spans, dir, i + 1).2,
        row_child_area(area, children, spans, dir, i).1 == area.1,
        row_child_area(area, children, spans, dir, i).3 == area.3,
{
    let n = children.len() as int;
    lemma_row_offset_monotone(children, spans, i, i + 1);
    lemma_row_offset_monotone(children, spans, i + 1, i + 2);
    lemma_row_offset_monotone(children, spans, i + 2, n);
    lemma_row_offset_monotone(children, spans, 0, i);
    lemma_row_no_error_supported(children, spans, area.2, 0, i);
    lemma_row_no_error_supported(children, spans, area.2, 0, i + 1);
    assert(row_offset(children, spans, i + 1) == row_offset(children, spans, i) + row_width(
        children[i].layout_type,
        spans[i],
    ));
    assert(row_offset(children, spans, i + 2) == row_offset(children, spans, i + 1) + row_width(
        children[i + 1].layout_type,
        spans[i + 1],
    ));
}

} // verus!

verus! {

/// The weight of a child in the sharing out of a row's remainder.
pub open spec fn remainder_weight(ty: LayoutType) -> int {
    match ty {
        LayoutType::RowRemainder(r) => r as int,
        _ => 0,
    }
}

/// The total remainder weight of the first `n` children.
pub open spec fn remainder_total<T>(children: Seq<Layouted<T>>, n: int) -> int
    decreases n,
{
    if n <= 0 {
        0
    } else {
        remainder_total(children, n - 1) + remainder_weight(children[n - 1].layout_type)
    }
}

/// The total weight of the `RowRemainder` children, against which each of
/// them is given its share of the row; `None` when it does not fit in `u32`.
pub fn row_remainder_total<T>(children: &Vec<Layouted<T>>) -> (r: Option<u32>)
    ensures
        match r {
            Some(t) => t == remainder_total(children@, children@.len() as int),
            None => remainder_total(children@, children@.len() as int) > u32::MAX,
        },
{
    let n = children.len();
    let mut total: u32 = 0;
    let mut i: usize = 0;
    while i < n
        invariant
            n == children@.len(),
            i <= n,
            total == remainder_total(children@, i as int),
        decreases n - i,
    {
        if let LayoutType::RowRemainder(r) = children[i].layout_type {
            match total.checked_add(r) {
                Some(t) => total = t,
                None => {
                    proof {
                        lemma_remainder_total_monotone(children@, i + 1, n as int);
                    }
                    return None;
                },
            }
        }
        i = i + 1;
    }
    Some(total)
}

proof fn lemma_remainder_total_monotone<T>(children: Seq<Layouted<T>>, i: int, j: int)
    requires
        0 <= i <= j,
    ensures
        remainder_total(children, i) <= remainder_total(children, j),
    decreases j - i,
{
    if i < j {
        lemma_remainder_total_monotone(children, i, j - 1);
    }
}

} // verus!
