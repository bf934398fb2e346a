use vstd::prelude::*;

use super::types::{Area, LayoutError, LayoutType, Layouted};

verus! {

/// The error `bounds_check(w, h, x, y)` reports.
pub open spec fn out_of_bounds(w: u32, h: u32, x: u32, y: u32) -> LayoutError {
    LayoutError::OutOfBounds { x, y, width: w, height: h }
}

/// Is the point `(x, y)` inside the size `(w, h)` (edges included)?
pub open spec fn in_bounds(w: u32, h: u32, x: u32, y: u32) -> bool {
    x <= w && y <= h
}

/// Checks that `(x, y)` does not lie beyond the size `(w, h)`.
pub fn bounds_check(w: u32, h: u32, x: u32, y: u32) -> (r: Result<(), LayoutError>)
    ensures
        r is Ok <==> in_bounds(w, h, x, y),
        r is Err ==> r == Err::<(), LayoutError>(out_of_bounds(w, h, x, y)),
{
    if x > w || y > h {
        return Err(LayoutError::OutOfBounds { x, y, width: w, height: h });
    }
    Ok(())
}

/// The rectangle of size `(cw, ch)` at offset `(ox, oy)` from the top-left
/// corner of `area`, or `OutOfPixelRange` when that corner lies beyond the
/// largest pixel coordinate.
pub open spec fn shifted(area: Area, ox: u32, oy: u32, cw: int, ch: int) -> Result<
    (int, int, int, int),
    LayoutError,
> {
    if area.0 + ox > u32::MAX || area.1 + oy > u32::MAX {
        Err(LayoutError::OutOfPixelRange)
    } else {
        Ok((area.0 + ox, area.1 + oy, cw, ch))
    }
}

/// The corner at offset `(ox, oy)` from `(x, y)`, or `OutOfPixelRange`.
fn shift(x: u32, y: u32, ox: u32, oy: u32) -> (r: Result<(u32, u32), LayoutError>)
    ensures
        x + ox <= u32::MAX && y + oy <= u32::MAX ==> r == Ok::<(u32, u32), LayoutError>(
            ((x + ox) as u32, (y + oy) as u32),
        ),
        !(x + ox <= u32::MAX && y + oy <= u32::MAX) ==> r == Err::<(u32, u32), LayoutError>(
            LayoutError::OutOfPixelRange,
        ),
{
    match (x.checked_add(ox), y.checked_add(oy)) {
        (Some(a), Some(b)) => Ok((a, b)),
        _ => Err(LayoutError::OutOfPixelRange),
    }
}

/// The rectangle (over unbounded integers) that an absolute layout assigns
/// to one child of type `ty` inside `area`, or the error it reports.
///
/// `frac` is what the child's fractions scale to inside `area`
/// (`(x offset, y offset, width, height)`), or `None` when one of them is
/// too big; it is only read for `AbsoluteFrFrFrFr`.
pub open spec fn absolute_child(area: Area, ty: LayoutType, frac: Option<Area>) -> Result<
    (int, int, int, int),
    LayoutError,
> {
    let (x, y, w, h) = area;
    match ty {
        LayoutType::AbsolutePxPxGrowGrow(ex, ey) => {
            if !in_bounds(w, h, ex, ey) {
                Err(out_of_bounds(w, h, ex, ey))
            } else {
                shifted(area, ex, ey, w - ex, h - ey)
            }
        },
        LayoutType::AbsoluteBg => Ok((x as int, y as int, w as int, h as int)),
        LayoutType::AbsoluteFrFrFrFr(_, _, _, _) => match frac {
            None => Err(LayoutError::FractionTooBig),
            Some((fx, fy, fw, fh)) => shifted(area, fx, fy, fw as int, fh as int),
        },
        LayoutType::AbsolutePxPxGrowPx(ex, ey, eh) => {
            if !in_bounds(w, h, ex, ey) {
                Err(out_of_bounds(w, h, ex, ey))
            } else if !in_bounds(w, h, ex, eh) {
                Err(out_of_bounds(w, h, ex, eh))
            } else {
                shifted(area, ex, ey, w - ex, eh as int)
            }
        },
        LayoutType::AbsolutePxPxPxGrow(ex, ey, ew) => {
            if !in_bounds(w, h, ex, ey) {
                Err(out_of_bounds(w, h, ex, ey))
            } else if !in_bounds(w, h, ew, ey) {
                Err(out_of_bounds(w, h, ew, ey))
            } else {
                shifted(area, ex, ey, ew as int, h - ey)
            }
        },
        LayoutType::AbsolutePxPxPxPx(ex, ey, ew, eh) => {
            if !in_bounds(w, h, ex, ey) {
                Err(out_of_bounds(w, h, ex, ey))
            } else if !in_bounds(w, h, ew, eh) {
                Err(out_of_bounds(w, h, ew, eh))
            } else {
                shifted(area, ex, ey, ew as int, eh as int)
            }
        },
        _ => Err(LayoutError::UnsupportedForAbsolute(ty)),
    }
}

/// The integer rectangle as an `Area`.
pub open spec fn to_area(r: (int, int, int, int)) -> Area {
    (r.0 as u32, r.1 as u32, r.2 as u32, r.3 as u32)
}

/// The result for child `i` of `children`.
pub open spec fn absolute_child_at<T>(
    area: Area,
    children: Seq<Layouted<T>>,
    fractions: Seq<Option<Area>>,
    i: int,
) -> Result<(int, int, int, int), LayoutError> {
    absolute_child(area, children[i].layout_type, fractions[i])
}

/// Every child before `k` is laid out without error.
pub open spec fn absolute_ok_before<T>(
    area: Area,
    children: Seq<Layouted<T>>,
    fractions: Seq<Option<Area>>,
    k: int,
) -> bool {
    forall|j: int| 0 <= j < k ==> (#[trigger] absolute_child_at(area, children, fractions, j)) is Ok
}

/// Child `new` is child `old` with the rectangle `r` assigned.
pub open spec fn assigned<T>(new: Layouted<T>, old: Layouted<T>, r: Area) -> bool {
    &&& new.element == old.element
    &&& new.layout_type == old.layout_type
    &&& new.effective_layout == Some(r)
}

/// Lays out `children` inside `area` by their absolute layout types.
///
/// Children are handled in order; the first one whose layout type is not
/// absolute, whose offsets lie outside `area`, whose fractions are too big,
/// or whose top-left corner would lie beyond the largest pixel coordinate
/// ends the layout with an error, and the children after it are left
/// untouched. `fractions[i]` is what child `i`'s fractions scale to inside
/// `area` (`None` when one of them is too big); it is read only for
/// `AbsoluteFrFrFrFr` children.
pub fn absolute_layout<T>(
    area: Area,
    children: &mut Vec<Layouted<T>>,
    fractions: &Vec<Option<Area>>,
) -> (r: Result<(), LayoutError>)
    requires
        fractions@.len() == old(children)@.len(),
    ensures
        final(children)@.len() == old(children)@.len(),
        r is Ok <==> absolute_ok_before(area, old(children)@, fractions@, old(children)@.len() as int),
        r is Ok ==> forall|i: int|
            0 <= i < old(children)@.len() ==> assigned(
                #[trigger] final(children)@[i],
                old(children)@[i],
                to_area(absolute_child_at(area, old(children)@, fractions@, i)->Ok_0),
            ),
        r is Err ==> exists|k: int|
            0 <= k < old(children)@.len() && absolute_ok_before(area, old(children)@, fractions@, k)
                && absolute_child_at(area, old(children)@, fractions@, k) == Err::<(int, int, int, int), LayoutError>(r->Err_0)
                && (forall|i: int|
                0 <= i < k ==> assigned(
                    #[trigger] final(children)@[i],
                    old(children)@[i],
                    to_area(absolute_child_at(area, old(children)@, fractions@, i)->Ok_0),
                )) && (forall|i: int| k <= i < old(children)@.len() ==> #[trigger] final(children)@[i] == old(children)@[i]),
{
    let (x, y, width, height) = area;
    let n = children.len();
    let mut i: usize = 0;
    while i < n
        invariant
            n == children@.len(),
            n == old(children)@.len(),
            fractions@.len() == n,
            i <= n,
            area == (x, y, width, height),
            absolute_ok_before(area, old(children)@, fractions@, i as int),
            forall|j: int|
                0 <= j < i ==> assigned(
                    #[trigger] children@[j],
                    old(children)@[j],
                    to_area(absolute_child_at(area, old(children)@, fractions@, j)->Ok_0),
                ),
            forall|j: int| i <= j < n ==> #[trigger] children@[j] == old(children)@[j],
        decreases n - i,
    {
        let ghost expected = absolute_child_at(area, old(children)@, fractions@, i as int);
        let ty = children[i].layout_type;
        let placed: Area = match ty {
            LayoutType::AbsolutePxPxGrowGrow(ex, ey) => {
                if let Err(e) = bounds_check(width, height, ex, ey) {
                    return Err(e);
                }
                let (cx, cy) = match shift(x, y, ex, ey) {
                    Ok(c) => c,
                    Err(e) => return Err(e),
                };
                (cx, cy, width - ex, height - ey)
            },
            LayoutType::AbsoluteBg => (x, y, width, height),
            LayoutType::AbsoluteFrFrFrFr(_, _, _, _) => {
                match fractions[i] {
                    None => {
                        return Err(LayoutError::FractionTooBig);
                    },
                    Some((fx, fy, fw, fh)) => {
                        let (cx, cy) = match shift(x, y, fx, fy) {
                            Ok(c) => c,
                            Err(e) => return Err(e),
                        };
                        (cx, cy, fw, fh)
                    },
                }
            },
            LayoutType::AbsolutePxPxGrowPx(ex, ey, eh) => {
                if let Err(e) = bounds_check(width, height, ex, ey) {
                    return Err(e);
                }
                if let Err(e) = bounds_check(width, height, ex, eh) {
                    return Err(e);
                }
                let (cx, cy) = match shift(x, y, ex, ey) {
                    Ok(c) => c,
                    Err(e) => return Err(e),
                };
                (cx, cy, width - ex, eh)
            },
            LayoutType::AbsolutePxPxPxGrow(ex, ey, ew) => {
                if let Err(e) = bounds_check(width, height, ex, ey) {
                    return Err(e);
                }
                if let Err(e) = bounds_check(width, height, ew, ey) {
                    return Err(e);
                }
                let (cx, cy) = match shift(x, y, ex, ey) {
                    Ok(c) => c,
                    Err(e) => return Err(e),
                };
                (cx, cy, ew, height - ey)
            },
            LayoutType::AbsolutePxPxPxPx(ex, ey, ew, eh) => {
                if let Err(e) = bounds_check(width, height, ex, ey) {
                    return Err(e);
                }
                if let Err(e) = bounds_check(width, height, ew, eh) {
                    return Err(e);
                }
                let (cx, cy) = match shift(x, y, ex, ey) {
                    Ok(c) => c,
                    Err(e) => return Err(e),
                };
                (cx, cy, ew, eh)
            },
            _ => {
                return Err(LayoutError::UnsupportedForAbsolute(ty));
            },
        };
        children[i].effective_layout = Some(placed);
        assert(absolute_child_at(area, old(children)@, fractions@, i as int) is Ok);
        i = i + 1;
    }
    Ok(())
}

} // verus!

verus! {

/// Moving the parent moves its children with it: in the area moved by
/// `(dx, dy)`, a child placed in both areas keeps its size and is moved by
/// the same amount, and a child refused for a reason other than the pixel
/// range is refused with the same error.
pub proof fn lemma_children_move_with_the_area(
    area: Area,
    dx: int,
    dy: int,
    ty: LayoutType,
    frac: Option<Area>,
)
    requires
        0 <= area.0 + dx <= u32::MAX,
        0 <= area.1 + dy <= u32::MAX,
    ensures
        ({
            let moved = ((area.0 + dx) as u32, (area.1 + dy) as u32, area.2, area.3);
            &&& absolute_child(area, ty, frac) is Ok && absolute_child(moved, ty, frac) is Ok
                ==> absolute_child(moved, ty, frac)->Ok_0 == (
                absolute_child(area, ty, frac)->Ok_0.0 + dx,
                absolute_child(area, ty, frac)->Ok_0.1 + dy,
                absolute_child(area, ty, frac)->Ok_0.2,
                absolute_child(area, ty, frac)->Ok_0.3,
            )
            &&& absolute_child(area, ty, frac) is Err && absolute_child(area, ty, frac)->Err_0
                != LayoutError::OutOfPixelRange ==> absolute_child(moved, ty, frac) == absolute_child(
                area,
                ty,
                frac,
            )
        }),
{
}

/// A child growing from the parent's origin fits a parent of any size and
/// covers it exactly (the background of an empty component).
pub proof fn lemma_background_fits_any_size(area: Area, frac: Option<Area>)
    ensures
        absolute_child(area, LayoutType::AbsolutePxPxGrowGrow(0, 0), frac) == Ok::<
            (int, int, int, int),
            LayoutError,
        >((area.0 as int, area.1 as int, area.2 as int, area.3 as int)),
{
}

/// A child that grows in both directions ends exactly at the parent's
/// bottom-right corner, and a background child covers the parent exactly.
pub proof fn lemma_growing_children_reach_the_edges(area: Area, ex: u32, ey: u32, frac: Option<Area>)
    ensures
        absolute_child(area, LayoutType::AbsolutePxPxGrowGrow(ex, ey), frac) matches Ok(r) ==> r.0 + r.2
            == area.0 + area.2 && r.1 + r.3 == area.1 + area.3,
        absolute_child(area, LayoutType::AbsoluteBg, frac) == Ok::<(int, int, int, int), LayoutError>(
            (area.0 as int, area.1 as int, area.2 as int, area.3 as int),
        ),
{
}

} // verus!
