use vstd::prelude::*;

verus! {

/// A rectangle given as `(x, y, width, height)` in pixels.
pub type Area = (u32, u32, u32, u32);

/// How a child wants to be placed inside its parent.
///
/// Fractional variants carry their fractions as IEEE-754 bit patterns
/// (`f32::to_bits` / `f64::to_bits`): the layout algorithms never read them
/// as numbers, they only carry them to the code that scales them.
#[derive(Debug, Clone, Copy, PartialEq, Eq, Structural)]
pub enum LayoutType {
    /// `(x, y, width, height)` offsets in pixels.
    AbsolutePxPxPxPx(u32, u32, u32, u32),
    /// Four `f64` values, as bit patterns.
    AbsoluteDDDD(u64, u64, u64, u64),
    /// Four `f32` fractions of the parent, as bit patterns.
    AbsoluteFrFrFrFr(u32, u32, u32, u32),
    /// `(x, y, width)` in pixels; the height grows to the parent's bottom.
    AbsolutePxPxPxGrow(u32, u32, u32),
    /// `(x, y, height)` in pixels; the width grows to the parent's right edge.
    AbsolutePxPxGrowPx(u32, u32, u32),
    /// `(x, y)` in pixels; width and height grow to the parent's edges.
    AbsolutePxPxGrowGrow(u32, u32),
    /// Fills the whole parent.
    AbsoluteBg,
    /// A fixed width in a row.
    RowPx(u32),
    /// A fraction (`f32` bit pattern) of the row's width.
    RowFr(u32),
    /// A share of the remaining width, weighted against the other remainders.
    RowRemainder(u32),
}

/// Why a layout could not be resolved.
#[derive(Debug, Clone, Copy, PartialEq, Eq, Structural)]
pub enum LayoutError {
    /// The point `(x, y)` lies outside the size `(width, height)`.
    OutOfBounds { x: u32, y: u32, width: u32, height: u32 },
    /// A fraction of an absolute layout is not below (or at most) one.
    FractionTooBig,
    /// The layout type cannot be used in an absolute layout.
    UnsupportedForAbsolute(LayoutType),
    /// The layout type cannot be used in a row layout.
    UnsupportedForRow(LayoutType),
    /// The fixed and fractional row children are wider than the row.
    RowOverflow,
    /// A child's top-left corner would lie beyond the largest pixel
    /// coordinate (`u32::MAX`).
    OutOfPixelRange,
}

/// A child together with the way it wants to be laid out and, once the
/// parent has run its layout, the rectangle it was given.
pub struct Layouted<T> {
    pub element: T,
    pub layout_type: LayoutType,
    /// `(x, y, width, height)`
    pub effective_layout: Option<Area>,
}

impl<T> Layouted<T> {
    /// Wraps `value` with the given layout type; no rectangle is assigned yet.
    pub fn new(value: T, layout_type: LayoutType) -> (r: Self)
        ensures
            r.element == value,
            r.layout_type == layout_type,
            r.effective_layout is None,
    {
        Layouted { element: value, layout_type, effective_layout: None }
    }

    /// The wrapped element.
    pub fn element(&self) -> (r: &T)
        ensures
            r == &self.element,
    {
        &self.element
    }
}

} // verus!
