//! Rectangle resolution for the children of a container.
pub mod absolute;
pub mod row;
pub mod types;

pub use absolute::{absolute_layout, bounds_check};
pub use row::{row_check, row_fits, row_layout, row_remainder_total, RowDirection};
pub use types::{Area, LayoutError, LayoutType, Layouted};
