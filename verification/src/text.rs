//! Text segmentation and font selection for the text renderer.
pub mod bidi;
pub mod emoji;
pub mod fonts;
pub mod runs;
pub mod segment;
pub mod shape;
