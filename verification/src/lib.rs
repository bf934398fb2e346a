//! A component-based UI layout and text-layout library.
//!
//! The layout engine resolves the rectangles of a component tree
//! (absolute and row layouts), the text pipeline segments, classifies and
//! packs glyphs, and the event module keeps the pointer state that the
//! platform layer feeds into components.
pub mod atlas;
pub mod colr;
pub mod events;
pub mod layout;
pub mod options;
pub mod text;
pub mod render;
pub mod components;
