//! Geometry and rendering core of a terminal pane layout.
//!
//! [`window::pane::section`] holds the interval algebra that keeps account
//! of the rows or columns that panes occupy: containment, merging and
//! subtraction of closed index ranges, each proved against the set of
//! indices that a range covers.
//!
//! [`render`] lets an entity paint itself into a [`render::Pane`], and takes
//! a single line or a range of lines from such a rendering.

pub mod render;
pub mod window;
