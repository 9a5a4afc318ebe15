//! Ranges of rows or columns that a pane claims.

pub mod section;
