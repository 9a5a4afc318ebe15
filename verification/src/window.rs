//! Bookkeeping of the space that panes occupy.

pub mod pane;
