//! Rendering of an entity into a pane, in full, by line or by line range.
//!
//! An entity only has to say how it renders in full. A single line or a
//! range of lines is taken from that: the entity is rendered into a buffer,
//! the buffer is split into lines, and the lines that were asked for are
//! written to the pane.

pub mod lines;
pub mod pane;
pub mod range;

pub use lines::{
    write_line_after_render, write_line_at, write_lines, write_range_after_render,
    write_rendered_line, write_rendered_range,
};
pub use pane::Pane;
pub use range::{get_range, RangeCursor};

use core::fmt::Write;
use core::ops::Bound;
use lines::{line_rendered, lines_of, range_rendered};
use range::extracted;
use vstd::prelude::*;

verus! {

/// An entity that can paint itself into a pane.
pub trait Render {
    /// What tells the entity apart from others.
    type Id;

    /// What describes the bounds of the panes that the entity renders into.
    type Shape;

    /// The identity of the entity.
    fn id(&self) -> &Self::Id;

    /// The identity of the entity, for its owner to change.
    fn id_mut(&mut self) -> &mut Self::Id;

    /// Render/Rerender the full pane. A failure of the sink is passed on.
    fn render<W: Write>(
        &mut self,
        pane: &mut Pane<'_, Self::Shape, W>,
    ) -> Result<(), core::fmt::Error>;

    /// Render only one line of the pane.
    ///
    /// The entity is rendered in full into a buffer, and the line at `line`
    /// of what the buffer then holds is written to the pane, closed by a
    /// newline. Where there is no such line nothing is written, which is no
    /// failure. Where the rendering fails, its failure is returned and
    /// nothing is written either.
    fn render_line<W: Write>(
        &mut self,
        pane: &mut Pane<'_, Self::Shape, W>,
        line: usize,
    ) -> (done: Result<(), core::fmt::Error>)
        default_ensures
            final(pane).spec_shape() == old(pane).spec_shape(),
            exists|rendering: Result<(), core::fmt::Error>, rendered: Seq<char>| #[trigger]
                line_rendered(
                    *old(pane),
                    *final(pane),
                    rendering,
                    lines_of(rendered),
                    line,
                    done,
                ),
    {
        let mut buf = String::new();
        let mut scratch = Pane::new(pane.shape(), &mut buf);
        let rendering = self.render(&mut scratch);
        write_line_after_render(pane, rendering, buf.as_str(), line)
    }

    /// Render a range of lines.
    ///
    /// The entity is rendered in full into a buffer, and the lines of what
    /// the buffer then holds whose positions lie inside the range are
    /// written to the pane in order, each closed by a newline, up to the
    /// first one that the sink refuses. Where no line is selected nothing is
    /// written, which is no failure. Where the rendering fails, its failure
    /// is returned and nothing is written either.
    fn render_range<W: Write>(
        &mut self,
        pane: &mut Pane<'_, Self::Shape, W>,
        start: Bound<usize>,
        end: Bound<usize>,
    ) -> (done: Result<(), core::fmt::Error>)
        default_ensures
            final(pane).spec_shape() == old(pane).spec_shape(),
            exists|rendering: Result<(), core::fmt::Error>, rendered: Seq<char>| #[trigger]
                range_rendered(
                    *old(pane),
                    *final(pane),
                    rendering,
                    extracted(lines_of(rendered), start, end),
                    done,
                ),
    {
        let mut buf = String::new();
        let mut scratch = Pane::new(pane.shape(), &mut buf);
        let rendering = self.render(&mut scratch);
        write_range_after_render(pane, rendering, buf.as_str(), start, end)
    }
}

} // verus!
