//! The surface that an entity renders into.

use core::fmt::Write;
use vstd::prelude::*;
use vstd::string::StringExecFns;

verus! {

/// Makes `core::fmt::Error` known to Verus, as a value that is passed on
/// and never looked into.
#[verifier::external_type_specification]
#[verifier::external_body]
pub struct ExFmtError(core::fmt::Error);

/// A view onto a borrowed shape, together with the sink that receives what
/// is rendered.
///
/// The pane keeps account of the text that was handed to its sink and of
/// what the sink answered, for contracts to speak of: see [`Pane::handed`]
/// and [`Pane::answers`].
pub struct Pane<'a, S, W> {
    shape: &'a S,
    writer: W,
    handed: Ghost<Seq<char>>,
    answers: Ghost<Seq<Result<(), core::fmt::Error>>>,
}

/// Hands `text` to the sink with `core::fmt::Write::write_str`. Whether the
/// sink takes it is the sink's affair, so nothing is claimed of the result.
#[verifier::external_body]
fn sink_write_str<W: Write>(writer: &mut W, text: &str) -> (done: Result<(), core::fmt::Error>)
{
    writer.write_str(text)
}

impl<'a, S, W> Pane<'a, S, W> {
    /// The shape that the pane is bound to.
    pub closed spec fn spec_shape(&self) -> &'a S {
        self.shape
    }

    /// The sink of the pane.
    pub closed spec fn writer(&self) -> W {
        self.writer
    }

    /// All text that was handed to the sink through this pane, in order.
    pub closed spec fn handed(&self) -> Seq<char> {
        self.handed@
    }

    /// What the sink answered to each write that was made through this
    /// pane, in order.
    pub closed spec fn answers(&self) -> Seq<Result<(), core::fmt::Error>> {
        self.answers@
    }

    /// Binds a pane to `shape`, with `writer` as its sink.
    pub fn new(shape: &'a S, writer: W) -> (pane: Self)
        ensures
            pane.spec_shape() == shape,
            pane.writer() == writer,
            pane.handed() == Seq::<char>::empty(),
            pane.answers() == Seq::<Result<(), core::fmt::Error>>::empty(),
    {
        Self { shape, writer, handed: Ghost(Seq::empty()), answers: Ghost(Seq::empty()) }
    }

    /// The shape that the pane is bound to.
    pub fn shape(&self) -> (shape: &'a S)
        ensures
            shape == self.spec_shape(),
    {
        self.shape
    }
}

impl<'a, S, W: Write> Pane<'a, S, W> {
    /// Hands `text` to the sink in one write, and returns what the sink
    /// answered.
    pub fn write_str(&mut self, text: &str) -> (done: Result<(), core::fmt::Error>)
        ensures
            final(self).spec_shape() == old(self).spec_shape(),
            final(self).handed() == old(self).handed() + text@,
            final(self).answers() == old(self).answers().push(done),
    {
        let done = sink_write_str(&mut self.writer, text);
        self.handed = Ghost(self.handed@ + text@);
        self.answers = Ghost(self.answers@.push(done));
        done
    }

    /// Hands `line` and a closing newline to the sink in one write, and
    /// returns what the sink answered.
    pub fn write_line(&mut self, line: &str) -> (done: Result<(), core::fmt::Error>)
        ensures
            final(self).spec_shape() == old(self).spec_shape(),
            final(self).handed() == old(self).handed() + line@.push('\n'),
            final(self).answers() == old(self).answers().push(done),
    {
        let mut text = line.to_owned();
        text.append("\n");
        proof {
            reveal_strlit("\n");
            assert(text@ == line@.push('\n'));
        }
        self.write_str(text.as_str())
    }
}

/// A pane is a sink itself: what is written to it goes to its own sink.
impl<S, W: Write> Write for Pane<'_, S, W> {
    fn write_str(&mut self, s: &str) -> (done: Result<(), core::fmt::Error>)
        ensures
            final(self).spec_shape() == old(self).spec_shape(),
            final(self).handed() == old(self).handed() + s@,
            final(self).answers() == old(self).answers().push(done),
    {
        Pane::write_str(self, s)
    }
}

} // verus!
