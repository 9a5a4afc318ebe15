//! Writing single lines, or ranges of lines, of a rendered text to a pane.

use super::pane::Pane;
use super::range::{end_count, extracted, get_range, start_index};
use core::fmt::Write;
use core::ops::Bound;
use vstd::prelude::*;

verus! {

/// The lines of `text`, in order and without their line endings, as
/// `str::lines` tells them apart.
pub uninterp spec fn lines_of(text: Seq<char>) -> Seq<Seq<char>>;

/// Splits `text` into its lines with `str::lines`, and copies each line into
/// a string of its own. All that is claimed of the lines is that they are
/// the ones that [`lines_of`] names, so that they depend on the text alone.
#[verifier::external_body]
fn split_lines(text: &str) -> (lines: Vec<String>)
    ensures
        texts(lines@) == lines_of(text@),
{
    text.lines().map(String::from).collect()
}

/// The text of each string.
pub open spec fn texts(lines: Seq<String>) -> Seq<Seq<char>> {
    lines.map_values(|line: String| line@)
}

/// The lines one after another, each closed by a newline.
pub open spec fn joined(lines: Seq<Seq<char>>) -> Seq<char>
    decreases lines.len(),
{
    if lines.len() == 0 {
        Seq::empty()
    } else {
        joined(lines.drop_last()) + lines.last().push('\n')
    }
}

/// What the sink answered to `count` writes that were made one after
/// another until one was refused, where `before` holds the answers up to
/// the first of them, `after` those up to the last, and `done` is the result
/// of the whole: the earlier answers stand as they were, every write but the
/// last was accepted, a failure is the answer to the last write, and a
/// success means that every write was accepted.
pub open spec fn stopped_after(
    before: Seq<Result<(), core::fmt::Error>>,
    after: Seq<Result<(), core::fmt::Error>>,
    count: int,
    done: Result<(), core::fmt::Error>,
) -> bool {
    &&& count >= 0
    &&& after.len() == before.len() + count
    &&& after.take(before.len() as int) == before
    &&& forall|at: int| before.len() <= at < after.len() - 1 ==> (#[trigger] after[at]) is Ok
    &&& done is Err ==> count >= 1 && after.last() == done
    &&& done is Ok ==> forall|at: int|
        before.len() <= at < after.len() ==> (#[trigger] after[at]) is Ok
}

/// How a pane and the result stand after a request for line `line` of
/// `lines`. Where there is such a line, the pane has been handed that line
/// and a newline in one write, and the result is what the sink answered to
/// it. Where there is none, the pane is left untouched, and that is a
/// success.
pub open spec fn line_written<S, W>(
    before: Pane<'_, S, W>,
    after: Pane<'_, S, W>,
    lines: Seq<Seq<char>>,
    line: usize,
    done: Result<(), core::fmt::Error>,
) -> bool {
    if line < lines.len() {
        &&& after.handed() == before.handed() + lines[line as int].push('\n')
        &&& after.answers() == before.answers().push(done)
    } else {
        done is Ok && after == before
    }
}

/// How a pane and the result stand after the first `count` of `lines` were
/// written to it, one write for each line and its newline, and the writing
/// stopped there: because the sink refused the last of them, which is then
/// the result, or because there were no more lines, which is a success.
pub open spec fn written_through<S, W>(
    before: Pane<'_, S, W>,
    after: Pane<'_, S, W>,
    lines: Seq<Seq<char>>,
    count: int,
    done: Result<(), core::fmt::Error>,
) -> bool {
    &&& 0 <= count <= lines.len()
    &&& stopped_after(before.answers(), after.answers(), count, done)
    &&& after.handed() == before.handed() + joined(lines.take(count))
    &&& done is Ok ==> count == lines.len()
}

/// How a pane and the result stand after a request for all of `lines`: the
/// lines were written in order up to the first one that the sink refused,
/// whose refusal is the result, or all of them were written and accepted,
/// which is a success. Without any line the pane is left untouched.
pub open spec fn lines_written<S, W>(
    before: Pane<'_, S, W>,
    after: Pane<'_, S, W>,
    lines: Seq<Seq<char>>,
    done: Result<(), core::fmt::Error>,
) -> bool {
    &&& exists|count: int| #[trigger] written_through(before, after, lines, count, done)
    &&& lines.len() == 0 ==> after == before
}

/// How a pane and the result stand after a request for line `line` of an
/// entity, given what the rendering of the entity answered and the lines
/// that it left in the buffer. A failed rendering is passed on as it is and
/// leaves the pane untouched. After a rendering that went well the line is
/// written as [`line_written`] says.
pub open spec fn line_rendered<S, W>(
    before: Pane<'_, S, W>,
    after: Pane<'_, S, W>,
    rendering: Result<(), core::fmt::Error>,
    lines: Seq<Seq<char>>,
    line: usize,
    done: Result<(), core::fmt::Error>,
) -> bool {
    match rendering {
        Err(failure) => done == Err::<(), core::fmt::Error>(failure) && after == before,
        Ok(_) => line_written(before, after, lines, line, done),
    }
}

/// How a pane and the result stand after a request for `lines`, the lines
/// of an entity that a range selects, given what the rendering of the entity
/// answered. A failed rendering is passed on as it is and leaves the pane
/// untouched. After a rendering that went well the lines are written as
/// [`lines_written`] says.
pub open spec fn range_rendered<S, W>(
    before: Pane<'_, S, W>,
    after: Pane<'_, S, W>,
    rendering: Result<(), core::fmt::Error>,
    lines: Seq<Seq<char>>,
    done: Result<(), core::fmt::Error>,
) -> bool {
    match rendering {
        Err(failure) => done == Err::<(), core::fmt::Error>(failure) && after == before,
        Ok(_) => lines_written(before, after, lines, done),
    }
}

/// With a sink that accepts every write, a request for lines succeeds and
/// hands every one of them to the pane.
pub proof fn lemma_accepted_writes_succeed<S, W>(
    before: Pane<'_, S, W>,
    after: Pane<'_, S, W>,
    lines: Seq<Seq<char>>,
    done: Result<(), core::fmt::Error>,
)
    requires
        lines_written(before, after, lines, done),
        forall|at: int|
            before.answers().len() <= at < after.answers().len() ==> (
            #[trigger] after.answers()[at]) is Ok,
    ensures
        done is Ok,
        after.handed() == before.handed() + joined(lines),
        after.answers().len() == before.answers().len() + lines.len(),
{
    let count = choose|count: int| #[trigger] written_through(before, after, lines, count, done);
    assert(lines.take(count) == lines);
}

/// The first write that the sink refuses is the last one that is made, and
/// its refusal is what the request returns.
pub proof fn lemma_first_refusal_is_returned<S, W>(
    before: Pane<'_, S, W>,
    after: Pane<'_, S, W>,
    lines: Seq<Seq<char>>,
    done: Result<(), core::fmt::Error>,
    at: int,
)
    requires
        lines_written(before, after, lines, done),
        before.answers().len() <= at < after.answers().len(),
        after.answers()[at] is Err,
    ensures
        at == after.answers().len() - 1,
        done == after.answers()[at],
        after.handed() == before.handed() + joined(lines.take(at - before.answers().len() + 1)),
{
}

/// A request for the range that holds the one position `line` comes to the
/// same as a request for line `line`: the same text is handed to the pane,
/// and the result is the same answer of the sink.
pub proof fn lemma_range_of_one_line<S, W>(
    before: Pane<'_, S, W>,
    after: Pane<'_, S, W>,
    lines: Seq<Seq<char>>,
    line: usize,
    start: Bound<usize>,
    end: Bound<usize>,
    done: Result<(), core::fmt::Error>,
)
    requires
        start_index(start) == line,
        end_count(end) == Some(line + 1),
    ensures
        lines_written(before, after, extracted(lines, start, end), done) <==> line_written(
            before,
            after,
            lines,
            line,
            done,
        ),
{
    let one = extracted(lines, start, end);
    if line < lines.len() {
        assert(one == seq![lines[line as int]]);
        assert(one.take(1) == one);
        assert(one.drop_last() == Seq::<Seq<char>>::empty());
        assert(joined(one) == lines[line as int].push('\n')) by {
            assert(joined(one.drop_last()) == Seq::<char>::empty());
            assert(one.last() == lines[line as int]);
        }
        if lines_written(before, after, one, done) {
            let count = choose|count: int| #[trigger]
                written_through(before, after, one, count, done);
            assert(count == 1);
            assert(after.answers().last() == done) by {
                if done is Ok {
                    assert(after.answers()[after.answers().len() - 1] is Ok);
                    assert(after.answers().last()->Ok_0 == done->Ok_0);
                }
            }
            assert forall|at: int| 0 <= at < before.answers().len() implies after.answers()[at]
                == before.answers()[at] by {
                assert(after.answers().take(before.answers().len() as int)[at]
                    == after.answers()[at]);
            }
            assert(after.answers() =~= before.answers().push(done));
        }
        if line_written(before, after, lines, line, done) {
            assert(after.answers().take(before.answers().len() as int) == before.answers());
            assert(written_through(before, after, one, 1, done));
        }
    } else {
        assert(one == Seq::<Seq<char>>::empty());
        if lines_written(before, after, one, done) {
            let count = choose|count: int| #[trigger]
                written_through(before, after, one, count, done);
            assert(count == 0);
        }
        if line_written(before, after, lines, line, done) {
            assert(one.take(0) == one);
            assert(after.answers().take(before.answers().len() as int) == before.answers());
            assert(written_through(before, after, one, 0, done));
        }
    }
}

/// Writes line `line` of `lines` to the pane, closed by a newline, and
/// returns what the sink answered. Where there is no such line the pane is
/// left untouched, which is no failure.
pub fn write_line_at<S, W: Write>(
    pane: &mut Pane<'_, S, W>,
    lines: &Vec<String>,
    line: usize,
) -> (done: Result<(), core::fmt::Error>)
    ensures
        final(pane).spec_shape() == old(pane).spec_shape(),
        line_written(*old(pane), *final(pane), texts(lines@), line, done),
{
    if line < lines.len() {
        pane.write_line(lines[line].as_str())
    } else {
        Ok(())
    }
}

/// Writes every line of `lines` to the pane in order, each closed by a
/// newline. The first refusal of the sink ends the writing and is returned;
/// without one the result is a success.
pub fn write_lines<S, W: Write>(
    pane: &mut Pane<'_, S, W>,
    lines: &Vec<String>,
) -> (done: Result<(), core::fmt::Error>)
    ensures
        final(pane).spec_shape() == old(pane).spec_shape(),
        lines_written(*old(pane), *final(pane), texts(lines@), done),
{
    let mut at: usize = 0;
    while at < lines.len()
        invariant
            at <= lines.len(),
            pane.spec_shape() == old(pane).spec_shape(),
            pane.handed() == old(pane).handed() + joined(texts(lines@).take(at as int)),
            pane.answers().len() == old(pane).answers().len() + at,
            pane.answers().take(old(pane).answers().len() as int) == old(pane).answers(),
            forall|i: int|
                old(pane).answers().len() <= i < pane.answers().len() ==> (
                #[trigger] pane.answers()[i]) is Ok,
            at == 0 ==> *pane == *old(pane),
        decreases lines.len() - at,
    {
        let ghost answered = pane.answers();
        let done = pane.write_line(lines[at].as_str());
        proof {
            let through = texts(lines@).take(at + 1);
            assert(through.drop_last() == texts(lines@).take(at as int));
            assert(through.last() == lines[at as int]@);
            assert(pane.handed() == old(pane).handed() + joined(through));
            assert(pane.answers().take(old(pane).answers().len() as int) == old(pane).answers());
            assert(forall|i: int| 0 <= i < answered.len() ==> pane.answers()[i] == answered[i]);
        }
        if let Err(refused) = done {
            proof {
                assert(written_through(
                    *old(pane),
                    *pane,
                    texts(lines@),
                    at + 1,
                    Err::<(), core::fmt::Error>(refused),
                ));
            }
            return Err(refused);
        }
        at = at + 1;
    }
    proof {
        assert(texts(lines@).take(at as int) == texts(lines@));
        assert(written_through(
            *old(pane),
            *pane,
            texts(lines@),
            at as int,
            Ok::<(), core::fmt::Error>(()),
        ));
    }
    Ok(())
}

/// Writes line `line` of the text `rendered` to the pane, closed by a
/// newline, and returns what the sink answered. Where the text has no such
/// line the pane is left untouched, which is no failure.
pub fn write_rendered_line<S, W: Write>(
    pane: &mut Pane<'_, S, W>,
    rendered: &str,
    line: usize,
) -> (done: Result<(), core::fmt::Error>)
    ensures
        final(pane).spec_shape() == old(pane).spec_shape(),
        line_written(*old(pane), *final(pane), lines_of(rendered@), line, done),
{
    let lines = split_lines(rendered);
    write_line_at(pane, &lines, line)
}

/// Writes the lines of the text `rendered` whose positions lie inside the
/// range to the pane, in order and each closed by a newline. The first
/// refusal of the sink ends the writing and is returned; without one the
/// result is a success.
pub fn write_rendered_range<S, W: Write>(
    pane: &mut Pane<'_, S, W>,
    rendered: &str,
    start: Bound<usize>,
    end: Bound<usize>,
) -> (done: Result<(), core::fmt::Error>)
    ensures
        final(pane).spec_shape() == old(pane).spec_shape(),
        lines_written(
            *old(pane),
            *final(pane),
            extracted(lines_of(rendered@), start, end),
            done,
        ),
{
    let lines = split_lines(rendered);
    let selected = get_range(lines.into_iter(), start, end);
    proof {
        assert(texts(selected@) == extracted(texts(lines@), start, end));
    }
    write_lines(pane, &selected)
}

/// Carries a request for line `line` on after the entity was rendered into
/// a buffer: `rendering` is what the rendering answered, and `rendered` what
/// the buffer then holds. A failed rendering is returned as it is; else the
/// line is written as [`write_rendered_line`] does.
pub fn write_line_after_render<S, W: Write>(
    pane: &mut Pane<'_, S, W>,
    rendering: Result<(), core::fmt::Error>,
    rendered: &str,
    line: usize,
) -> (done: Result<(), core::fmt::Error>)
    ensures
        final(pane).spec_shape() == old(pane).spec_shape(),
        line_rendered(*old(pane), *final(pane), rendering, lines_of(rendered@), line, done),
{
    match rendering {
        Err(failure) => Err(failure),
        Ok(_) => write_rendered_line(pane, rendered, line),
    }
}

/// Carries a request for a range of lines on after the entity was rendered
/// into a buffer: `rendering` is what the rendering answered, and `rendered`
/// what the buffer then holds. A failed rendering is returned as it is; else
/// the lines are written as [`write_rendered_range`] does.
pub fn write_range_after_render<S, W: Write>(
    pane: &mut Pane<'_, S, W>,
    rendering: Result<(), core::fmt::Error>,
    rendered: &str,
    start: Bound<usize>,
    end: Bound<usize>,
) -> (done: Result<(), core::fmt::Error>)
    ensures
        final(pane).spec_shape() == old(pane).spec_shape(),
        range_rendered(
            *old(pane),
            *final(pane),
            rendering,
            extracted(lines_of(rendered@), start, end),
            done,
        ),
{
    match rendering {
        Err(failure) => Err(failure),
        Ok(_) => write_rendered_range(pane, rendered, start, end),
    }
}

} // verus!
