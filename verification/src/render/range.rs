//! Extraction of a range of positions from a source that is read once.
//!
//! A range is given by its two bounds. [`RangeCursor`] takes the items of
//! the range from an iterator one at a time, and [`get_range`] collects them
//! all.

use core::ops::Bound;
use vstd::prelude::*;
use vstd::std_specs::iter::IteratorSpec;

verus! {

/// Makes `core::ops::Bound` known to Verus, which reads the three variants
/// from the definition in `core` itself.
#[verifier::external_type_specification]
#[verifier::reject_recursive_types(T)]
pub struct ExBound<T>(Bound<T>);

/// The first position that a range with this start bound selects.
pub open spec fn start_index(start: Bound<usize>) -> int {
    match start {
        Bound::Included(n) => n as int,
        Bound::Excluded(n) => n + 1,
        Bound::Unbounded => 0,
    }
}

/// The number of leading positions that lie before the end bound, where the
/// range has an end.
pub open spec fn end_count(end: Bound<usize>) -> Option<int> {
    match end {
        Bound::Included(n) => Some(n + 1),
        Bound::Excluded(n) => Some(n as int),
        Bound::Unbounded => None,
    }
}

/// Position `at` lies inside the range.
pub open spec fn in_range(at: int, start: Bound<usize>, end: Bound<usize>) -> bool {
    &&& start_index(start) <= at
    &&& end_count(end) matches Some(count) ==> at < count
}

/// The items of `items` whose positions lie inside the range, in order.
pub open spec fn extracted<T>(items: Seq<T>, start: Bound<usize>, end: Bound<usize>) -> Seq<T> {
    let kept = match end_count(end) {
        Some(count) => vstd::math::min(count, items.len() as int),
        None => items.len() as int,
    };
    let from = vstd::math::min(start_index(start), kept);
    items.subrange(from, kept)
}

/// The state of one pass over a source of items, from which the items of a
/// range are taken one at a time: how many items are still to be passed
/// over, and how many may still be read at all.
pub struct RangeCursor {
    to_skip: u128,
    left: Option<u128>,
}

impl RangeCursor {
    /// The number of items that are passed over before the next one is
    /// handed out.
    pub closed spec fn skip_left(&self) -> int {
        self.to_skip as int
    }

    /// The number of items that may still be read from the source, where the
    /// range has an end.
    pub closed spec fn read_left(&self) -> Option<int> {
        match self.left {
            Some(n) => Some(n as int),
            None => None,
        }
    }

    /// The number of items that the cursor still reads from a source that
    /// has `available` items left.
    pub open spec fn reach(&self, available: nat) -> int {
        match self.read_left() {
            Some(count) => vstd::math::min(count, available as int),
            None => available as int,
        }
    }

    /// The items that the cursor still hands out from a source that has
    /// `items` left.
    pub open spec fn selects<T>(&self, items: Seq<T>) -> Seq<T> {
        let reach = self.reach(items.len());
        items.subrange(vstd::math::min(self.skip_left(), reach), reach)
    }

    /// The cursor after it has read `count` more items, of which it passed
    /// over `skipped`.
    pub open spec fn advanced(&self, later: &RangeCursor, count: int, skipped: int) -> bool {
        &&& later.skip_left() == self.skip_left() - skipped
        &&& later.read_left() == match self.read_left() {
            Some(left) => Some(left - count),
            None => None,
        }
    }

    /// The cursor at the start of a pass that is to select the positions
    /// inside the range.
    pub fn new(start: Bound<usize>, end: Bound<usize>) -> (cursor: Self)
        ensures
            cursor.skip_left() == start_index(start),
            cursor.read_left() == end_count(end),
    {
        let to_skip: u128 = match start {
            Bound::Included(n) => n as u128,
            Bound::Excluded(n) => n as u128 + 1,
            Bound::Unbounded => 0,
        };
        let left: Option<u128> = match end {
            Bound::Included(n) => Some(n as u128 + 1),
            Bound::Excluded(n) => Some(n as u128),
            Bound::Unbounded => None,
        };
        Self { to_skip, left }
    }

    /// Reads on in `source` up to the next item of the range and hands it
    /// out, or hands out nothing once the range or the source is exhausted.
    ///
    /// The source is read front to back, one item at a time, and never
    /// beyond the end of the range. What is said of the items holds of a
    /// source that obeys what Verus specifies of `next`.
    pub fn next_from<I: Iterator>(&mut self, source: &mut I) -> (item: Option<I::Item>)
        ensures
            // What holds of the cursor, whatever the source is.
            final(self).skip_left() >= 0,
            final(self).read_left() matches Some(left) ==> left >= 0,
            item is Some ==> old(self).advanced(
                final(self),
                old(self).skip_left() + 1,
                old(self).skip_left(),
            ),
            item is None ==> final(self).skip_left() <= old(self).skip_left() && old(self).advanced(
                final(self),
                old(self).skip_left() - final(self).skip_left(),
                old(self).skip_left() - final(self).skip_left(),
            ),
            // What holds of the items, with a source that obeys the laws.
            (*final(source)).obeys_prophetic_iter_laws()
                == (*old(source)).obeys_prophetic_iter_laws(),
            (*old(source)).obeys_prophetic_iter_laws() ==> {
                let items = (*old(source)).remaining();
                let skip = old(self).skip_left();
                let reach = old(self).reach(items.len());
                if skip < reach {
                    &&& item == Some(items[skip])
                    &&& (*final(source)).remaining() == items.skip(skip + 1)
                } else {
                    &&& item is None
                    &&& (*final(source)).remaining() == items.skip(reach)
                    &&& final(self).skip_left() == skip - reach
                }
            },
            (*old(source)).obeys_prophetic_iter_laws() ==> {
                &&& (*old(source)).decrease() is Some <==> (*final(source)).decrease() is Some
                &&& item is Some && (*old(source)).decrease() is Some
                    ==> (*final(source)).decrease()->0 < (*old(source)).decrease()->0
            },
    {
        let ghost items = (*source).remaining();
        let ghost mut seen: int = 0;
        loop
            invariant
                items == (*old(source)).remaining(),
                0 <= seen <= old(self).skip_left(),
                old(self).read_left() matches Some(count) ==> seen <= count,
                old(self).advanced(self, seen, seen),
                (*source).obeys_prophetic_iter_laws()
                    == (*old(source)).obeys_prophetic_iter_laws(),
                (*source).obeys_prophetic_iter_laws() ==> {
                    &&& seen <= items.len()
                    &&& (*source).remaining() == items.skip(seen)
                    &&& ((*old(source)).decrease() is Some <==> (*source).decrease() is Some)
                    &&& (*old(source)).decrease() is Some
                        ==> (*source).decrease()->0 <= (*old(source)).decrease()->0
                },
            decreases self.to_skip,
        {
            // The count is tested before it is taken from, so that it never
            // goes below zero.
            if let Some(n) = self.left {
                if n == 0 {
                    return None;
                }
            }
            match source.next() {
                None => {
                    return None;
                },
                Some(item) => {
                    proof {
                        if (*source).obeys_prophetic_iter_laws() {
                            assert(items.skip(seen)[0] == items[seen]);
                            assert(items.skip(seen).drop_first() == items.skip(seen + 1));
                        }
                    }
                    if let Some(n) = self.left {
                        self.left = Some(n - 1);
                    }
                    if self.to_skip == 0 {
                        return Some(item);
                    }
                    self.to_skip = self.to_skip - 1;
                    proof {
                        seen = seen + 1;
                    }
                },
            }
        }
    }
}

/// The positions inside a range are those that a cursor for the range
/// selects.
pub proof fn lemma_cursor_selects_the_range<T>(
    cursor: RangeCursor,
    items: Seq<T>,
    start: Bound<usize>,
    end: Bound<usize>,
)
    requires
        cursor.skip_left() == start_index(start),
        cursor.read_left() == end_count(end),
    ensures
        cursor.selects(items) == extracted(items, start, end),
{
}

/// The number of items that a range selects at most, whatever the source
/// holds: those between its first position and its end, where it has an
/// end.
pub open spec fn range_limit(start: Bound<usize>, end: Bound<usize>) -> Option<int> {
    match end_count(end) {
        Some(count) => Some(vstd::math::max(count - start_index(start), 0)),
        None => None,
    }
}

/// Gets a range of items from an iterator, reading it once, front to back,
/// and no further than the end of the range.
///
/// A range with an end is taken from any iterator, also from one that never
/// ends. A range without an end is read up to the end of the iterator, which
/// therefore has to be one that obeys what Verus specifies of `next` and
/// comes with a measure that says that it ends. Which items come out is
/// said of an iterator that obeys that; of any other, only how many there
/// are at most.
pub fn get_range<I: Iterator>(
    iterator: I,
    start: Bound<usize>,
    end: Bound<usize>,
) -> (selected: Vec<I::Item>)
    requires
        end_count(end) is None ==> iterator.obeys_prophetic_iter_laws()
            && iterator.decrease() is Some,
    ensures
        iterator.obeys_prophetic_iter_laws() ==> selected@ == extracted(
            iterator.remaining(),
            start,
            end,
        ),
        range_limit(start, end) matches Some(limit) ==> selected.len() <= limit,
{
    let mut source = iterator;
    let mut cursor = RangeCursor::new(start, end);
    let mut selected: Vec<I::Item> = Vec::new();
    loop
        invariant
            source.obeys_prophetic_iter_laws() == iterator.obeys_prophetic_iter_laws(),
            cursor.read_left() is None <==> end_count(end) is None,
            cursor.read_left() is None ==> source.obeys_prophetic_iter_laws()
                && source.decrease() is Some,
            cursor.skip_left() >= 0,
            cursor.read_left() matches Some(left) ==> left >= 0 && selected.len() + vstd::math::max(
                left - cursor.skip_left(),
                0,
            ) <= range_limit(start, end)->0,
            source.obeys_prophetic_iter_laws() ==> selected@ + cursor.selects(source.remaining())
                == extracted(iterator.remaining(), start, end),
        ensures
            iterator.obeys_prophetic_iter_laws() ==> selected@ == extracted(
                iterator.remaining(),
                start,
                end,
            ),
            range_limit(start, end) matches Some(limit) ==> selected.len() <= limit,
        decreases
            match cursor.read_left() {
                Some(left) => left,
                None => source.decrease()->0 as int,
            },
    {
        match cursor.next_from(&mut source) {
            Some(item) => {
                selected.push(item);
            },
            None => {
                break ;
            },
        }
    }
    selected
}

/// Range extraction selects by position: the items that come out are those
/// at the positions inside the range, in the order of the source, and no
/// position inside the range is left out.
pub proof fn lemma_extracted_by_position<T>(items: Seq<T>, start: Bound<usize>, end: Bound<usize>)
    ensures
        forall|at: int|
            0 <= at < extracted(items, start, end).len() ==> {
                &&& start_index(start) + at < items.len()
                &&& in_range(start_index(start) + at, start, end)
                &&& #[trigger] extracted(items, start, end)[at] == items[start_index(start) + at]
            },
        forall|at: int|
            0 <= at < items.len() && #[trigger] in_range(at, start, end)
                ==> at - start_index(start) < extracted(items, start, end).len(),
{
}

/// The range without bounds selects the whole sequence, unchanged.
pub proof fn lemma_extracted_unbounded<T>(items: Seq<T>)
    ensures
        extracted(items, Bound::Unbounded, Bound::Unbounded) == items,
{
}

/// A range that starts behind the last item selects nothing.
pub proof fn lemma_extracted_past_the_end<T>(items: Seq<T>, start: Bound<usize>, end: Bound<usize>)
    requires
        start_index(start) >= items.len(),
    ensures
        extracted(items, start, end) == Seq::<T>::empty(),
{
}

/// A range that only names a start selects the whole rest of the sequence.
pub proof fn lemma_extracted_open_end<T>(items: Seq<T>, start: Bound<usize>)
    requires
        start_index(start) <= items.len(),
    ensures
        extracted(items, start, Bound::Unbounded) == items.skip(start_index(start)),
{
}

} // verus!
