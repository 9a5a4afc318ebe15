//! Closed, non-empty index ranges and their pairwise algebra.
//!
//! A [`Section`] is modelled by its first and last covered index, and by the
//! set of indices in between. Merging and subtraction are specified over
//! those endpoints; the laws at the end of the file restate them over sets.

use core::cmp::Ordering;
use vstd::prelude::*;
use vstd::std_specs::cmp::{PartialOrdSpec, PartialOrdSpecImpl};

verus! {

/// A closed, non-empty, contiguous range of indices.
///
/// The range starts at `offset` and covers `width + 1` indices, so the last
/// covered index is `offset + width`.
#[derive(Debug, Clone, Copy, PartialEq, Eq, Structural, Ord)]
pub struct Section {
    /// Index of where the section starts.
    offset: u16,
    /// Distance from the first to the last covered index.
    width: u16,
}

/// Outcome of subtracting one section from another.
#[derive(Debug, Clone, Copy, PartialEq, Eq, Structural)]
pub enum RemoveResult {
    /// Nothing of the section is left; its owner has to drop it.
    Consumed,
    /// The section now holds what is left of it, which may be all of it.
    RemovedPart,
    /// The section now holds what is left below the hole, and the carried
    /// section what is left above it.
    SplitOff(Section),
}

impl View for Section {
    type V = Set<int>;

    /// The covered indices.
    open spec fn view(&self) -> Set<int> {
        Set::new(|i: int| self.first() <= i <= self.last())
    }
}

/// Sections are ordered by their first index, and among those that start at
/// the same index the shorter one comes first.
impl PartialOrd for Section {
    fn partial_cmp(&self, other: &Self) -> (order: Option<Ordering>) {
        if self.offset < other.offset {
            Some(Ordering::Less)
        } else if self.offset > other.offset {
            Some(Ordering::Greater)
        } else if self.width < other.width {
            Some(Ordering::Less)
        } else if self.width > other.width {
            Some(Ordering::Greater)
        } else {
            Some(Ordering::Equal)
        }
    }
}

impl PartialOrdSpecImpl for Section {
    open spec fn obeys_partial_cmp_spec() -> bool {
        true
    }

    open spec fn partial_cmp_spec(&self, other: &Self) -> Option<Ordering> {
        if self.first() < other.first() {
            Some(Ordering::Less)
        } else if self.first() > other.first() {
            Some(Ordering::Greater)
        } else if self.last() < other.last() {
            Some(Ordering::Less)
        } else if self.last() > other.last() {
            Some(Ordering::Greater)
        } else {
            Some(Ordering::Equal)
        }
    }
}

impl Section {
    /// The first covered index.
    pub closed spec fn first(&self) -> int {
        self.offset as int
    }

    /// The last covered index.
    pub closed spec fn last(&self) -> int {
        self.offset + self.width
    }

    /// The number of covered indices.
    pub open spec fn count(&self) -> int {
        self.last() - self.first() + 1
    }

    /// The last covered index is representable in the index domain.
    pub open spec fn wf(&self) -> bool {
        self.last() <= u16::MAX
    }

    /// The two ranges share an index, or one ends right before the other
    /// starts.
    pub open spec fn touches(&self, other: &Section) -> bool {
        self.first() <= other.last() + 1 && other.first() <= self.last() + 1
    }

    /// The two ranges share an index.
    pub open spec fn overlaps(&self, other: &Section) -> bool {
        self.first() <= other.last() && other.first() <= self.last()
    }

    /// Every index of `self` is an index of `other`.
    pub open spec fn within(&self, other: &Section) -> bool {
        other.first() <= self.first() && self.last() <= other.last()
    }

    /// The containment test of [`Section::contains`]: `other` lies within
    /// `self` and starts later, or starts at the same index and ends earlier.
    pub open spec fn spec_contains(&self, other: &Section) -> bool {
        ||| self.first() < other.first() && other.last() <= self.last()
        ||| self.first() == other.first() && other.last() < self.last()
    }

    /// How `after` and `outcome` follow from subtracting `other` from `self`.
    pub open spec fn removal(
        &self,
        other: &Section,
        after: &Section,
        outcome: RemoveResult,
    ) -> bool {
        if self.within(other) {
            outcome is Consumed && after == self
        } else if self.first() < other.first() && other.last() < self.last() {
            &&& outcome matches RemoveResult::SplitOff(above)
            &&& after.first() == self.first()
            &&& after.last() == other.first() - 1
            &&& above.first() == other.last() + 1
            &&& above.last() == self.last()
        } else if !self.overlaps(other) {
            outcome is RemovedPart && after == self
        } else if other.first() <= self.first() {
            &&& outcome is RemovedPart
            &&& after.first() == other.last() + 1
            &&& after.last() == self.last()
        } else {
            &&& outcome is RemovedPart
            &&& after.first() == self.first()
            &&& after.last() == other.first() - 1
        }
    }

    /// Creates the section that covers `len` indices starting at `offset`.
    pub fn new(offset: u16, len: u16) -> (s: Self)
        requires
            len >= 1,
            offset + len - 1 <= u16::MAX,
        ensures
            s.wf(),
            s.first() == offset,
            s.last() == offset + len - 1,
            s.count() == len,
    {
        Self { offset, width: len - 1 }
    }

    /// The first covered index.
    pub fn offset(&self) -> (offset: u16)
        ensures
            offset == self.first(),
    {
        self.offset
    }

    /// The number of covered indices.
    pub fn len(&self) -> (len: u16)
        requires
            self.count() <= u16::MAX,
        ensures
            len == self.count(),
            len >= 1,
    {
        self.width + 1
    }

    /// Tells whether `other` lies inside `self`, where a section contains
    /// neither itself nor a section that starts before it.
    pub fn contains(&self, other: &Self) -> (inside: bool)
        requires
            self.wf(),
            other.wf(),
        ensures
            inside == self.spec_contains(other),
    {
        if self.offset < other.offset {
            self.offset + self.width >= other.offset + other.width
        } else if self.offset == other.offset {
            self.width > other.width
        } else {
            false
        }
    }

    /// Merges `other` into `self` where the two overlap or are adjacent, and
    /// says whether it did. Otherwise `self` stays as it is.
    pub fn add_section(&mut self, other: &Self) -> (merged: bool)
        requires
            old(self).wf(),
            other.wf(),
        ensures
            final(self).wf(),
            merged == old(self).touches(other),
            merged ==> final(self).first() == vstd::math::min(old(self).first(), other.first()),
            merged ==> final(self).last() == vstd::math::max(old(self).last(), other.last()),
            merged ==> final(self)@ == old(self)@.union(other@),
            !merged ==> *final(self) == *old(self),
    {
        let ghost before = *self;
        let end: u16 = self.offset + self.width;
        let other_end: u16 = other.offset + other.width;
        let merged = if self.offset < other.offset {
            // `other` starts later: it is connected if it starts no later
            // than right behind the end of `self`.
            if end >= other.offset - 1 {
                if other_end > end {
                    self.width = other_end - self.offset;
                }
                true
            } else {
                false
            }
        } else if self.offset == other.offset {
            if other.width > self.width {
                self.width = other.width;
            }
            true
        } else {
            if other_end >= self.offset - 1 {
                let last: u16 = if end > other_end { end } else { other_end };
                self.width = last - other.offset;
                self.offset = other.offset;
                true
            } else {
                false
            }
        };
        proof {
            if merged {
                lemma_merge_is_union(before, *other, *self);
            }
        }
        merged
    }

    /// Subtracts the range of `other` from `self`.
    ///
    /// `self` keeps what is left of it. Where `other` cuts a hole into it,
    /// `self` keeps the part below the hole and the part above it is returned.
    pub fn remove_section(&mut self, other: &Self) -> (outcome: RemoveResult)
        requires
            old(self).wf(),
            other.wf(),
        ensures
            final(self).wf(),
            old(self).removal(other, final(self), outcome),
            outcome matches RemoveResult::SplitOff(above) ==> above.wf(),
            remainder(final(self), outcome) == old(self)@.difference(other@),
    {
        let ghost before = *self;
        let end: u16 = self.offset + self.width;
        let other_end: u16 = other.offset + other.width;
        let outcome = if self.offset < other.offset {
            if end <= other_end {
                if end >= other.offset {
                    // The last index left is the one before `other` starts.
                    self.width = other.offset - self.offset - 1;
                }
                RemoveResult::RemovedPart
            } else {
                let offset: u16 = other_end + 1;
                let above = Section { offset, width: end - offset };
                self.width = other.offset - self.offset - 1;
                RemoveResult::SplitOff(above)
            }
        } else if end <= other_end {
            RemoveResult::Consumed
        } else {
            if other_end >= self.offset {
                // What is left begins just after the last index of `other`,
                // and ends where it ended.
                let offset: u16 = other_end + 1;
                self.width = end - offset;
                self.offset = offset;
            }
            RemoveResult::RemovedPart
        };
        proof {
            lemma_removal_keeps_difference(before, *other, *self, outcome);
        }
        outcome
    }
}

/// What is left of a section after a subtraction: the indices of the section
/// as it stands afterwards, together with those of the part that was split
/// off, and nothing at all where the section was consumed.
pub open spec fn remainder(after: &Section, outcome: RemoveResult) -> Set<int> {
    match outcome {
        RemoveResult::Consumed => Set::empty(),
        RemoveResult::RemovedPart => after@,
        RemoveResult::SplitOff(above) => after@.union(above@),
    }
}

/// Two sections with the same first and the same last index are the same
/// section.
pub proof fn lemma_ends_determine(a: Section, b: Section)
    requires
        a.first() == b.first(),
        a.last() == b.last(),
    ensures
        a == b,
{
}

/// The order of sections is total and agrees with their equality: two
/// sections compare as equal only if they are the same section, and one
/// comes before the other exactly if the other comes behind it.
pub proof fn lemma_order_is_total(a: Section, b: Section)
    ensures
        PartialOrdSpec::partial_cmp_spec(&a, &b) is Some,
        PartialOrdSpec::partial_cmp_spec(&a, &b) == Some(Ordering::Equal) <==> a == b,
        PartialOrdSpec::partial_cmp_spec(&a, &b) == Some(Ordering::Less)
            <==> PartialOrdSpec::partial_cmp_spec(&b, &a) == Some(Ordering::Greater),
{
    if a.first() == b.first() && a.last() == b.last() {
        lemma_ends_determine(a, b);
    }
}

/// A section covers its first index, its last index, and as many indices as
/// its count says.
pub proof fn lemma_view_spans_ends(s: Section)
    ensures
        s@.contains(s.first()),
        s@.contains(s.last()),
        s.first() <= s.last(),
        s.count() >= 1,
        forall|i: int| s@.contains(i) <==> s.first() <= i <= s.last(),
{
}

/// A section that starts behind another one never contains it.
pub proof fn lemma_contains_never_from_behind(s: Section, other: Section)
    requires
        s.first() > other.first(),
    ensures
        !s.spec_contains(&other),
{
}

/// A section never contains a section that ends behind it, wherever that
/// one starts.
pub proof fn lemma_contains_needs_the_end_inside(s: Section, other: Section)
    requires
        other.last() > s.last(),
    ensures
        !s.spec_contains(&other),
{
}

/// Of two sections with the same first index and the same length, neither
/// contains the other.
pub proof fn lemma_contains_excludes_equal(s: Section, other: Section)
    requires
        s.first() == other.first(),
        s.count() == other.count(),
    ensures
        !s.spec_contains(&other),
        !other.spec_contains(&s),
{
}

/// A section covers every index of a section it contains, and differs from
/// it.
pub proof fn lemma_contains_is_strict_inclusion(s: Section, other: Section)
    requires
        s.spec_contains(&other),
    ensures
        other@.subset_of(s@),
        s@ != other@,
        !other.spec_contains(&s),
{
    assert(s@.contains(s.first()) && s@.contains(s.last()));
    assert(!other@.contains(s.first()) || !other@.contains(s.last()));
}

/// Two sections touch exactly if between them no index is left uncovered:
/// every index from the lower of the two first indices to the higher of the
/// two last indices belongs to one of them.
pub proof fn lemma_touches_means_no_gap(a: Section, b: Section)
    ensures
        a.touches(&b) <==> forall|i: int|
            vstd::math::min(a.first(), b.first()) <= i <= vstd::math::max(a.last(), b.last())
                ==> a@.contains(i) || b@.contains(i),
{
    if !a.touches(&b) {
        if a.last() + 1 < b.first() {
            let gap = a.last() + 1;
            assert(!a@.contains(gap) && !b@.contains(gap));
        } else {
            let gap = b.last() + 1;
            assert(!a@.contains(gap) && !b@.contains(gap));
        }
    }
}

/// Merging two sections that overlap or are adjacent yields their union:
/// the section from the lower first index to the higher last index covers
/// what the two cover together, and nothing else.
pub proof fn lemma_merge_is_union(a: Section, b: Section, merged: Section)
    requires
        a.touches(&b),
        merged.first() == vstd::math::min(a.first(), b.first()),
        merged.last() == vstd::math::max(a.last(), b.last()),
    ensures
        merged@ == a@.union(b@),
{
    assert(merged@ =~= a@.union(b@));
}

/// Subtraction neither gains an index nor loses one outside the subtracted
/// range: what is left of a section, the part that was split off included,
/// covers exactly the indices of the section that `other` does not cover.
pub proof fn lemma_removal_keeps_difference(
    s: Section,
    other: Section,
    after: Section,
    outcome: RemoveResult,
)
    requires
        s.removal(&other, &after, outcome),
    ensures
        remainder(&after, outcome) == s@.difference(other@),
{
    assert(remainder(&after, outcome) =~= s@.difference(other@));
}

/// The two parts that a split leaves are apart: the part above the hole
/// starts at least two indices behind the end of the part below it.
pub proof fn lemma_split_parts_are_apart(
    s: Section,
    other: Section,
    after: Section,
    outcome: RemoveResult,
)
    requires
        s.removal(&other, &after, outcome),
        outcome is SplitOff,
    ensures
        after.last() + 1 < outcome->SplitOff_0.first(),
        !after.touches(&outcome->SplitOff_0),
        after@.disjoint(outcome->SplitOff_0@),
{
}

/// Subtracting a section from itself consumes it.
pub proof fn lemma_removal_of_itself_consumes(s: Section, after: Section, outcome: RemoveResult)
    requires
        s.removal(&s, &after, outcome),
    ensures
        outcome is Consumed,
{
}

/// A subtraction consumes the section exactly if `other` covers all of it,
/// and splits it exactly if `other` lies strictly inside it.
pub proof fn lemma_removal_outcomes(
    s: Section,
    other: Section,
    after: Section,
    outcome: RemoveResult,
)
    requires
        s.removal(&other, &after, outcome),
    ensures
        outcome is Consumed <==> s@.subset_of(other@),
        outcome is SplitOff <==> s.first() < other.first() && other.last() < s.last(),
        !s.overlaps(&other) ==> after == s && outcome is RemovedPart,
{
    if s@.subset_of(other@) {
        assert(s@.contains(s.first()) && s@.contains(s.last()));
    }
}

} // verus!
