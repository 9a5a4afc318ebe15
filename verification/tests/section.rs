use panes::window::pane::section::{RemoveResult, Section};
use std::cmp::Ordering;
use std::collections::BTreeSet;

fn indices(s: &Section) -> BTreeSet<u32> {
    let first = u32::from(s.offset());
    (first..first + u32::from(s.len())).collect()
}

#[test]
fn new_keeps_offset_and_len() {
    let s = Section::new(3, 4);
    assert_eq!(s.offset(), 3);
    assert_eq!(s.len(), 4);
    assert_eq!(indices(&s), BTreeSet::from([3, 4, 5, 6]));
}

#[test]
fn new_reaches_the_end_of_the_domain() {
    let last = Section::new(u16::MAX, 1);
    assert_eq!(last.offset(), u16::MAX);
    assert_eq!(last.len(), 1);
    let wide = Section::new(1, u16::MAX);
    assert_eq!(wide.offset(), 1);
    assert_eq!(wide.len(), u16::MAX);
}

#[test]
fn len_is_at_least_one() {
    assert_eq!(Section::new(0, 1).len(), 1);
}

#[test]
fn contains_a_section_that_starts_later_and_ends_inside() {
    let outer = Section::new(2, 10);
    assert!(outer.contains(&Section::new(3, 2)));
    assert!(outer.contains(&Section::new(3, 9)));
    assert!(!outer.contains(&Section::new(3, 10)));
    assert!(!outer.contains(&Section::new(20, 1)));
}

#[test]
fn contains_never_from_behind() {
    let inner = Section::new(5, 2);
    assert!(!inner.contains(&Section::new(4, 1)));
    assert!(!inner.contains(&Section::new(4, 10)));
    assert!(!Section::new(5, 100).contains(&Section::new(4, 3)));
}

#[test]
fn contains_excludes_the_equal_section() {
    let a = Section::new(7, 3);
    let b = Section::new(7, 3);
    assert!(!a.contains(&b));
    assert!(!b.contains(&a));
}

#[test]
fn contains_at_the_same_offset_needs_more_length() {
    let long = Section::new(7, 4);
    let short = Section::new(7, 3);
    assert!(long.contains(&short));
    assert!(!short.contains(&long));
}

#[test]
fn add_section_merges_overlapping_sections() {
    let mut s = Section::new(2, 5);
    assert!(s.add_section(&Section::new(4, 10)));
    assert_eq!(s, Section::new(2, 12));

    let mut s = Section::new(4, 10);
    assert!(s.add_section(&Section::new(2, 5)));
    assert_eq!(s, Section::new(2, 12));
}

#[test]
fn add_section_merges_adjacent_sections() {
    let mut s = Section::new(0, 5);
    assert!(s.add_section(&Section::new(5, 3)));
    assert_eq!(s, Section::new(0, 8));

    let mut s = Section::new(5, 3);
    assert!(s.add_section(&Section::new(0, 5)));
    assert_eq!(s, Section::new(0, 8));
}

#[test]
fn add_section_keeps_the_longer_of_two_at_one_offset() {
    let mut s = Section::new(3, 2);
    assert!(s.add_section(&Section::new(3, 6)));
    assert_eq!(s, Section::new(3, 6));

    let mut s = Section::new(3, 6);
    assert!(s.add_section(&Section::new(3, 2)));
    assert_eq!(s, Section::new(3, 6));
}

#[test]
fn add_section_keeps_a_section_that_covers_the_other() {
    let mut s = Section::new(1, 20);
    assert!(s.add_section(&Section::new(5, 2)));
    assert_eq!(s, Section::new(1, 20));

    let mut s = Section::new(5, 2);
    assert!(s.add_section(&Section::new(1, 20)));
    assert_eq!(s, Section::new(1, 20));
}

#[test]
fn add_section_refuses_across_a_gap() {
    let mut s = Section::new(0, 5);
    assert!(!s.add_section(&Section::new(6, 3)));
    assert_eq!(s, Section::new(0, 5));

    let mut s = Section::new(6, 3);
    assert!(!s.add_section(&Section::new(0, 5)));
    assert_eq!(s, Section::new(6, 3));
}

#[test]
fn add_section_at_the_end_of_the_domain() {
    let mut s = Section::new(u16::MAX - 4, 5);
    assert!(s.add_section(&Section::new(u16::MAX, 1)));
    assert_eq!(s, Section::new(u16::MAX - 4, 5));

    let mut s = Section::new(u16::MAX, 1);
    assert!(s.add_section(&Section::new(u16::MAX - 1, 1)));
    assert_eq!(s, Section::new(u16::MAX - 1, 2));

    let mut s = Section::new(0, 1);
    assert!(!s.add_section(&Section::new(u16::MAX, 1)));
    assert_eq!(s, Section::new(0, 1));
}

#[test]
fn subtracting_itself_consumes() {
    let mut s = Section::new(3, 4);
    let o = Section::new(3, 4);
    assert_eq!(s.remove_section(&o), RemoveResult::Consumed);
}

#[test]
fn remove_section_consumes_what_is_covered() {
    let mut s = Section::new(5, 3);
    assert_eq!(s.remove_section(&Section::new(2, 10)), RemoveResult::Consumed);

    let mut s = Section::new(5, 3);
    assert_eq!(s.remove_section(&Section::new(5, 4)), RemoveResult::Consumed);

    let mut s = Section::new(5, 3);
    assert_eq!(s.remove_section(&Section::new(4, 4)), RemoveResult::Consumed);
}

#[test]
fn remove_section_trims_the_right_side() {
    let mut s = Section::new(2, 8);
    assert_eq!(s.remove_section(&Section::new(6, 10)), RemoveResult::RemovedPart);
    assert_eq!(s, Section::new(2, 4));

    let mut s = Section::new(2, 8);
    assert_eq!(s.remove_section(&Section::new(9, 1)), RemoveResult::RemovedPart);
    assert_eq!(s, Section::new(2, 7));
}

#[test]
fn remove_section_trims_the_left_side() {
    let mut s = Section::new(5, 10);
    assert_eq!(s.remove_section(&Section::new(5, 3)), RemoveResult::RemovedPart);
    assert_eq!(s, Section::new(8, 7));

    let mut s = Section::new(5, 10);
    assert_eq!(s.remove_section(&Section::new(2, 6)), RemoveResult::RemovedPart);
    assert_eq!(s, Section::new(8, 7));

    let mut s = Section::new(5, 10);
    assert_eq!(s.remove_section(&Section::new(0, 6)), RemoveResult::RemovedPart);
    assert_eq!(s, Section::new(6, 9));
}

#[test]
fn remove_section_splits_around_a_hole() {
    let mut s = Section::new(10, 11);
    let outcome = s.remove_section(&Section::new(13, 3));
    assert_eq!(outcome, RemoveResult::SplitOff(Section::new(16, 5)));
    assert_eq!(s, Section::new(10, 3));

    let mut s = Section::new(0, 10);
    let outcome = s.remove_section(&Section::new(1, 8));
    assert_eq!(outcome, RemoveResult::SplitOff(Section::new(9, 1)));
    assert_eq!(s, Section::new(0, 1));
}

#[test]
fn remove_section_leaves_a_disjoint_section_alone() {
    let mut s = Section::new(10, 11);
    assert_eq!(s.remove_section(&Section::new(0, 6)), RemoveResult::RemovedPart);
    assert_eq!(s, Section::new(10, 11));

    let mut s = Section::new(10, 11);
    assert_eq!(s.remove_section(&Section::new(0, 10)), RemoveResult::RemovedPart);
    assert_eq!(s, Section::new(10, 11));

    let mut s = Section::new(10, 11);
    assert_eq!(s.remove_section(&Section::new(21, 4)), RemoveResult::RemovedPart);
    assert_eq!(s, Section::new(10, 11));
}

#[test]
fn remove_section_at_the_end_of_the_domain() {
    let mut s = Section::new(u16::MAX - 9, 10);
    assert_eq!(s.remove_section(&Section::new(u16::MAX, 1)), RemoveResult::RemovedPart);
    assert_eq!(s, Section::new(u16::MAX - 9, 9));

    let mut s = Section::new(u16::MAX - 9, 10);
    let outcome = s.remove_section(&Section::new(u16::MAX - 1, 1));
    assert_eq!(outcome, RemoveResult::SplitOff(Section::new(u16::MAX, 1)));
    assert_eq!(s, Section::new(u16::MAX - 9, 8));
}

#[test]
fn remove_section_keeps_exactly_the_difference() {
    let domain: u16 = 7;
    for offset in 0..domain {
        for len in 1..=domain - offset {
            for other_offset in 0..domain {
                for other_len in 1..=domain - other_offset {
                    let before = Section::new(offset, len);
                    let other = Section::new(other_offset, other_len);
                    let mut s = before;
                    let left: BTreeSet<u32> = match s.remove_section(&other) {
                        RemoveResult::Consumed => BTreeSet::new(),
                        RemoveResult::RemovedPart => indices(&s),
                        RemoveResult::SplitOff(above) => {
                            assert!(s.offset() < above.offset());
                            indices(&s).union(&indices(&above)).copied().collect()
                        }
                    };
                    let expected: BTreeSet<u32> =
                        indices(&before).difference(&indices(&other)).copied().collect();
                    assert_eq!(left, expected);
                }
            }
        }
    }
}

#[test]
fn add_section_yields_the_union_or_nothing() {
    let domain: u16 = 7;
    for offset in 0..domain {
        for len in 1..=domain - offset {
            for other_offset in 0..domain {
                for other_len in 1..=domain - other_offset {
                    let before = Section::new(offset, len);
                    let other = Section::new(other_offset, other_len);
                    let mut s = before;
                    let union: BTreeSet<u32> =
                        indices(&before).union(&indices(&other)).copied().collect();
                    let low = *union.first().unwrap();
                    let high = *union.last().unwrap();
                    let gapless = (low..=high).all(|i| union.contains(&i));
                    assert_eq!(s.add_section(&other), gapless);
                    if gapless {
                        assert_eq!(indices(&s), union);
                    } else {
                        assert_eq!(s, before);
                    }
                }
            }
        }
    }
}

#[test]
fn sections_order_by_offset_then_length() {
    assert!(Section::new(1, 9) < Section::new(2, 1));
    assert!(Section::new(2, 1) < Section::new(2, 2));
    assert!(Section::new(2, 2) > Section::new(2, 1));
    assert!(Section::new(2, 2) <= Section::new(2, 2));
    assert_eq!(Section::new(2, 2).partial_cmp(&Section::new(2, 2)), Some(Ordering::Equal));
    assert_eq!(Section::new(1, 9).cmp(&Section::new(2, 1)), Ordering::Less);
    assert_eq!(Section::new(2, 3).cmp(&Section::new(2, 1)), Ordering::Greater);

    let sorted: BTreeSet<Section> =
        [Section::new(8, 1), Section::new(0, 3), Section::new(0, 2)].into_iter().collect();
    let order: Vec<Section> = sorted.into_iter().collect();
    assert_eq!(order, vec![Section::new(0, 2), Section::new(0, 3), Section::new(8, 1)]);
}
