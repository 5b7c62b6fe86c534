use std::cmp::Ordering;
use tombi::text::{Offset, Position, Range, RelativePosition, Span};

fn range(start: (u32, u32), end: (u32, u32)) -> Range {
    Range::from_pairs(start, end)
}

#[test]
fn test_range_cmp_equal() {
    assert_eq!(
        range((1, 1), (1, 2)).partial_cmp(&range((1, 1), (1, 2))),
        Some(Ordering::Equal)
    );
    assert_eq!(range((1, 1), (1, 2)).cmp(&range((1, 1), (1, 2))), Ordering::Equal);
}

#[test]
fn test_range_cmp_less() {
    for other in [
        range((1, 1), (1, 3)),
        range((1, 2), (1, 2)),
        range((1, 2), (1, 3)),
        range((2, 1), (2, 2)),
    ] {
        assert_eq!(range((1, 1), (1, 2)).cmp(&other), Ordering::Less);
        assert_eq!(
            range((1, 1), (1, 2)).partial_cmp(&other),
            Some(Ordering::Less)
        );
        assert!(range((1, 1), (1, 2)) < other);
    }
}

#[test]
fn test_range_cmp_greater() {
    assert_eq!(
        range((1, 1), (1, 2)).cmp(&range((1, 1), (1, 1))),
        Ordering::Greater
    );
    assert_eq!(
        range((1, 1), (2, 1)).partial_cmp(&range((1, 1), (1, 1))),
        Some(Ordering::Greater)
    );
}

#[test]
fn test_add_assign_within_line() {
    let r = range((1, 1), (1, 2)).extended(RelativePosition::of("a"));
    assert_eq!(r, range((1, 1), (1, 3)));
}

#[test]
fn test_add_assign_line_break() {
    let r = range((1, 1), (1, 2)).extended(RelativePosition::of("a\n"));
    assert_eq!(r, range((1, 1), (2, 0)));
}

#[test]
fn test_add_assign_over_lines() {
    let r = range((1, 1), (1, 2)).extended(RelativePosition::of("a\nb"));
    assert_eq!(r, range((1, 1), (2, 1)));
}

#[test]
fn range_with_end_before_start_collapses() {
    let start = Position::new(3, 7);
    let end = Position::new(3, 2);
    let r = Range::new(start, end);
    assert_eq!(r.start, start);
    assert_eq!(r.end, start);
    assert!(r.is_empty());
    let r = Range::new(Position::new(4, 0), Position::new(3, 99));
    assert_eq!(r.start, r.end);
    let r = Range::from((Position::new(9, 9), Position::new(0, 0)));
    assert_eq!(r, Range::at(Position::new(9, 9)));
}

#[test]
fn range_in_order_is_kept() {
    let r = Range::new(Position::new(1, 5), Position::new(2, 0));
    assert_eq!(r.start, Position::new(1, 5));
    assert_eq!(r.end, Position::new(2, 0));
    assert!(!r.is_empty());
    assert!(r.contains(Position::new(1, 5)));
    assert!(r.contains(Position::new(1, 99)));
    assert!(r.contains(Position::new(2, 0)));
    assert!(!r.contains(Position::new(2, 1)));
    assert!(!r.contains(Position::new(1, 4)));
}

#[test]
fn range_cover() {
    let a = range((1, 1), (1, 4));
    let b = range((0, 9), (1, 2));
    assert_eq!(a.cover(b), range((0, 9), (1, 4)));
    assert_eq!(b.cover(a), range((0, 9), (1, 4)));
}

#[test]
fn extreme_ranges_and_spans() {
    assert_eq!(Range::default(), Range::minimum());
    assert_eq!(Range::minimum().start, Position::minimum());
    assert_eq!(Range::maximum().end, Position::maximum());
    assert_eq!(Position::maximum(), Position::new(u32::MAX, u32::MAX));
    assert_eq!(Position::default(), Position::new(0, 0));
    assert!(Range::minimum() < Range::maximum());
    assert_eq!(Span::maximum().start(), Offset::maximum());
    assert_eq!(Span::minimum().end(), Offset::minimum());
    assert!(Span::minimum() < Span::maximum());
    assert!(Span::new(Offset::new(1), Offset::new(5)) < Span::new(Offset::new(1), Offset::new(6)));
}

#[test]
fn span_basics() {
    let s = Span::new(Offset::new(2), Offset::new(6));
    assert_eq!(s.len(), 4);
    assert!(!s.is_empty());
    assert!(s.contains(Offset::new(2)));
    assert!(s.contains(Offset::new(6)));
    assert!(!s.contains(Offset::new(7)));
    let collapsed = Span::new(Offset::new(6), Offset::new(2));
    assert_eq!(collapsed, Span::at(Offset::new(6)));
    assert!(collapsed.is_empty());
}

#[test]
fn offset_arithmetic() {
    assert_eq!(Offset::of("\u{1F980}"), Offset::from(4));
    assert_eq!(Offset::of("rust-analyzer"), Offset::from(13));
    assert_eq!(Offset::of(""), Offset::new(0));
    assert_eq!(Offset::default(), Offset::minimum());
    assert_eq!(
        Offset::new(3).checked_add(Offset::new(4)),
        Some(Offset::new(7))
    );
    assert_eq!(Offset::maximum().checked_add(Offset::new(1)), None);
    assert_eq!(
        Offset::maximum().checked_add(Offset::new(0)),
        Some(Offset::maximum())
    );
    assert_eq!(
        Offset::new(7).checked_sub(Offset::new(4)),
        Some(Offset::new(3))
    );
    assert_eq!(Offset::new(3).checked_sub(Offset::new(4)), None);
    assert_eq!(Offset::new(3).plus(Offset::new(4)), Offset::new(7));
    assert_eq!(Offset::new(7).minus(Offset::new(4)), Offset::new(3));
    assert_eq!(u32::from(Offset::new(9)), 9);
    assert_eq!(Offset::new(9).to_usize(), 9usize);
    assert_eq!(Offset::try_from_usize(9), Some(Offset::new(9)));
    assert_eq!(Offset::try_from_usize(u32::MAX as usize + 1), None);
    assert!(Offset::new(1) < Offset::new(2));
    assert_eq!(Offset::new(2).partial_cmp(&Offset::new(2)), Some(Ordering::Equal));
}

#[test]
fn relative_position_counts_lines_and_characters() {
    assert_eq!(RelativePosition::of(""), RelativePosition::new(0, 0));
    assert_eq!(RelativePosition::of("abc"), RelativePosition::new(0, 3));
    assert_eq!(RelativePosition::of("a\n"), RelativePosition::new(1, 0));
    assert_eq!(RelativePosition::of("a\nbc\n\u{e9}\u{1F980}"), RelativePosition::new(2, 2));
    assert_eq!(RelativePosition::of("\r\n"), RelativePosition::new(1, 0));
}

#[test]
fn position_order_and_steps() {
    assert!(Position::new(1, 9) < Position::new(2, 0));
    assert!(Position::new(1, 1) < Position::new(1, 2));
    assert!(Position::new(1, 1).is_at_or_before(&Position::new(1, 1)));
    assert!(!Position::new(1, 2).is_at_or_before(&Position::new(1, 1)));
    assert_eq!(
        Position::new(1, 1).advance(RelativePosition::new(0, 4)),
        Position::new(1, 5)
    );
    assert_eq!(
        Position::new(1, 1).advance(RelativePosition::new(2, 4)),
        Position::new(3, 4)
    );
    assert_eq!(
        Position::new(1, 1).earliest(Position::new(0, 5)),
        Position::new(0, 5)
    );
    assert_eq!(
        Position::new(1, 1).latest(Position::new(0, 5)),
        Position::new(1, 1)
    );
}

#[test]
fn operators_on_offsets_positions_and_ranges() {
    assert_eq!(Offset::new(3) + Offset::new(4), Offset::new(7));
    assert_eq!(Offset::new(7) - Offset::new(4), Offset::new(3));
    assert_eq!(
        Position::new(1, 1) + RelativePosition::of("ab\ncd"),
        Position::new(2, 2)
    );
    assert_eq!(
        range((1, 1), (1, 4)) + range((0, 9), (1, 2)),
        range((0, 9), (1, 4))
    );
    assert_eq!(Range::from(((1, 1), (1, 2))), range((1, 1), (1, 2)));
    assert_eq!(Range::from(((2, 0), (1, 2))), range((2, 0), (2, 0)));
}
