//! Behavior of the temporal algebra: interval overlap, point-in-interval
//! membership, Allen relations and the edge predicates.

use telamentis::temporal::{IntervalRelation, TemporalUtils};
use telamentis::types::TimeEdge;

fn micros(rfc3339: &str) -> i64 {
    chrono::DateTime::parse_from_rfc3339(rfc3339)
        .unwrap()
        .timestamp_micros()
}

#[test]
fn test_intervals_overlap() {
    let t1 = micros("2024-01-01T00:00:00Z");
    let t2 = micros("2024-01-02T00:00:00Z");
    let t3 = micros("2024-01-03T00:00:00Z");
    let t4 = micros("2024-01-04T00:00:00Z");

    // Non-overlapping intervals.
    assert!(!TemporalUtils::intervals_overlap(t1, Some(t2), t3, Some(t4)));

    // Overlapping intervals.
    assert!(TemporalUtils::intervals_overlap(t1, Some(t3), t2, Some(t4)));

    // Open-ended interval.
    assert!(TemporalUtils::intervals_overlap(t1, None, t2, Some(t4)));
}

#[test]
fn test_point_in_interval() {
    let start = micros("2024-01-01T00:00:00Z");
    let middle = micros("2024-01-02T00:00:00Z");
    let end = micros("2024-01-03T00:00:00Z");

    assert!(TemporalUtils::point_in_interval(middle, start, Some(end)));
    // The end is exclusive.
    assert!(!TemporalUtils::point_in_interval(end, start, Some(end)));
    // Open interval.
    assert!(TemporalUtils::point_in_interval(middle, start, None));
}

#[test]
fn test_interval_relations() {
    let t1 = micros("2024-01-01T00:00:00Z");
    let t2 = micros("2024-01-02T00:00:00Z");
    let t3 = micros("2024-01-03T00:00:00Z");
    let t4 = micros("2024-01-04T00:00:00Z");

    assert_eq!(
        IntervalRelation::determine(t1, Some(t2), t3, Some(t4)),
        IntervalRelation::Before
    );
    assert_eq!(
        IntervalRelation::determine(t1, Some(t2), t2, Some(t4)),
        IntervalRelation::Meets
    );
    assert_eq!(
        IntervalRelation::determine(t1, Some(t3), t2, Some(t4)),
        IntervalRelation::Overlaps
    );
    assert_eq!(
        IntervalRelation::determine(t1, Some(t4), t1, Some(t4)),
        IntervalRelation::Equals
    );
    assert_eq!(
        IntervalRelation::determine(t2, Some(t3), t1, Some(t4)),
        IntervalRelation::During
    );
    assert_eq!(
        IntervalRelation::determine(t2, Some(t3), t1, Some(t2)),
        IntervalRelation::MetBy
    );
    assert_eq!(
        IntervalRelation::determine(t3, Some(t4), t1, Some(t2)),
        IntervalRelation::After
    );
    // Two open-ended intervals share their (unbounded) end.
    assert_eq!(
        IntervalRelation::determine(t1, None, t2, None),
        IntervalRelation::FinishedBy
    );
}

#[test]
fn test_edge_predicates() {
    let a = micros("2023-01-01T00:00:00Z");
    let b = micros("2025-01-01T00:00:00Z");
    let p = micros("2024-06-01T00:00:00Z");

    let edge = TimeEdge::new(1, 2, "WORKS_FOR".to_string(), a, Vec::new()).with_valid_to(b);
    assert!(edge.was_valid_at(p));
    assert!(edge.was_valid_at(a));
    assert!(!edge.was_valid_at(b));
    assert!(edge.is_current_version());

    let closed = edge.with_transaction_end_time(p);
    assert!(!closed.is_current_version());

    let stamped = TimeEdge::new(1, 2, "KNOWS".to_string(), a, Vec::new())
        .with_transaction_start_time(a);
    assert!(stamped.existed_at_transaction_time(p));
    assert!(!stamped.existed_at_transaction_time(micros("2022-01-01T00:00:00Z")));
}
