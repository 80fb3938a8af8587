//! Temporal algebra: interval overlap, point-in-interval membership, and
//! Allen's interval relations, over half-open intervals whose absent upper
//! bound means unbounded above.

use vstd::prelude::*;

use crate::props::PropEntry;
use crate::types::{TimeEdge, TimeEdgeView};
use crate::props::props_view;

verus! {

/// An interval's upper bound with the absent bound read as the largest
/// representable instant.
pub open spec fn end_or_max(end: Option<i64>) -> i64 {
    match end {
        Some(e) => e,
        None => i64::MAX,
    }
}

/// Utilities for working with bitemporal data.
pub struct TemporalUtils;

impl TemporalUtils {
    /// Whether two half-open intervals overlap, reading an absent upper bound
    /// as the largest representable instant.
    pub fn intervals_overlap(
        start1: i64,
        end1: Option<i64>,
        start2: i64,
        end2: Option<i64>,
    ) -> (r: bool)
        ensures
            r == (start1 < end_or_max(end2) && start2 < end_or_max(end1)),
    {
        let e1 = match end1 {
            Some(e) => e,
            None => i64::MAX,
        };
        let e2 = match end2 {
            Some(e) => e,
            None => i64::MAX,
        };
        start1 < e2 && start2 < e1
    }

    /// Whether a time point falls within a half-open interval, reading an
    /// absent upper bound as the largest representable instant.
    pub fn point_in_interval(point: i64, start: i64, end: Option<i64>) -> (r: bool)
        ensures
            r == (point >= start && point < end_or_max(end)),
    {
        let e = match end {
            Some(e) => e,
            None => i64::MAX,
        };
        point >= start && point < e
    }

    /// The current timestamp in microseconds since the Unix epoch, from the
    /// wall clock.
    pub fn now() -> i64 {
        crate::ext::now_micros()
    }

    /// An edge valid from now with no end time; its transaction start is left
    /// for the store to stamp.
    pub fn create_current_edge(
        from_node_id: u64,
        to_node_id: u64,
        kind: String,
        props: Vec<PropEntry>,
    ) -> (r: TimeEdge)
        ensures
            r@ == (TimeEdgeView {
                from_node_id,
                to_node_id,
                kind: kind@,
                valid_from: r@.valid_from,
                valid_to: None,
                transaction_start_time: None,
                transaction_end_time: None,
                props: props_view(props@),
            }),
    {
        TimeEdge::new(from_node_id, to_node_id, kind, Self::now(), props)
    }
}

/// Allen's interval algebra relations.
#[derive(Debug, Clone, PartialEq, Eq, Structural)]
pub enum IntervalRelation {
    Before,
    Meets,
    Overlaps,
    FinishedBy,
    Contains,
    Starts,
    Equals,
    StartedBy,
    During,
    Finishes,
    OverlappedBy,
    MetBy,
    After,
}

/// The Allen relation of two half-open intervals, decided by comparing their
/// bounds with absent upper bounds read as the largest representable instant.
pub open spec fn spec_interval_relation(
    start1: i64,
    end1: Option<i64>,
    start2: i64,
    end2: Option<i64>,
) -> IntervalRelation {
    let e1 = end_or_max(end1);
    let e2 = end_or_max(end2);
    if e1 < start2 {
        IntervalRelation::Before
    } else if e1 == start2 {
        IntervalRelation::Meets
    } else if start1 < start2 && e1 < e2 && e1 > start2 {
        IntervalRelation::Overlaps
    } else if start1 < start2 && e1 == e2 {
        IntervalRelation::FinishedBy
    } else if start1 < start2 && e1 > e2 {
        IntervalRelation::Contains
    } else if start1 == start2 && e1 < e2 {
        IntervalRelation::Starts
    } else if start1 == start2 && e1 == e2 {
        IntervalRelation::Equals
    } else if start1 == start2 && e1 > e2 {
        IntervalRelation::StartedBy
    } else if start1 > start2 && e1 < e2 {
        IntervalRelation::During
    } else if start1 > start2 && e1 == e2 {
        IntervalRelation::Finishes
    } else if start1 < e2 && start1 > start2 && e1 > e2 {
        IntervalRelation::OverlappedBy
    } else if start1 == e2 {
        IntervalRelation::MetBy
    } else {
        IntervalRelation::After
    }
}

impl IntervalRelation {
    /// Determines the Allen relation between two half-open intervals.
    pub fn determine(start1: i64, end1: Option<i64>, start2: i64, end2: Option<i64>) -> (r: Self)
        ensures
            r == spec_interval_relation(start1, end1, start2, end2),
    {
        let e1 = match end1 {
            Some(e) => e,
            None => i64::MAX,
        };
        let e2 = match end2 {
            Some(e) => e,
            None => i64::MAX,
        };
        if e1 < start2 {
            IntervalRelation::Before
        } else if e1 == start2 {
            IntervalRelation::Meets
        } else if start1 < start2 && e1 < e2 && e1 > start2 {
            IntervalRelation::Overlaps
        } else if start1 < start2 && e1 == e2 {
            IntervalRelation::FinishedBy
        } else if start1 < start2 && e1 > e2 {
            IntervalRelation::Contains
        } else if start1 == start2 && e1 < e2 {
            IntervalRelation::Starts
        } else if start1 == start2 && e1 == e2 {
            IntervalRelation::Equals
        } else if start1 == start2 && e1 > e2 {
            IntervalRelation::StartedBy
        } else if start1 > start2 && e1 < e2 {
            IntervalRelation::During
        } else if start1 > start2 && e1 == e2 {
            IntervalRelation::Finishes
        } else if start1 < e2 && start1 > start2 && e1 > e2 {
            IntervalRelation::OverlappedBy
        } else if start1 == e2 {
            IntervalRelation::MetBy
        } else {
            IntervalRelation::After
        }
    }
}

} // verus!
