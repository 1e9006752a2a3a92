use vstd::prelude::*;

use crate::status::RsvpStatus;
use crate::types::{ts_le, ts_lt, Reservation, Timestamp};

verus! {

/// The start of a reservation's window.
pub open spec fn start_of(r: Reservation) -> Timestamp {
    r.start.unwrap()
}

/// The end of a reservation's window.
pub open spec fn end_of(r: Reservation) -> Timestamp {
    r.end.unwrap()
}

/// How a reservation's window must relate to the window of a query.
#[derive(Clone, Copy, Debug, PartialEq, Eq, Structural)]
pub enum WindowRelation {
    /// The two windows share at least one instant.
    Overlaps,
    /// The reservation's window holds the whole query window.
    Contains,
    /// The reservation's window lies inside the query window.
    ContainedBy,
}

/// A filter over stored reservations. An empty `resource_id` or `user_id`,
/// a status of `Unknown`, and a missing bound each match everything.
#[derive(Clone, Debug, PartialEq, Eq)]
pub struct ReservationQuery {
    pub resource_id: String,
    pub user_id: String,
    pub status: RsvpStatus,
    pub start: Option<Timestamp>,
    pub end: Option<Timestamp>,
    pub relation: WindowRelation,
}

/// The window part of the filter holds of `r`.
pub open spec fn window_matches(q: ReservationQuery, r: Reservation) -> bool {
    match q.relation {
        WindowRelation::Overlaps => {
            &&& (q.start is None || ts_lt(q.start.unwrap(), end_of(r)))
            &&& (q.end is None || ts_lt(start_of(r), q.end.unwrap()))
        },
        WindowRelation::Contains => {
            &&& q.start is Some
            &&& q.end is Some
            &&& ts_le(start_of(r), q.start.unwrap())
            &&& ts_le(q.end.unwrap(), end_of(r))
        },
        WindowRelation::ContainedBy => {
            &&& (q.start is None || ts_le(q.start.unwrap(), start_of(r)))
            &&& (q.end is None || ts_le(end_of(r), q.end.unwrap()))
        },
    }
}

/// The whole filter holds of `r`.
pub open spec fn query_matches(q: ReservationQuery, r: Reservation) -> bool {
    &&& (q.resource_id@.len() == 0 || q.resource_id@ == r.resource_id@)
    &&& (q.user_id@.len() == 0 || q.user_id@ == r.user_id@)
    &&& (q.status == RsvpStatus::Unknown || q.status == r.status)
    &&& window_matches(q, r)
}

/// The rows that the filter keeps, in their order.
pub open spec fn filtered(rows: Seq<Reservation>, q: ReservationQuery) -> Seq<Reservation>
    decreases rows.len(),
{
    if rows.len() == 0 {
        Seq::empty()
    } else {
        let rest = filtered(rows.drop_last(), q);
        if query_matches(q, rows.last()) {
            rest.push(rows.last())
        } else {
            rest
        }
    }
}

fn ts_leq(a: &Timestamp, b: &Timestamp) -> (r: bool)
    ensures
        r == ts_le(*a, *b),
{
    a.seconds < b.seconds || (a.seconds == b.seconds && a.nanos <= b.nanos)
}

impl ReservationQuery {
    /// A filter that keeps every reservation.
    pub fn all() -> (r: ReservationQuery)
        ensures
            r.resource_id@.len() == 0,
            r.user_id@.len() == 0,
            r.status == RsvpStatus::Unknown,
            r.start is None,
            r.end is None,
            r.relation == WindowRelation::Overlaps,
    {
        ReservationQuery {
            resource_id: String::new(),
            user_id: String::new(),
            status: RsvpStatus::Unknown,
            start: None,
            end: None,
            relation: WindowRelation::Overlaps,
        }
    }

    /// Whether the filter keeps `r`, whose window bounds are both present.
    pub fn accepts(&self, r: &Reservation) -> (b: bool)
        requires
            r.start is Some,
            r.end is Some,
        ensures
            b == query_matches(*self, *r),
    {
        if !self.resource_id.as_str().is_empty() && self.resource_id != r.resource_id {
            return false;
        }
        if !self.user_id.as_str().is_empty() && self.user_id != r.user_id {
            return false;
        }
        if self.status != RsvpStatus::Unknown && self.status != r.status {
            return false;
        }
        let rs = r.start.unwrap();
        let re = r.end.unwrap();
        match self.relation {
            WindowRelation::Overlaps => {
                let after_start = match &self.start {
                    Some(qs) => qs.before(&re),
                    None => true,
                };
                let before_end = match &self.end {
                    Some(qe) => rs.before(qe),
                    None => true,
                };
                after_start && before_end
            },
            WindowRelation::Contains => {
                match (&self.start, &self.end) {
                    (Some(qs), Some(qe)) => ts_leq(&rs, qs) && ts_leq(qe, &re),
                    _ => false,
                }
            },
            WindowRelation::ContainedBy => {
                let from_start = match &self.start {
                    Some(qs) => ts_leq(qs, &rs),
                    None => true,
                };
                let to_end = match &self.end {
                    Some(qe) => ts_leq(&re, qe),
                    None => true,
                };
                from_start && to_end
            },
        }
    }
}

} // verus!
