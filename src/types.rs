use vstd::prelude::*;

use crate::error::Error;
use crate::status::RsvpStatus;

verus! {

/// A UTC instant: whole seconds since the Unix epoch and a nanosecond part.
/// Instants are ordered by seconds first, then by nanoseconds.
#[derive(Clone, Copy, Debug, PartialEq, Eq, Structural)]
pub struct Timestamp {
    pub seconds: i64,
    pub nanos: i32,
}

/// `a` comes strictly before `b`.
pub open spec fn ts_lt(a: Timestamp, b: Timestamp) -> bool {
    a.seconds < b.seconds || (a.seconds == b.seconds && a.nanos < b.nanos)
}

/// `a` comes before `b` or is the same instant.
pub open spec fn ts_le(a: Timestamp, b: Timestamp) -> bool {
    a.seconds < b.seconds || (a.seconds == b.seconds && a.nanos <= b.nanos)
}

impl Timestamp {
    pub fn new(seconds: i64, nanos: i32) -> (r: Timestamp)
        ensures
            r.seconds == seconds,
            r.nanos == nanos,
    {
        Timestamp { seconds, nanos }
    }

    /// Whether this instant comes strictly before `other`.
    pub fn before(&self, other: &Timestamp) -> (r: bool)
        ensures
            r == ts_lt(*self, *other),
    {
        self.seconds < other.seconds || (self.seconds == other.seconds && self.nanos < other.nanos)
    }
}

/// One reservation of a resource by a user over the window `[start, end)`.
/// `id` is 0 until the store assigns one.
#[derive(Clone, Debug, PartialEq, Eq)]
pub struct Reservation {
    pub id: i64,
    pub user_id: String,
    pub resource_id: String,
    pub start: Option<Timestamp>,
    pub end: Option<Timestamp>,
    pub note: String,
    pub status: RsvpStatus,
}

/// The decimal digits of a natural number.
pub open spec fn digits_of(n: nat) -> Seq<char>
    decreases n,
{
    if n < 10 {
        seq![digit_char(n)]
    } else {
        digits_of(n / 10).push(digit_char(n % 10))
    }
}

pub open spec fn digit_char(d: nat) -> char {
    ((d + 48) as u32) as char
}

/// The decimal text of an integer, with a leading `-` when it is negative.
pub open spec fn decimal_text(n: int) -> Seq<char> {
    if n < 0 {
        seq!['-'] + digits_of((-n) as nat)
    } else {
        digits_of(n as nat)
    }
}

/// Relies on `i64::to_string`: the decimal text of the number.
#[verifier::external_body]
fn id_text(n: i64) -> (r: String)
    ensures
        r@ == decimal_text(n as int),
{
    n.to_string()
}

/// The window of a candidate is present and not empty.
pub open spec fn window_ok(r: Reservation) -> bool {
    &&& r.start is Some
    &&& r.end is Some
    &&& ts_lt(r.start.unwrap(), r.end.unwrap())
}

/// A candidate that may be created: no identity yet, a user, a resource and a window.
pub open spec fn valid_candidate(r: Reservation) -> bool {
    &&& r.id == 0
    &&& r.user_id@.len() > 0
    &&& r.resource_id@.len() > 0
    &&& window_ok(r)
}

/// `e` is the error that validating the invalid candidate `r` gives: the first rule it breaks.
pub open spec fn validation_error(r: Reservation, e: Error) -> bool {
    if r.id != 0 {
        e matches Error::InvalidUserId(s) && s@ == decimal_text(r.id as int)
    } else if r.user_id@.len() == 0 {
        e == Error::InvalidUserId(r.user_id)
    } else if r.resource_id@.len() == 0 {
        e == Error::InvalidResourceId(r.resource_id)
    } else {
        e == Error::InvalidReservation
    }
}

/// `r` after a status change: `Pending` becomes `Confirmed`, any other status stays.
pub open spec fn status_changed(r: Reservation) -> Reservation {
    if r.status == RsvpStatus::Pending {
        Reservation { status: RsvpStatus::Confirmed, ..r }
    } else {
        r
    }
}

impl Reservation {
    /// A candidate in `Pending` state, not yet stored.
    pub fn new_pending(uid: String, rid: String, start: Timestamp, end: Timestamp, note: String) -> (r: Reservation)
        ensures
            r.id == 0,
            r.user_id == uid,
            r.resource_id == rid,
            r.start == Some(start),
            r.end == Some(end),
            r.note == note,
            r.status == RsvpStatus::Pending,
    {
        Reservation {
            id: 0,
            user_id: uid,
            resource_id: rid,
            start: Some(start),
            end: Some(end),
            note,
            status: RsvpStatus::Pending,
        }
    }

    /// Checks a candidate for creation.
    pub fn validate(&self) -> (r: Result<(), Error>)
        ensures
            valid_candidate(*self) ==> r is Ok,
            !valid_candidate(*self) ==> (r matches Err(e) && validation_error(*self, e)),
    {
        if self.id != 0 {
            return Err(Error::InvalidUserId(id_text(self.id)));
        }
        if self.user_id.as_str().is_empty() {
            return Err(Error::InvalidUserId(self.user_id.clone()));
        }
        if self.resource_id.as_str().is_empty() {
            return Err(Error::InvalidResourceId(self.resource_id.clone()));
        }
        match (&self.start, &self.end) {
            (Some(start), Some(end)) => {
                if start.before(end) {
                    Ok(())
                } else {
                    Err(Error::InvalidReservation)
                }
            },
            _ => Err(Error::InvalidReservation),
        }
    }

    /// The window `[start, end)` of a reservation whose bounds are both present.
    pub fn get_timestamp(&self) -> (r: (Timestamp, Timestamp))
        requires
            self.start is Some,
            self.end is Some,
        ensures
            r.0 == self.start.unwrap(),
            r.1 == self.end.unwrap(),
    {
        (self.start.unwrap(), self.end.unwrap())
    }

    /// This reservation after a status change: confirmed if it was pending, else as it is.
    pub fn confirmed(&self) -> (r: Reservation)
        ensures
            r == status_changed(*self),
    {
        let mut r = self.duplicate();
        if r.status == RsvpStatus::Pending {
            r.status = RsvpStatus::Confirmed;
        }
        r
    }

    /// A copy equal to this reservation in every field.
    pub fn duplicate(&self) -> (r: Reservation)
        ensures
            r == *self,
    {
        Reservation {
            id: self.id,
            user_id: self.user_id.clone(),
            resource_id: self.resource_id.clone(),
            start: self.start,
            end: self.end,
            note: self.note.clone(),
            status: self.status,
        }
    }
}

} // verus!
