use vstd::prelude::*;

verus! {

/// Where a reservation stands in its lifecycle.
#[derive(Clone, Copy, Debug, PartialEq, Eq, Structural)]
pub enum RsvpStatus {
    Unknown,
    Pending,
    Confirmed,
    Blocked,
}

impl RsvpStatus {
    /// A live reservation occupies its resource and takes part in overlap checks.
    pub open spec fn is_live(self) -> bool {
        self != RsvpStatus::Unknown
    }

    /// The integer code of each status, as exchanged at the boundary.
    pub open spec fn code(self) -> i32 {
        match self {
            RsvpStatus::Unknown => 0,
            RsvpStatus::Pending => 1,
            RsvpStatus::Confirmed => 2,
            RsvpStatus::Blocked => 3,
        }
    }

    /// The status with the given integer code; unknown codes are rejected.
    pub fn from_i32(v: i32) -> (r: Option<RsvpStatus>)
        ensures
            r matches Some(s) ==> s.code() == v,
            r is None <==> !(0 <= v <= 3),
    {
        if v == 0 {
            Some(RsvpStatus::Unknown)
        } else if v == 1 {
            Some(RsvpStatus::Pending)
        } else if v == 2 {
            Some(RsvpStatus::Confirmed)
        } else if v == 3 {
            Some(RsvpStatus::Blocked)
        } else {
            None
        }
    }

    /// The integer code of this status.
    pub fn as_i32(&self) -> (r: i32)
        ensures
            r == self.code(),
    {
        match self {
            RsvpStatus::Unknown => 0,
            RsvpStatus::Pending => 1,
            RsvpStatus::Confirmed => 2,
            RsvpStatus::Blocked => 3,
        }
    }

    /// The lower-case name the persisted schema uses for this status.
    pub fn name(&self) -> (r: &'static str)
        ensures
            r@ == self.spec_name(),
    {
        match self {
            RsvpStatus::Unknown => "unknown",
            RsvpStatus::Pending => "pending",
            RsvpStatus::Confirmed => "confirmed",
            RsvpStatus::Blocked => "blocked",
        }
    }

    pub open spec fn spec_name(self) -> Seq<char> {
        match self {
            RsvpStatus::Unknown => "unknown"@,
            RsvpStatus::Pending => "pending"@,
            RsvpStatus::Confirmed => "confirmed"@,
            RsvpStatus::Blocked => "blocked"@,
        }
    }
}

} // verus!
