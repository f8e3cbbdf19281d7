//! Order statuses and the lifecycle transition table.

use vstd::prelude::*;
use crate::strutil::str_eq;

verus! {

/// The fixed set of order statuses. `Delivered` and `Cancelled` are
/// terminal: no transition leaves them.
#[derive(Clone, Copy, Debug, PartialEq, Eq, Structural)]
pub enum Status {
    Available,
    Assigned,
    EnRouteToPickup,
    PickedUp,
    Delivering,
    Delivered,
    Cancelled,
}

impl Status {
    /// A terminal status admits no further transition.
    pub open spec fn spec_is_terminal(self) -> bool {
        self == Status::Delivered || self == Status::Cancelled
    }

    #[verifier::when_used_as_spec(spec_is_terminal)]
    pub fn is_terminal(self) -> (r: bool)
        ensures
            r == self.spec_is_terminal(),
    {
        match self {
            Status::Delivered | Status::Cancelled => true,
            _ => false,
        }
    }

    /// The transition table: each status steps to its successor on the
    /// delivery path, and any non-terminal status may be cancelled.
    /// Every other pair is rejected.
    pub open spec fn spec_can_transition_to(self, next: Status) -> bool {
        ||| (self == Status::Available && next == Status::Assigned)
        ||| (self == Status::Assigned && next == Status::EnRouteToPickup)
        ||| (self == Status::EnRouteToPickup && next == Status::PickedUp)
        ||| (self == Status::PickedUp && next == Status::Delivering)
        ||| (self == Status::Delivering && next == Status::Delivered)
        ||| (next == Status::Cancelled && !self.spec_is_terminal())
    }

    #[verifier::when_used_as_spec(spec_can_transition_to)]
    pub fn can_transition_to(self, next: Status) -> (r: bool)
        ensures
            r == self.spec_can_transition_to(next),
    {
        match (self, next) {
            (Status::Available, Status::Assigned) => true,
            (Status::Assigned, Status::EnRouteToPickup) => true,
            (Status::EnRouteToPickup, Status::PickedUp) => true,
            (Status::PickedUp, Status::Delivering) => true,
            (Status::Delivering, Status::Delivered) => true,
            (_, Status::Cancelled) => !self.is_terminal(),
            _ => false,
        }
    }

    /// The wire name of each status.
    pub open spec fn spec_name(self) -> Seq<char> {
        match self {
            Status::Available => "available"@,
            Status::Assigned => "assigned"@,
            Status::EnRouteToPickup => "en_route_to_pickup"@,
            Status::PickedUp => "picked_up"@,
            Status::Delivering => "delivering"@,
            Status::Delivered => "delivered"@,
            Status::Cancelled => "cancelled"@,
        }
    }

    pub fn as_str(self) -> (r: &'static str)
        ensures
            r@ == self.spec_name(),
    {
        match self {
            Status::Available => "available",
            Status::Assigned => "assigned",
            Status::EnRouteToPickup => "en_route_to_pickup",
            Status::PickedUp => "picked_up",
            Status::Delivering => "delivering",
            Status::Delivered => "delivered",
            Status::Cancelled => "cancelled",
        }
    }

    /// The status a wire name stands for, if any.
    pub open spec fn spec_parse(s: Seq<char>) -> Option<Status> {
        if s == "available"@ {
            Some(Status::Available)
        } else if s == "assigned"@ {
            Some(Status::Assigned)
        } else if s == "en_route_to_pickup"@ {
            Some(Status::EnRouteToPickup)
        } else if s == "picked_up"@ {
            Some(Status::PickedUp)
        } else if s == "delivering"@ {
            Some(Status::Delivering)
        } else if s == "delivered"@ {
            Some(Status::Delivered)
        } else if s == "cancelled"@ {
            Some(Status::Cancelled)
        } else {
            None
        }
    }

    pub fn parse(s: &str) -> (r: Option<Status>)
        ensures
            r == Status::spec_parse(s@),
    {
        if str_eq(s, "available") {
            Some(Status::Available)
        } else if str_eq(s, "assigned") {
            Some(Status::Assigned)
        } else if str_eq(s, "en_route_to_pickup") {
            Some(Status::EnRouteToPickup)
        } else if str_eq(s, "picked_up") {
            Some(Status::PickedUp)
        } else if str_eq(s, "delivering") {
            Some(Status::Delivering)
        } else if str_eq(s, "delivered") {
            Some(Status::Delivered)
        } else if str_eq(s, "cancelled") {
            Some(Status::Cancelled)
        } else {
            None
        }
    }
}

/// The transition table over wire names, as the HTTP layer sees statuses.
/// A request naming an unknown current status may still cancel, matching
/// the lenient cancel rule: anything not terminal may be cancelled.
pub open spec fn spec_can_transition(cur: Seq<char>, nxt: Seq<char>) -> bool {
    match (Status::spec_parse(cur), Status::spec_parse(nxt)) {
        (Some(c), Some(n)) => c.spec_can_transition_to(n),
        (None, Some(n)) => n == Status::Cancelled,
        _ => false,
    }
}

/// String-level transition check; `r` holds exactly when the transition
/// table of the lifecycle engine admits the pair.
pub fn can_transition(current: &str, next: &str) -> (r: bool)
    ensures
        r == spec_can_transition(current@, next@),
{
    match (Status::parse(current), Status::parse(next)) {
        (Some(c), Some(n)) => c.can_transition_to(n),
        (None, Some(n)) => matches!(n, Status::Cancelled),
        _ => false,
    }
}

} // verus!
