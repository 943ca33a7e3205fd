//! The lifecycle of a reservation: its four states, how they are written as a
//! number and as text, and which transitions are legal.

use crate::error::ReservationError;
use vstd::prelude::*;

verus! {

/// The state of a reservation.
#[derive(Clone, Copy, Debug, PartialEq, Eq, Structural)]
pub enum ReservationStatus {
    /// Malformed or legacy data. Never assigned by the engine, and nothing
    /// leads out of it.
    Unknown,
    /// Waiting to be confirmed.
    Pending,
    /// Holds its resource exclusively for its interval.
    Confirmed,
    /// Recorded while a confirmed reservation was in its way.
    Blocked,
}

impl ReservationStatus {
    /// The number that stands for a status on the wire.
    pub open spec fn code(self) -> int {
        match self {
            ReservationStatus::Unknown => 0,
            ReservationStatus::Pending => 1,
            ReservationStatus::Confirmed => 2,
            ReservationStatus::Blocked => 3,
        }
    }

    /// The lower-case word that stands for a status in text.
    pub open spec fn text(self) -> Seq<char> {
        match self {
            ReservationStatus::Unknown => "unknown"@,
            ReservationStatus::Pending => "pending"@,
            ReservationStatus::Confirmed => "confirmed"@,
            ReservationStatus::Blocked => "blocked"@,
        }
    }

    /// Whether a reservation in state `self` may be moved to state `to`.
    ///
    /// A pending reservation may be confirmed or blocked, and a blocked one may
    /// be queued again as pending. Nothing else is a transition: a confirmed
    /// reservation is retired by deleting it.
    pub open spec fn can_become(self, to: ReservationStatus) -> bool {
        ||| self == ReservationStatus::Pending && to == ReservationStatus::Confirmed
        ||| self == ReservationStatus::Pending && to == ReservationStatus::Blocked
        ||| self == ReservationStatus::Blocked && to == ReservationStatus::Pending
    }

    /// What moving a reservation from state `self` to state `to` gives, `taken`
    /// telling whether a confirmed reservation of the same resource overlaps
    /// it: the new state; or `InvalidState` where the transition is not a legal
    /// one; or `ConflictExists` where it would be confirmed into a conflict.
    pub open spec fn moved_to(self, to: ReservationStatus, taken: bool) -> Result<
        ReservationStatus,
        ReservationError,
    > {
        if !self.can_become(to) {
            Err(ReservationError::InvalidState)
        } else if to == ReservationStatus::Confirmed && taken {
            Err(ReservationError::ConflictExists)
        } else {
            Ok(to)
        }
    }

    /// The state that a reservation advances to: a blocked one is queued again,
    /// a pending one is confirmed, and the others have nowhere to go.
    pub open spec fn successor(self) -> Option<ReservationStatus> {
        match self {
            ReservationStatus::Pending => Some(ReservationStatus::Confirmed),
            ReservationStatus::Blocked => Some(ReservationStatus::Pending),
            _ => None,
        }
    }

    /// The number that stands for this status on the wire.
    pub fn to_i32(&self) -> (code: i32)
        ensures
            code == self.code(),
    {
        match self {
            ReservationStatus::Unknown => 0,
            ReservationStatus::Pending => 1,
            ReservationStatus::Confirmed => 2,
            ReservationStatus::Blocked => 3,
        }
    }

    /// The status that a number from the wire stands for. A number that stands
    /// for none is refused, not read as some default.
    pub fn from_i32(code: i32) -> (r: Result<ReservationStatus, ReservationError>)
        ensures
            r is Ok <==> 0 <= code <= 3,
            r matches Ok(status) ==> status.code() == code,
            r matches Err(e) ==> e == ReservationError::InvalidState,
    {
        if code == 0 {
            Ok(ReservationStatus::Unknown)
        } else if code == 1 {
            Ok(ReservationStatus::Pending)
        } else if code == 2 {
            Ok(ReservationStatus::Confirmed)
        } else if code == 3 {
            Ok(ReservationStatus::Blocked)
        } else {
            Err(ReservationError::InvalidState)
        }
    }

    /// The lower-case word for this status.
    pub fn to_string(&self) -> (s: String)
        ensures
            s@ == self.text(),
    {
        match self {
            ReservationStatus::Unknown => "unknown".to_owned(),
            ReservationStatus::Pending => "pending".to_owned(),
            ReservationStatus::Confirmed => "confirmed".to_owned(),
            ReservationStatus::Blocked => "blocked".to_owned(),
        }
    }

    /// The status that a lower-case word stands for. A word that stands for none
    /// is refused.
    pub fn from_text(word: &str) -> (r: Result<ReservationStatus, ReservationError>)
        ensures
            r is Ok <==> exists|status: ReservationStatus| word@ == #[trigger] status.text(),
            r matches Ok(status) ==> status.text() == word@,
            r matches Err(e) ==> e == ReservationError::InvalidState,
    {
        let given: String = word.to_owned();
        let r = if given == "unknown".to_owned() {
            Ok(ReservationStatus::Unknown)
        } else if given == "pending".to_owned() {
            Ok(ReservationStatus::Pending)
        } else if given == "confirmed".to_owned() {
            Ok(ReservationStatus::Confirmed)
        } else if given == "blocked".to_owned() {
            Ok(ReservationStatus::Blocked)
        } else {
            Err(ReservationError::InvalidState)
        };
        proof {
            if r is Ok {
                assert(word@ == r->Ok_0.text());
            } else {
                assert forall|status: ReservationStatus| word@ != #[trigger] status.text() by {
                    match status {
                        ReservationStatus::Unknown => {},
                        ReservationStatus::Pending => {},
                        ReservationStatus::Confirmed => {},
                        ReservationStatus::Blocked => {},
                    }
                }
            }
        }
        r
    }

    /// Whether this status may be followed by `to`.
    pub fn can_transition_to(&self, to: ReservationStatus) -> (b: bool)
        ensures
            b == self.can_become(to),
    {
        match (self, to) {
            (ReservationStatus::Pending, ReservationStatus::Confirmed) => true,
            (ReservationStatus::Pending, ReservationStatus::Blocked) => true,
            (ReservationStatus::Blocked, ReservationStatus::Pending) => true,
            _ => false,
        }
    }

    /// Moves from this status to `to`, `taken` telling whether a confirmed
    /// reservation of the same resource overlaps the one that is moved.
    pub fn transition_to(&self, to: ReservationStatus, taken: bool) -> (r: Result<
        ReservationStatus,
        ReservationError,
    >)
        ensures
            r == self.moved_to(to, taken),
    {
        if !self.can_transition_to(to) {
            Err(ReservationError::InvalidState)
        } else if to == ReservationStatus::Confirmed && taken {
            Err(ReservationError::ConflictExists)
        } else {
            Ok(to)
        }
    }

    /// The status that this one advances to, or `InvalidState` where it has
    /// nowhere to go.
    pub fn next(&self) -> (r: Result<ReservationStatus, ReservationError>)
        ensures
            r is Ok <==> self.successor() is Some,
            r matches Ok(to) ==> self.successor() == Some(to),
            r matches Err(e) ==> e == ReservationError::InvalidState,
    {
        match self {
            ReservationStatus::Pending => Ok(ReservationStatus::Confirmed),
            ReservationStatus::Blocked => Ok(ReservationStatus::Pending),
            _ => Err(ReservationError::InvalidState),
        }
    }
}

/// A status and its number determine each other: no two statuses share a
/// number, and every number from 0 to 3 stands for a status.
pub proof fn lemma_code_is_one_to_one(a: ReservationStatus, b: ReservationStatus, code: int)
    ensures
        0 <= a.code() <= 3,
        a.code() == b.code() ==> a == b,
        0 <= code <= 3 ==> exists|s: ReservationStatus| #[trigger] s.code() == code,
{
    if code == 0 {
        assert(ReservationStatus::Unknown.code() == code);
    } else if code == 1 {
        assert(ReservationStatus::Pending.code() == code);
    } else if code == 2 {
        assert(ReservationStatus::Confirmed.code() == code);
    } else if code == 3 {
        assert(ReservationStatus::Blocked.code() == code);
    }
}

/// No two statuses share a word.
pub proof fn lemma_text_is_one_to_one(a: ReservationStatus, b: ReservationStatus)
    ensures
        a.text() == b.text() ==> a == b,
{
    reveal_strlit("unknown");
    reveal_strlit("pending");
    reveal_strlit("confirmed");
    reveal_strlit("blocked");
    if a != b && a.text() == b.text() {
        assert(a.text().len() == b.text().len());
        assert(a.text()[0] == b.text()[0]);
    }
}

/// Advancing a status is a legal transition; nothing leads out of `Unknown` or
/// out of `Confirmed`, and no status may be followed by itself.
pub proof fn lemma_transitions(from: ReservationStatus, to: ReservationStatus)
    ensures
        from.successor() == Some(to) ==> from.can_become(to),
        !ReservationStatus::Unknown.can_become(to),
        !ReservationStatus::Confirmed.can_become(to),
        !from.can_become(from),
        !from.can_become(ReservationStatus::Unknown),
{
}

} // verus!
