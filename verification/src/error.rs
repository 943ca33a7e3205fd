//! The ways in which an operation can be refused.

use vstd::prelude::*;

verus! {

/// Why the engine refused an operation. Every refusal leaves the stored
/// reservations exactly as they were.
#[derive(Clone, Copy, Debug, PartialEq, Eq, Structural)]
pub enum ReservationError {
    /// An endpoint of the interval is missing or names no point in time, or
    /// the interval does not start strictly before it ends.
    InvalidTime,
    /// Confirming the reservation would make it overlap another confirmed
    /// reservation of the same resource.
    ConflictExists,
    /// No reservation has the given id.
    NotFound,
    /// The status does not allow the requested transition, or a status code is
    /// not one of the known ones.
    InvalidState,
    /// The store cannot take the operation: it cannot be reached, or it has run
    /// out of ids.
    StoreUnavailable,
}

} // verus!
