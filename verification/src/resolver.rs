//! The conflict resolver: which state a new reservation gets.

use crate::reservation::{Reservation, ReservationId};
use crate::status::ReservationStatus;
use crate::store::{has_conflict, overlapping, ReservationStore};
use crate::timespan::Timespan;
use vstd::prelude::*;

verus! {

/// The state that a new reservation of `resource` over `span` gets: blocked
/// where a confirmed record is in its way, confirmed where none is.
pub open spec fn assigned_status(
    records: Seq<Reservation>,
    resource: Seq<char>,
    span: Timespan,
) -> ReservationStatus {
    if has_conflict(records, resource, span) {
        ReservationStatus::Blocked
    } else {
        ReservationStatus::Confirmed
    }
}

/// The ids of some records, in their order.
pub open spec fn ids_of(records: Seq<Reservation>) -> Seq<ReservationId> {
    Seq::new(records.len(), |i: int| records[i].id)
}

/// What the resolver found for a candidate interval.
#[derive(Debug, PartialEq, Eq)]
pub struct Resolution {
    /// The state to give the new reservation.
    pub status: ReservationStatus,
    /// The ids of the confirmed reservations in its way, in order of start.
    pub conflicts: Vec<ReservationId>,
}

impl Resolution {
    /// Decides from the confirmed reservations that overlap a candidate: with
    /// none of them the candidate is confirmed, else it is blocked by them.
    pub fn from_overlapping(found: &Vec<Reservation>) -> (resolution: Resolution)
        ensures
            resolution.conflicts@ == ids_of(found@),
            resolution.status == if found@.len() == 0 {
                ReservationStatus::Confirmed
            } else {
                ReservationStatus::Blocked
            },
    {
        let mut conflicts: Vec<ReservationId> = Vec::new();
        let mut i: usize = 0;
        while i < found.len()
            invariant
                i <= found@.len(),
                conflicts@ == ids_of(found@.subrange(0, i as int)),
            decreases found@.len() - i,
        {
            conflicts.push(found[i].id);
            proof {
                assert(conflicts@ =~= ids_of(found@.subrange(0, i + 1)));
            }
            i += 1;
        }
        proof {
            assert(found@.subrange(0, i as int) =~= found@);
        }
        let status = if found.len() == 0 {
            ReservationStatus::Confirmed
        } else {
            ReservationStatus::Blocked
        };
        Resolution { status, conflicts }
    }
}

/// Looks in the store for the confirmed reservations of `resource_id` that
/// overlap `span`, and decides from them which state a new reservation gets.
pub fn resolve(store: &ReservationStore, resource_id: &str, span: &Timespan) -> (resolution:
    Resolution)
    requires
        store.wf(),
    ensures
        resolution.status == assigned_status(store@, resource_id@, *span),
        resolution.conflicts@ == ids_of(
            store@.filter(
                overlapping(resource_id@, *span, Some(ReservationStatus::Confirmed)),
            ),
        ),
{
    let found = store.find_overlapping(resource_id, span, Some(ReservationStatus::Confirmed));
    proof {
        lemma_conflict_is_found(store@, resource_id@, *span);
    }
    Resolution::from_overlapping(&found)
}

/// A confirmed record is in the way of a candidate exactly when the search for
/// the confirmed records that overlap it finds something.
pub proof fn lemma_conflict_is_found(records: Seq<Reservation>, resource: Seq<char>, span: Timespan)
    ensures
        has_conflict(records, resource, span) <==> records.filter(
            overlapping(resource, span, Some(ReservationStatus::Confirmed)),
        ).len() > 0,
{
    let pick = overlapping(resource, span, Some(ReservationStatus::Confirmed));
    let found = records.filter(pick);
    if has_conflict(records, resource, span) {
        let i = choose|i: int|
            0 <= i < records.len() && (#[trigger] records[i]).conflicts_with(resource, span);
        assert(pick(records[i]));
        records.lemma_filter_contains(pick, i);
        assert(found.len() > 0);
    }
    if found.len() > 0 {
        records.lemma_filter_pred(pick, 0);
        assert(found.contains(found[0]));
        records.lemma_filter_contains_rev(pick, found[0]);
        let i = choose|i: int| 0 <= i < records.len() && records[i] == found[0];
        assert(records[i].conflicts_with(resource, span));
    }
}

} // verus!
