//! The reservation service: what callers see of the engine.

use crate::error::ReservationError;
use crate::reservation::{Reservation, ReservationId, ReservationQuery};
use crate::resolver::{assigned_status, resolve};
use crate::status::ReservationStatus;
use crate::store::{
    has_conflict, has_id, index_of_id, lemma_confirmed_never_overlap, lemma_index_of_id,
    lemma_inserted_is_found,
    lemma_place_for_is_a_place, lemma_replaced_is_found, lemma_update_keeps_wf, lookup,
    note_change, place_for, record_with_id, records_wf, replaced, selected_by, status_change,
    with_record, without, ReservationStore,
};
use vstd::prelude::*;

verus! {

/// What advancing the record with the given id gives: a blocked record is
/// queued again as pending and a pending one is confirmed, unless another
/// confirmed record is in its way (`ConflictExists`); a record in another state
/// has nowhere to go (`InvalidState`).
pub open spec fn advance(records: Seq<Reservation>, id: ReservationId) -> Result<
    Reservation,
    ReservationError,
> {
    if !has_id(records, id) {
        Err(ReservationError::NotFound)
    } else {
        match record_with_id(records, id).status.successor() {
            Some(to) => status_change(records, id, to),
            None => Err(ReservationError::InvalidState),
        }
    }
}

/// The record that a request becomes once it is stored under `id`: the request
/// with that id and with the state that the resolver assigns.
pub open spec fn recorded(
    records: Seq<Reservation>,
    rsvp: Reservation,
    id: ReservationId,
) -> Reservation {
    Reservation {
        id: id,
        status: assigned_status(records, rsvp.resource_id@, rsvp.window()),
        ..rsvp
    }
}

/// A reservation service. Every operation either takes effect as a whole or
/// leaves the reservations as they were, and whatever the backend, none can do
/// more than is stated here. A backend that cannot reach its storage answers
/// `StoreUnavailable`.
pub trait Rsvp {
    /// The reservations on record, in order of start.
    spec fn records(&self) -> Seq<Reservation>;

    /// What holds of the service between calls.
    spec fn inv(&self) -> bool;

    /// Between calls the records are as they should be: in particular no two
    /// confirmed reservations of one resource overlap.
    proof fn lemma_inv_keeps_records_wf(&self)
        requires
            self.inv(),
        ensures
            records_wf(self.records()),
    ;

    /// Records a request under a fresh id: confirmed where no confirmed
    /// reservation of its resource overlaps it, blocked where one does. The id
    /// and the state that the request came with are ignored.
    ///
    /// A request whose interval is not acceptable is refused with
    /// `InvalidTime`.
    fn reserve(&mut self, rsvp: Reservation) -> (r: Result<Reservation, ReservationError>)
        requires
            old(self).inv(),
        ensures
            final(self).inv(),
            !rsvp.valid_window() ==> r == Err::<Reservation, ReservationError>(
                ReservationError::InvalidTime,
            ),
            r matches Ok(stored) ==> {
                &&& rsvp.valid_window()
                &&& stored.id != 0
                &&& !has_id(old(self).records(), stored.id)
                &&& stored == recorded(old(self).records(), rsvp, stored.id)
                &&& final(self).records() == with_record(old(self).records(), stored)
                &&& lookup(final(self).records(), stored.id) == Ok::<Reservation, ReservationError>(
                    stored,
                )
            },
            r matches Err(e) ==> {
                &&& final(self).records() == old(self).records()
                &&& e == ReservationError::InvalidTime <==> !rsvp.valid_window()
                &&& (e == ReservationError::InvalidTime || e == ReservationError::ConflictExists
                    || e == ReservationError::StoreUnavailable)
            },
    ;

    /// Advances the reservation with the given id: see [`advance`].
    fn change_status(&mut self, id: ReservationId) -> (r: Result<Reservation, ReservationError>)
        requires
            old(self).inv(),
        ensures
            final(self).inv(),
            r matches Ok(updated) ==> {
                &&& advance(old(self).records(), id) == Ok::<Reservation, ReservationError>(updated)
                &&& final(self).records() == replaced(old(self).records(), updated)
            },
            r matches Err(e) ==> {
                &&& final(self).records() == old(self).records()
                &&& (e == ReservationError::StoreUnavailable || advance(old(self).records(), id)
                    == Err::<Reservation, ReservationError>(e))
            },
    ;

    /// Replaces the note of the reservation with the given id. Neither its
    /// interval nor its state changes.
    fn update_note(&mut self, id: ReservationId, note: String) -> (r: Result<
        Reservation,
        ReservationError,
    >)
        requires
            old(self).inv(),
        ensures
            final(self).inv(),
            r matches Ok(updated) ==> {
                &&& note_change(old(self).records(), id, note) == Ok::<
                    Reservation,
                    ReservationError,
                >(updated)
                &&& final(self).records() == replaced(old(self).records(), updated)
            },
            r matches Err(e) ==> {
                &&& final(self).records() == old(self).records()
                &&& (e == ReservationError::StoreUnavailable || note_change(
                    old(self).records(),
                    id,
                    note,
                ) == Err::<Reservation, ReservationError>(e))
            },
    ;

    /// Removes the reservation with the given id and returns it as it was.
    fn delete(&mut self, id: ReservationId) -> (r: Result<Reservation, ReservationError>)
        requires
            old(self).inv(),
        ensures
            final(self).inv(),
            r matches Ok(removed) ==> {
                &&& lookup(old(self).records(), id) == Ok::<Reservation, ReservationError>(removed)
                &&& final(self).records() == without(old(self).records(), id)
            },
            r matches Err(e) ==> {
                &&& final(self).records() == old(self).records()
                &&& (e == ReservationError::StoreUnavailable || lookup(old(self).records(), id)
                    == Err::<Reservation, ReservationError>(e))
            },
    ;

    /// The reservation with the given id.
    fn get(&self, id: ReservationId) -> (r: Result<Reservation, ReservationError>)
        requires
            self.inv(),
        ensures
            r == lookup(self.records(), id) || r == Err::<Reservation, ReservationError>(
                ReservationError::StoreUnavailable,
            ),
    ;

    /// The reservations that a query selects, in order of start.
    fn query(&self, query: &ReservationQuery) -> (r: Result<Vec<Reservation>, ReservationError>)
        requires
            self.inv(),
        ensures
            r matches Ok(found) ==> {
                &&& found@ == self.records().filter(selected_by(*query))
                &&& records_wf(found@)
                &&& forall|i: int| 0 <= i < found@.len() ==> query.selects(#[trigger] found@[i])
            },
            r matches Err(e) ==> e == ReservationError::StoreUnavailable,
    ;
}

/// The reservation service over a store that it owns.
pub struct ReservationManager {
    store: ReservationStore,
}

impl ReservationManager {
    /// The store of the service.
    pub closed spec fn spec_store(&self) -> &ReservationStore {
        &self.store
    }

    /// The service over the given store.
    pub fn new(store: ReservationStore) -> (manager: ReservationManager)
        requires
            store.wf(),
        ensures
            *manager.store() == store,
            manager.inv(),
    {
        ReservationManager { store }
    }

    /// The store of the service.
    #[verifier::when_used_as_spec(spec_store)]
    pub fn store(&self) -> (store: &ReservationStore)
        ensures
            store == self.spec_store(),
    {
        &self.store
    }
}

impl Rsvp for ReservationManager {
    open spec fn records(&self) -> Seq<Reservation> {
        self.store()@
    }

    open spec fn inv(&self) -> bool {
        self.store().wf()
    }

    proof fn lemma_inv_keeps_records_wf(&self) {
    }

    /// Over its own store the service fails only for want of an id, and gives
    /// the ids out in order.
    fn reserve(&mut self, rsvp: Reservation) -> (r: Result<Reservation, ReservationError>)
        ensures
            r is Ok <==> rsvp.valid_window() && old(self).store().next_id() < ReservationId::MAX,
            r matches Ok(stored) ==> {
                &&& stored.id == old(self).store().next_id()
                &&& final(self).store().next_id() == stored.id + 1
            },
            r matches Err(e) ==> {
                &&& e != ReservationError::ConflictExists
                &&& final(self).store().next_id() == old(self).store().next_id()
            },
    {
        let span = match rsvp.timespan() {
            Ok(span) => span,
            Err(e) => {
                return Err(e);
            },
        };
        let resolution = resolve(&self.store, rsvp.resource_id.as_str(), &span);
        let mut stored = rsvp;
        stored.status = resolution.status;
        match self.store.insert(stored.clone()) {
            Ok(id) => {
                stored.id = id;
                proof {
                    lemma_fresh_id(old(self).store()@, old(self).store().next_id());
                    lemma_inserted_is_found(old(self).store()@, stored);
                }
                Ok(stored)
            },
            Err(e) => Err(e),
        }
    }

    /// Over its own store the service always answers as [`advance`] says.
    fn change_status(&mut self, id: ReservationId) -> (r: Result<Reservation, ReservationError>)
        ensures
            r == advance(old(self).records(), id),
            final(self).store().next_id() == old(self).store().next_id(),
    {
        let current = match self.store.get(id) {
            Ok(current) => current,
            Err(e) => {
                return Err(e);
            },
        };
        match current.status.next() {
            Ok(to) => self.store.update_status(id, to),
            Err(e) => Err(e),
        }
    }

    /// Over its own store the service fails only where the id is unknown.
    fn update_note(&mut self, id: ReservationId, note: String) -> (r: Result<
        Reservation,
        ReservationError,
    >)
        ensures
            r == note_change(old(self).records(), id, note),
            final(self).store().next_id() == old(self).store().next_id(),
    {
        self.store.update_note(id, note)
    }

    /// Over its own store the service fails only where the id is unknown.
    fn delete(&mut self, id: ReservationId) -> (r: Result<Reservation, ReservationError>)
        ensures
            r == lookup(old(self).records(), id),
            final(self).store().next_id() == old(self).store().next_id(),
    {
        self.store.delete(id)
    }

    /// Over its own store the service fails only where the id is unknown.
    fn get(&self, id: ReservationId) -> (r: Result<Reservation, ReservationError>)
        ensures
            r == lookup(self.records(), id),
    {
        self.store.get(id)
    }

    /// Over its own store the service always answers.
    fn query(&self, query: &ReservationQuery) -> (r: Result<Vec<Reservation>, ReservationError>)
        ensures
            r is Ok,
    {
        Ok(self.store.query(query))
    }
}

/// An id above all ids on record is the id of no record.
proof fn lemma_fresh_id(records: Seq<Reservation>, id: ReservationId)
    requires
        forall|i: int| 0 <= i < records.len() ==> (#[trigger] records[i]).id < id,
    ensures
        !has_id(records, id),
{
}

/// Whatever the backend, a service never holds a double booking: of any two
/// reservations on record with different ids that are both confirmed and for
/// the same resource, the intervals have nothing in common.
pub proof fn lemma_service_never_double_books<S: Rsvp>(service: &S, a: Reservation, b: Reservation)
    requires
        service.inv(),
        service.records().contains(a),
        service.records().contains(b),
        a.id != b.id,
        a.status == ReservationStatus::Confirmed,
        b.status == ReservationStatus::Confirmed,
        a.resource_id@ == b.resource_id@,
    ensures
        !a.window().overlaps(&b.window()),
{
    service.lemma_inv_keeps_records_wf();
    lemma_confirmed_never_overlap(service.records(), a, b);
}

/// Of two requests for one resource whose intervals overlap, recorded one after
/// the other, at most one is confirmed: the second is blocked whenever the
/// first is confirmed. Where nothing on record was in the way of the first,
/// exactly one is confirmed, the first.
pub proof fn lemma_overlapping_requests_are_not_both_confirmed(
    records: Seq<Reservation>,
    first: Reservation,
    second: Reservation,
    id: ReservationId,
)
    requires
        first.valid_window(),
        second.valid_window(),
        first.resource_id@ == second.resource_id@,
        first.window().overlaps(&second.window()),
    ensures
        ({
            let stored = recorded(records, first, id);
            let other = assigned_status(
                with_record(records, stored),
                second.resource_id@,
                second.window(),
            );
            &&& !(stored.status == ReservationStatus::Confirmed && other
                == ReservationStatus::Confirmed)
            &&& stored.status == ReservationStatus::Confirmed ==> other
                == ReservationStatus::Blocked
            &&& !has_conflict(records, first.resource_id@, first.window()) ==> stored.status
                == ReservationStatus::Confirmed && other == ReservationStatus::Blocked
        }),
{
    let stored = recorded(records, first, id);
    let after = with_record(records, stored);
    let k = place_for(records, stored.window().start);
    lemma_place_for_is_a_place(records, stored.window().start);
    assert(after[k] == stored);
    if stored.status == ReservationStatus::Confirmed {
        assert(after[k].conflicts_with(second.resource_id@, second.window()));
    }
}

/// Advancing a pending reservation confirms it, unless a confirmed reservation
/// of its resource overlaps it: then it fails with `ConflictExists`. Once
/// confirmed, the reservation is found as confirmed.
pub proof fn lemma_confirming_a_pending_reservation(records: Seq<Reservation>, id: ReservationId)
    requires
        records_wf(records),
        has_id(records, id),
        record_with_id(records, id).status == ReservationStatus::Pending,
    ensures
        ({
            let current = record_with_id(records, id);
            let confirmed = Reservation { status: ReservationStatus::Confirmed, ..current };
            if has_conflict(records, current.resource_id@, current.window()) {
                advance(records, id) == Err::<Reservation, ReservationError>(
                    ReservationError::ConflictExists,
                )
            } else {
                &&& advance(records, id) == Ok::<Reservation, ReservationError>(confirmed)
                &&& lookup(replaced(records, confirmed), id) == Ok::<
                    Reservation,
                    ReservationError,
                >(confirmed)
            }
        }),
{
    let current = record_with_id(records, id);
    let confirmed = Reservation { status: ReservationStatus::Confirmed, ..current };
    if !has_conflict(records, current.resource_id@, current.window()) {
        let k = index_of_id(records, id);
        lemma_index_of_id(records, k);
        lemma_update_keeps_wf(records, k, confirmed);
        lemma_replaced_is_found(records, confirmed);
    }
}

/// Advancing follows the lifecycle: a blocked reservation becomes pending,
/// whatever else is on record, and a confirmed or unknown one is refused with
/// `InvalidState`.
pub proof fn lemma_advance_follows_the_lifecycle(records: Seq<Reservation>, id: ReservationId)
    requires
        has_id(records, id),
    ensures
        ({
            let current = record_with_id(records, id);
            &&& current.status == ReservationStatus::Blocked ==> advance(records, id) == Ok::<
                Reservation,
                ReservationError,
            >(Reservation { status: ReservationStatus::Pending, ..current })
            &&& current.status == ReservationStatus::Confirmed || current.status
                == ReservationStatus::Unknown ==> advance(records, id) == Err::<
                Reservation,
                ReservationError,
            >(ReservationError::InvalidState)
        }),
{
}

} // verus!
