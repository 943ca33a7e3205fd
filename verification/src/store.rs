//! The store: the authoritative set of reservations, kept in order of start.
//!
//! The store is the last line of defence of the engine's guarantee. Whatever its
//! callers do, it never holds two confirmed reservations of one resource whose
//! intervals overlap.

use crate::error::ReservationError;
use crate::reservation::{
    lemma_window_is_overlap, Reservation, ReservationId, ReservationQuery,
};
use crate::status::ReservationStatus;
use crate::timespan::Timespan;
use crate::timestamp::UtcDateTime;
use vstd::prelude::*;

verus! {

/// Whether some record has the given id.
pub open spec fn has_id(records: Seq<Reservation>, id: ReservationId) -> bool {
    exists|i: int| 0 <= i < records.len() && (#[trigger] records[i]).id == id
}

/// The place of the record with the given id, where there is one.
pub open spec fn index_of_id(records: Seq<Reservation>, id: ReservationId) -> int {
    choose|i: int| 0 <= i < records.len() && (#[trigger] records[i]).id == id
}

/// The record with the given id, where there is one.
pub open spec fn record_with_id(records: Seq<Reservation>, id: ReservationId) -> Reservation {
    records[index_of_id(records, id)]
}

/// Whether some record holds `resource` exclusively during some part of `span`.
pub open spec fn has_conflict(
    records: Seq<Reservation>,
    resource: Seq<char>,
    span: Timespan,
) -> bool {
    exists|i: int| 0 <= i < records.len() && (#[trigger] records[i]).conflicts_with(resource, span)
}

/// Whether `a` comes before `b` in the order of the store: by start, and among
/// equal starts by id.
pub open spec fn starts_in_order(a: Reservation, b: Reservation) -> bool {
    ||| a.window().start.before(b.window().start)
    ||| (a.window().start == b.window().start && a.id < b.id)
}

/// Whether two records are both confirmed, for the same resource, over
/// intervals that overlap: what the store never holds.
pub open spec fn double_booked(a: Reservation, b: Reservation) -> bool {
    a.status == ReservationStatus::Confirmed && b.conflicts_with(a.resource_id@, a.window())
}

/// Whether the record `a` may stand somewhere before the record `b`.
pub open spec fn may_precede(a: Reservation, b: Reservation) -> bool {
    &&& a.id != b.id
    &&& starts_in_order(a, b)
    &&& !double_booked(a, b)
}

/// What holds of the records of a store at all times: each has an acceptable
/// interval and an id other than 0, no two share an id, they stand in order of
/// start, and no two confirmed ones of one resource overlap.
pub open spec fn records_wf(records: Seq<Reservation>) -> bool {
    &&& forall|i: int|
        0 <= i < records.len() ==> (#[trigger] records[i]).valid_window() && records[i].id != 0
    &&& forall|i: int, j: int|
        0 <= i < j < records.len() ==> may_precede(#[trigger] records[i], #[trigger] records[j])
}

/// The place at which a new record that starts at `start` is put in: behind the
/// records that do not start later. Among records in order of start that is
/// the number of records that start at `start` or before.
pub open spec fn place_for(records: Seq<Reservation>, start: UtcDateTime) -> int
    decreases records.len(),
{
    if records.len() == 0 {
        0
    } else if start.before(records.last().window().start) {
        place_for(records.drop_last(), start)
    } else {
        records.len() as int
    }
}

/// The records with a new record put in at its place.
pub open spec fn with_record(records: Seq<Reservation>, record: Reservation) -> Seq<Reservation> {
    records.insert(place_for(records, record.window().start), record)
}

/// What looking up an id gives.
pub open spec fn lookup(records: Seq<Reservation>, id: ReservationId) -> Result<
    Reservation,
    ReservationError,
> {
    if has_id(records, id) {
        Ok(record_with_id(records, id))
    } else {
        Err(ReservationError::NotFound)
    }
}

/// The records without the one that has the given id.
pub open spec fn without(records: Seq<Reservation>, id: ReservationId) -> Seq<Reservation> {
    if has_id(records, id) {
        records.remove(index_of_id(records, id))
    } else {
        records
    }
}

/// The records with `record` in the place of the one that has its id.
pub open spec fn replaced(records: Seq<Reservation>, record: Reservation) -> Seq<Reservation> {
    if has_id(records, record.id) {
        records.update(index_of_id(records, record.id), record)
    } else {
        records
    }
}

/// Why a record cannot be put into the store, if it cannot: its interval is not
/// acceptable; or it is confirmed and another confirmed record is in its way;
/// or no id is left to give it.
pub open spec fn insert_refusal(
    records: Seq<Reservation>,
    next_id: ReservationId,
    record: Reservation,
) -> Option<ReservationError> {
    if !record.valid_window() {
        Some(ReservationError::InvalidTime)
    } else if record.status == ReservationStatus::Confirmed && has_conflict(
        records,
        record.resource_id@,
        record.window(),
    ) {
        Some(ReservationError::ConflictExists)
    } else if next_id == ReservationId::MAX {
        Some(ReservationError::StoreUnavailable)
    } else {
        None
    }
}

/// What moving the record with the given id to the state `to` gives: the record
/// in its new state; or `NotFound`; or `InvalidState` where the transition is
/// not a legal one; or `ConflictExists` where the record would be confirmed
/// while another confirmed record is in its way.
pub open spec fn status_change(
    records: Seq<Reservation>,
    id: ReservationId,
    to: ReservationStatus,
) -> Result<Reservation, ReservationError> {
    if !has_id(records, id) {
        Err(ReservationError::NotFound)
    } else {
        let current = record_with_id(records, id);
        let taken = has_conflict(records, current.resource_id@, current.window());
        match current.status.moved_to(to, taken) {
            Ok(status) => Ok(Reservation { status: status, ..current }),
            Err(e) => Err(e),
        }
    }
}

/// What replacing the note of the record with the given id gives.
pub open spec fn note_change(
    records: Seq<Reservation>,
    id: ReservationId,
    note: String,
) -> Result<Reservation, ReservationError> {
    if has_id(records, id) {
        Ok(Reservation { note: note, ..record_with_id(records, id) })
    } else {
        Err(ReservationError::NotFound)
    }
}

/// The test that picks the records of `resource`, in the state `status` if one
/// is given, whose interval overlaps `span`.
pub open spec fn overlapping(
    resource: Seq<char>,
    span: Timespan,
    status: Option<ReservationStatus>,
) -> spec_fn(Reservation) -> bool {
    |r: Reservation|
        {
            &&& r.resource_id@ == resource
            &&& r.window().overlaps(&span)
            &&& status matches Some(wanted) ==> r.status == wanted
        }
}

/// The test that picks the records that a query selects.
pub open spec fn selected_by(query: ReservationQuery) -> spec_fn(Reservation) -> bool {
    |r: Reservation| query.selects(r)
}

/// The set of reservations, in order of start.
pub struct ReservationStore {
    records: Vec<Reservation>,
    next_id: ReservationId,
}

impl View for ReservationStore {
    type V = Seq<Reservation>;

    /// The records, in order of start and, among equal starts, of id.
    closed spec fn view(&self) -> Seq<Reservation> {
        self.records@
    }
}

impl ReservationStore {
    /// The id that the next record will get. It only grows, so no id is ever
    /// given twice.
    pub closed spec fn next_id(&self) -> ReservationId {
        self.next_id
    }

    /// What holds of a store at all times.
    pub open spec fn wf(&self) -> bool {
        &&& records_wf(self@)
        &&& self.next_id() >= 1
        &&& forall|i: int| 0 <= i < self@.len() ==> (#[trigger] self@[i]).id < self.next_id()
    }

    /// A store without records.
    pub fn new() -> (store: ReservationStore)
        ensures
            store@ == Seq::<Reservation>::empty(),
            store.next_id() == 1,
            store.wf(),
    {
        ReservationStore { records: Vec::new(), next_id: 1 }
    }

    /// A store without records that gives out `first_id` first, or 1 where
    /// `first_id` is 0.
    pub fn with_first_id(first_id: ReservationId) -> (store: ReservationStore)
        ensures
            store@ == Seq::<Reservation>::empty(),
            store.next_id() == if first_id == 0 {
                1
            } else {
                first_id
            },
            store.wf(),
    {
        let next_id: ReservationId = if first_id == 0 {
            1
        } else {
            first_id
        };
        ReservationStore { records: Vec::new(), next_id }
    }

    /// The number of records.
    pub fn len(&self) -> (n: usize)
        ensures
            n == self@.len(),
    {
        self.records.len()
    }

    /// The place of the record with the given id.
    fn find(&self, id: ReservationId) -> (found: Option<usize>)
        requires
            self.wf(),
        ensures
            found is Some <==> has_id(self@, id),
            found matches Some(i) ==> i < self@.len() && i == index_of_id(self@, id)
                && self@[i as int].id == id,
    {
        let mut i: usize = 0;
        while i < self.records.len()
            invariant
                self.wf(),
                i <= self.records@.len(),
                forall|j: int| 0 <= j < i ==> (#[trigger] self.records@[j]).id != id,
            decreases self.records@.len() - i,
        {
            if self.records[i].id == id {
                proof {
                    lemma_index_of_id(self@, i as int);
                }
                return Some(i);
            }
            i += 1;
        }
        None
    }

    /// The record with the given id, or `NotFound`.
    pub fn get(&self, id: ReservationId) -> (r: Result<Reservation, ReservationError>)
        requires
            self.wf(),
        ensures
            r == lookup(self@, id),
    {
        match self.find(id) {
            Some(i) => Ok(self.records[i].clone()),
            None => Err(ReservationError::NotFound),
        }
    }

    /// Whether a confirmed record holds `resource_id` during some part of
    /// `span`.
    pub fn is_taken(&self, resource_id: &str, span: &Timespan) -> (taken: bool)
        requires
            self.wf(),
        ensures
            taken == has_conflict(self@, resource_id@, *span),
    {
        let resource: String = resource_id.to_owned();
        let mut i: usize = 0;
        while i < self.records.len()
            invariant
                self.wf(),
                resource@ == resource_id@,
                i <= self.records@.len(),
                forall|j: int|
                    0 <= j < i ==> !(#[trigger] self.records@[j]).conflicts_with(
                        resource_id@,
                        *span,
                    ),
            decreases self.records@.len() - i,
        {
            let record = &self.records[i];
            if record.status == ReservationStatus::Confirmed && record.resource_id == resource {
                let held = record.accepted_window();
                if held.overlaps(span) {
                    return true;
                }
            }
            i += 1;
        }
        false
    }

    /// Puts a record into the store and gives it the next id, whatever id it
    /// came with. Returns that id.
    ///
    /// Refused, the store staying as it is, with `InvalidTime` where the
    /// interval is not acceptable; with `ConflictExists` where the record is
    /// confirmed and another confirmed record of its resource overlaps it; with
    /// `StoreUnavailable` where no id is left.
    pub fn insert(&mut self, reservation: Reservation) -> (r: Result<
        ReservationId,
        ReservationError,
    >)
        requires
            old(self).wf(),
        ensures
            final(self).wf(),
            r is Err <==> insert_refusal(old(self)@, old(self).next_id(), reservation) is Some,
            r matches Err(e) ==> {
                &&& insert_refusal(old(self)@, old(self).next_id(), reservation) == Some(e)
                &&& final(self)@ == old(self)@
                &&& final(self).next_id() == old(self).next_id()
            },
            r matches Ok(id) ==> {
                &&& id == old(self).next_id()
                &&& final(self).next_id() == id + 1
                &&& final(self)@ == with_record(old(self)@, (Reservation { id: id, ..reservation }))
            },
    {
        let span = match reservation.timespan() {
            Ok(span) => span,
            Err(e) => {
                return Err(e);
            },
        };
        if reservation.status == ReservationStatus::Confirmed && self.is_taken(
            reservation.resource_id.as_str(),
            &span,
        ) {
            return Err(ReservationError::ConflictExists);
        }
        if self.next_id == ReservationId::MAX {
            return Err(ReservationError::StoreUnavailable);
        }
        let id: ReservationId = self.next_id;
        let mut record = reservation;
        record.id = id;
        let n: usize = self.records.len();
        let mut k: usize = 0;
        while k < n
            invariant
                self.wf(),
                n == self.records@.len(),
                k <= n,
                forall|j: int|
                    0 <= j < k ==> !span.start.before((#[trigger] self.records@[j]).window().start),
            ensures
                k <= n,
                k < n ==> span.start.before(self.records@[k as int].window().start),
            decreases n - k,
        {
            let held = self.records[k].accepted_window();
            if span.start.is_before(&held.start) {
                break;
            }
            k += 1;
        }
        proof {
            lemma_insert_keeps_wf(self@, k as int, record);
        }
        self.records.insert(k, record);
        self.next_id = id + 1;
        Ok(id)
    }

    /// Moves the record with the given id to the state `to` and returns it as it
    /// then is.
    ///
    /// Refused, the store staying as it is, with `NotFound`; with `InvalidState`
    /// where the transition is not a legal one; with `ConflictExists` where the
    /// record would be confirmed while another confirmed record of its resource
    /// overlaps it.
    pub fn update_status(&mut self, id: ReservationId, to: ReservationStatus) -> (r: Result<
        Reservation,
        ReservationError,
    >)
        requires
            old(self).wf(),
        ensures
            final(self).wf(),
            r == status_change(old(self)@, id, to),
            final(self)@ == (match r {
                Ok(updated) => replaced(old(self)@, updated),
                Err(_) => old(self)@,
            }),
            final(self).next_id() == old(self).next_id(),
    {
        let i: usize = match self.find(id) {
            Some(i) => i,
            None => {
                return Err(ReservationError::NotFound);
            },
        };
        let mut record = self.records[i].clone();
        let span = record.accepted_window();
        let taken = to == ReservationStatus::Confirmed && self.is_taken(
            record.resource_id.as_str(),
            &span,
        );
        record.status = match record.status.transition_to(to, taken) {
            Ok(status) => status,
            Err(e) => {
                return Err(e);
            },
        };
        let stored = record.clone();
        proof {
            lemma_update_keeps_wf(self@, i as int, stored);
        }
        self.records.set(i, stored);
        Ok(record)
    }

    /// Replaces the note of the record with the given id and returns the record
    /// as it then is, or `NotFound`. Nothing but the note changes.
    pub fn update_note(&mut self, id: ReservationId, note: String) -> (r: Result<
        Reservation,
        ReservationError,
    >)
        requires
            old(self).wf(),
        ensures
            final(self).wf(),
            r == note_change(old(self)@, id, note),
            final(self)@ == (match r {
                Ok(updated) => replaced(old(self)@, updated),
                Err(_) => old(self)@,
            }),
            final(self).next_id() == old(self).next_id(),
    {
        let i: usize = match self.find(id) {
            Some(i) => i,
            None => {
                return Err(ReservationError::NotFound);
            },
        };
        let mut record = self.records[i].clone();
        record.note = note;
        let stored = record.clone();
        proof {
            lemma_update_keeps_wf(self@, i as int, stored);
        }
        self.records.set(i, stored);
        Ok(record)
    }

    /// Removes the record with the given id and returns it as it was, or
    /// `NotFound`. Its id is not given out again.
    pub fn delete(&mut self, id: ReservationId) -> (r: Result<Reservation, ReservationError>)
        requires
            old(self).wf(),
        ensures
            final(self).wf(),
            r == lookup(old(self)@, id),
            final(self)@ == without(old(self)@, id),
            final(self).next_id() == old(self).next_id(),
    {
        match self.find(id) {
            Some(i) => {
                proof {
                    lemma_remove_keeps_wf(self@, i as int);
                }
                let removed = self.records.remove(i);
                Ok(removed)
            },
            None => Err(ReservationError::NotFound),
        }
    }

    /// The records of `resource_id`, in the state `status` if one is given,
    /// whose interval overlaps `span`, in order of start.
    pub fn find_overlapping(
        &self,
        resource_id: &str,
        span: &Timespan,
        status: Option<ReservationStatus>,
    ) -> (found: Vec<Reservation>)
        requires
            self.wf(),
        ensures
            found@ == self@.filter(overlapping(resource_id@, *span, status)),
            records_wf(found@),
            forall|i: int|
                0 <= i < found@.len() ==> {
                    &&& (#[trigger] found@[i]).resource_id@ == resource_id@
                    &&& found@[i].window().overlaps(span)
                    &&& status matches Some(wanted) ==> found@[i].status == wanted
                },
    {
        let resource: String = resource_id.to_owned();
        let ghost pick = overlapping(resource_id@, *span, status);
        let mut found: Vec<Reservation> = Vec::new();
        let mut i: usize = 0;
        proof {
            lemma_filter_of_nothing(self@, pick);
        }
        while i < self.records.len()
            invariant
                self.wf(),
                resource@ == resource_id@,
                pick == overlapping(resource_id@, *span, status),
                i <= self.records@.len(),
                found@ == self.records@.subrange(0, i as int).filter(pick),
            decreases self.records@.len() - i,
        {
            let record = &self.records[i];
            let status_ok = match status {
                Some(wanted) => record.status == wanted,
                None => true,
            };
            proof {
                lemma_filter_step(self.records@, i as int, pick);
            }
            if status_ok && record.resource_id == resource {
                let held = record.accepted_window();
                if held.overlaps(span) {
                    found.push(record.clone());
                }
            }
            i += 1;
        }
        proof {
            assert(self.records@.subrange(0, i as int) =~= self.records@);
            lemma_selection(self@, pick);
        }
        found
    }

    /// The records that a query selects, in order of start. No record selected
    /// is no error: the result is then empty.
    pub fn query(&self, query: &ReservationQuery) -> (found: Vec<Reservation>)
        requires
            self.wf(),
        ensures
            found@ == self@.filter(selected_by(*query)),
            records_wf(found@),
            forall|i: int| 0 <= i < found@.len() ==> query.selects(#[trigger] found@[i]),
    {
        let ghost pick = selected_by(*query);
        let mut found: Vec<Reservation> = Vec::new();
        let mut i: usize = 0;
        proof {
            lemma_filter_of_nothing(self@, pick);
        }
        while i < self.records.len()
            invariant
                self.wf(),
                pick == selected_by(*query),
                i <= self.records@.len(),
                found@ == self.records@.subrange(0, i as int).filter(pick),
            decreases self.records@.len() - i,
        {
            let record = &self.records[i];
            proof {
                lemma_filter_step(self.records@, i as int, pick);
            }
            if query.matches(record) {
                found.push(record.clone());
            }
            i += 1;
        }
        proof {
            assert(self.records@.subrange(0, i as int) =~= self.records@);
            lemma_selection(self@, pick);
        }
        found
    }
}

proof fn lemma_filter_of_nothing(records: Seq<Reservation>, pick: spec_fn(Reservation) -> bool)
    ensures
        records.subrange(0, 0).filter(pick) == Seq::<Reservation>::empty(),
{
    reveal(Seq::filter);
    assert(records.subrange(0, 0).len() == 0);
}

proof fn lemma_filter_step(records: Seq<Reservation>, i: int, pick: spec_fn(Reservation) -> bool)
    requires
        0 <= i < records.len(),
    ensures
        records.subrange(0, i + 1).filter(pick) == if pick(records[i]) {
            records.subrange(0, i).filter(pick).push(records[i])
        } else {
            records.subrange(0, i).filter(pick)
        },
{
    reveal(Seq::filter);
    let prefix = records.subrange(0, i + 1);
    assert(prefix.drop_last() =~= records.subrange(0, i));
    assert(prefix.last() == records[i]);
}

/// Among records in order of start, the place for a new record is the one
/// place with no later start before it and only later starts behind it.
proof fn lemma_place_for(records: Seq<Reservation>, start: UtcDateTime, k: int)
    requires
        records_wf(records),
        0 <= k <= records.len(),
        forall|j: int| 0 <= j < k ==> !start.before((#[trigger] records[j]).window().start),
        k < records.len() ==> start.before(records[k].window().start),
    ensures
        place_for(records, start) == k,
    decreases records.len(),
{
    if records.len() > 0 {
        let n = records.len() - 1;
        let init = records.drop_last();
        if start.before(records[n].window().start) {
            assert(k <= n);
            lemma_drop_last_keeps_wf(records);
            assert forall|j: int| 0 <= j < k implies !start.before(
                (#[trigger] init[j]).window().start,
            ) by {
                assert(init[j] == records[j]);
            }
            lemma_place_for(init, start, k);
        } else if k < records.len() {
            if k < n {
                assert(may_precede(records[k], records[n]));
            }
        }
    }
}

/// The place for a new record is a place.
pub proof fn lemma_place_for_is_a_place(records: Seq<Reservation>, start: UtcDateTime)
    ensures
        0 <= place_for(records, start) <= records.len(),
    decreases records.len(),
{
    if records.len() > 0 {
        lemma_place_for_is_a_place(records.drop_last(), start);
    }
}

/// Records stay as they should be when the last one is left out.
proof fn lemma_drop_last_keeps_wf(records: Seq<Reservation>)
    requires
        records_wf(records),
        records.len() > 0,
    ensures
        records_wf(records.drop_last()),
{
    let init = records.drop_last();
    assert forall|i: int, j: int| 0 <= i < j < init.len() implies may_precede(
        #[trigger] init[i],
        #[trigger] init[j],
    ) by {
        assert(may_precede(records[i], records[j]));
    }
    assert forall|i: int| 0 <= i < init.len() implies (#[trigger] init[i]).valid_window()
        && init[i].id != 0 by {
        assert(init[i] == records[i]);
    }
}

/// A record with a new id, put in where the order of starts wants it, and in
/// nobody's way, leaves the records as they should be.
proof fn lemma_insert_keeps_wf(records: Seq<Reservation>, k: int, record: Reservation)
    requires
        records_wf(records),
        0 <= k <= records.len(),
        record.valid_window(),
        record.id != 0,
        forall|j: int| 0 <= j < records.len() ==> (#[trigger] records[j]).id < record.id,
        forall|j: int|
            0 <= j < k ==> !record.window().start.before((#[trigger] records[j]).window().start),
        k < records.len() ==> record.window().start.before(records[k].window().start),
        record.status == ReservationStatus::Confirmed ==> !has_conflict(
            records,
            record.resource_id@,
            record.window(),
        ),
    ensures
        k == place_for(records, record.window().start),
        records_wf(with_record(records, record)),
{
    lemma_place_for(records, record.window().start, k);
    let after = records.insert(k, record);
    assert forall|i: int, j: int| 0 <= i < j < after.len() implies may_precede(
        #[trigger] after[i],
        #[trigger] after[j],
    ) by {
        if j == k {
            assert(after[i] == records[i]);
            assert(!records[i].conflicts_with(record.resource_id@, record.window())
                || record.status != ReservationStatus::Confirmed);
        } else if i == k {
            assert(after[j] == records[j - 1]);
            assert(!records[j - 1].conflicts_with(record.resource_id@, record.window())
                || record.status != ReservationStatus::Confirmed);
            if k < j - 1 {
                assert(may_precede(records[k], records[j - 1]));
            }
        } else {
            let a = if i < k { i } else { i - 1 };
            let b = if j < k { j } else { j - 1 };
            assert(after[i] == records[a] && after[j] == records[b]);
            assert(may_precede(records[a], records[b]));
        }
    }
    assert forall|i: int| 0 <= i < after.len() implies (#[trigger] after[i]).valid_window()
        && after[i].id != 0 by {
        if i < k {
            assert(after[i] == records[i]);
        } else if i > k {
            assert(after[i] == records[i - 1]);
        }
    }
}

/// Taking a record out leaves the records as they should be.
proof fn lemma_remove_keeps_wf(records: Seq<Reservation>, k: int)
    requires
        records_wf(records),
        0 <= k < records.len(),
    ensures
        records_wf(records.remove(k)),
{
    let after = records.remove(k);
    assert forall|i: int, j: int| 0 <= i < j < after.len() implies may_precede(
        #[trigger] after[i],
        #[trigger] after[j],
    ) by {
        let a = if i < k { i } else { i + 1 };
        let b = if j < k { j } else { j + 1 };
        assert(after[i] == records[a] && after[j] == records[b]);
        assert(may_precede(records[a], records[b]));
    }
    assert forall|i: int| 0 <= i < after.len() implies (#[trigger] after[i]).valid_window()
        && after[i].id != 0 by {
        let a = if i < k { i } else { i + 1 };
        assert(after[i] == records[a]);
    }
}

/// A record may take the place of another with the same id and interval and
/// for the same resource, if it is not confirmed or nothing is in its way.
pub(crate) proof fn lemma_update_keeps_wf(records: Seq<Reservation>, k: int, record: Reservation)
    requires
        records_wf(records),
        0 <= k < records.len(),
        record.id == records[k].id,
        record.start_time == records[k].start_time,
        record.end_time == records[k].end_time,
        record.resource_id == records[k].resource_id,
        record.status == records[k].status || record.status != ReservationStatus::Confirmed
            || !has_conflict(records, record.resource_id@, record.window()),
    ensures
        records_wf(records.update(k, record)),
{
    let after = records.update(k, record);
    assert(records[k].valid_window());
    assert forall|i: int, j: int| 0 <= i < j < after.len() implies may_precede(
        #[trigger] after[i],
        #[trigger] after[j],
    ) by {
        assert(may_precede(records[i], records[j]));
        if i == k {
            assert(!records[j].conflicts_with(record.resource_id@, record.window())
                || record.status != ReservationStatus::Confirmed
                || record.status == records[k].status);
        } else if j == k {
            assert(!records[i].conflicts_with(record.resource_id@, record.window())
                || record.status != ReservationStatus::Confirmed
                || record.status == records[k].status);
        }
    }
}

/// Among records that do not share ids, the place of a record is the place of
/// its id.
pub proof fn lemma_index_of_id(records: Seq<Reservation>, i: int)
    requires
        records_wf(records),
        0 <= i < records.len(),
    ensures
        has_id(records, records[i].id),
        index_of_id(records, records[i].id) == i,
        record_with_id(records, records[i].id) == records[i],
{
    let id = records[i].id;
    let k = index_of_id(records, id);
    assert(0 <= k < records.len() && records[k].id == id);
    if k < i {
        assert(may_precede(records[k], records[i]));
    } else if i < k {
        assert(may_precede(records[i], records[k]));
    }
}

/// No two confirmed reservations of one resource overlap: of any two records
/// with different ids that are both confirmed and for the same resource, the
/// intervals have nothing in common.
pub proof fn lemma_confirmed_never_overlap(records: Seq<Reservation>, a: Reservation, b: Reservation)
    requires
        records_wf(records),
        records.contains(a),
        records.contains(b),
        a.id != b.id,
        a.status == ReservationStatus::Confirmed,
        b.status == ReservationStatus::Confirmed,
        a.resource_id@ == b.resource_id@,
    ensures
        !a.window().overlaps(&b.window()),
{
    let i = choose|i: int| 0 <= i < records.len() && records[i] == a;
    let j = choose|j: int| 0 <= j < records.len() && records[j] == b;
    if i < j {
        assert(may_precede(records[i], records[j]));
    } else if j < i {
        assert(may_precede(records[j], records[i]));
    }
}

/// The records stand in ascending order of start.
pub proof fn lemma_records_ascend(records: Seq<Reservation>, i: int, j: int)
    requires
        records_wf(records),
        0 <= i <= j < records.len(),
    ensures
        !records[j].window().start.before(records[i].window().start),
{
    if i < j {
        assert(may_precede(records[i], records[j]));
    }
}

/// A record that was put in is found under its id, as it was put in, and the
/// others are found as before.
pub proof fn lemma_inserted_is_found(before: Seq<Reservation>, record: Reservation)
    requires
        records_wf(with_record(before, record)),
    ensures
        lookup(with_record(before, record), record.id) == Ok::<Reservation, ReservationError>(
            record,
        ),
        with_record(before, record).len() == before.len() + 1,
        forall|id: ReservationId|
            id != record.id ==> #[trigger] lookup(with_record(before, record), id) == lookup(
                before,
                id,
            ),
{
    let after = with_record(before, record);
    let k = place_for(before, record.window().start);
    lemma_place_for_is_a_place(before, record.window().start);
    assert(after[k] == record);
    lemma_index_of_id(after, k);
    assert forall|id: ReservationId| id != record.id implies #[trigger] lookup(after, id)
        == lookup(before, id) by {
        if has_id(before, id) {
            let i = index_of_id(before, id);
            let to = if i < k { i } else { i + 1 };
            assert(after[to] == before[i]);
            lemma_index_of_id(after, to);
        }
        if has_id(after, id) {
            let i = index_of_id(after, id);
            let from = if i < k { i } else { i - 1 };
            assert(after[i] == before[from]);
            assert(has_id(before, id));
        }
    }
}

/// A record that was deleted is not found any more, and the others are found
/// as before.
pub proof fn lemma_deleted_is_gone(records: Seq<Reservation>, id: ReservationId)
    requires
        records_wf(records),
    ensures
        lookup(without(records, id), id) == Err::<Reservation, ReservationError>(
            ReservationError::NotFound,
        ),
        records_wf(without(records, id)),
        forall|other: ReservationId|
            other != id ==> #[trigger] lookup(without(records, id), other) == lookup(
                records,
                other,
            ),
{
    if has_id(records, id) {
        let k = index_of_id(records, id);
        let after = records.remove(k);
        lemma_remove_keeps_wf(records, k);
        lemma_index_of_id(records, k);
        if has_id(after, id) {
            let i = index_of_id(after, id);
            let from = if i < k { i } else { i + 1 };
            assert(after[i] == records[from]);
            lemma_index_of_id(records, from);
        }
        assert forall|other: ReservationId| other != id implies #[trigger] lookup(after, other)
            == lookup(records, other) by {
            if has_id(records, other) {
                let i = index_of_id(records, other);
                let to = if i < k { i } else { i - 1 };
                assert(after[to] == records[i]);
                lemma_index_of_id(after, to);
            }
            if has_id(after, other) {
                let i = index_of_id(after, other);
                let from = if i < k { i } else { i + 1 };
                assert(after[i] == records[from]);
                assert(has_id(records, other));
            }
        }
    }
}

/// A record that took the place of the one with its id is found under that id,
/// and the others are found as before.
pub proof fn lemma_replaced_is_found(records: Seq<Reservation>, record: Reservation)
    requires
        records_wf(records),
        has_id(records, record.id),
        records_wf(replaced(records, record)),
    ensures
        lookup(replaced(records, record), record.id) == Ok::<Reservation, ReservationError>(
            record,
        ),
        forall|other: ReservationId|
            other != record.id ==> #[trigger] lookup(replaced(records, record), other) == lookup(
                records,
                other,
            ),
{
    let k = index_of_id(records, record.id);
    let after = records.update(k, record);
    assert(after[k] == record);
    lemma_index_of_id(after, k);
    assert forall|other: ReservationId| other != record.id implies #[trigger] lookup(
        after,
        other,
    ) == lookup(records, other) by {
        if has_id(records, other) {
            let i = index_of_id(records, other);
            assert(after[i] == records[i]);
            lemma_index_of_id(after, i);
        }
        if has_id(after, other) {
            let i = index_of_id(after, other);
            assert(after[i] == records[i]);
            assert(has_id(records, other));
        }
    }
}

/// A selection of the records holds exactly the records that pass the test,
/// and is itself as records should be: in ascending order of start, without a
/// shared id, without a double booking.
pub proof fn lemma_selection(records: Seq<Reservation>, pick: spec_fn(Reservation) -> bool)
    requires
        records_wf(records),
    ensures
        records_wf(records.filter(pick)),
        forall|i: int|
            0 <= i < records.filter(pick).len() ==> pick(#[trigger] records.filter(pick)[i])
                && records.contains(records.filter(pick)[i]),
        forall|i: int|
            0 <= i < records.len() && pick(#[trigger] records[i]) ==> records.filter(
                pick,
            ).contains(records[i]),
    decreases records.len(),
{
    reveal(Seq::filter);
    let found = records.filter(pick);
    if records.len() > 0 {
        let init = records.drop_last();
        let last = records.last();
        let sub = init.filter(pick);
        lemma_drop_last_keeps_wf(records);
        lemma_selection(init, pick);
        assert forall|i: int| 0 <= i < found.len() implies pick(#[trigger] found[i])
            && records.contains(found[i]) by {
            if i < sub.len() {
                assert(found[i] == sub[i]);
                let at = choose|at: int| 0 <= at < init.len() && init[at] == sub[i];
                assert(records[at] == found[i]);
            } else {
                assert(found[i] == last);
                assert(records[records.len() - 1] == last);
            }
        }
        assert forall|i: int| 0 <= i < records.len() && pick(
            #[trigger] records[i],
        ) implies found.contains(records[i]) by {
            if i < init.len() {
                assert(init[i] == records[i]);
                let at = choose|at: int| 0 <= at < sub.len() && sub[at] == init[i];
                assert(found[at] == records[i]);
            } else {
                assert(found[found.len() - 1] == records[i]);
            }
        }
        assert forall|i: int, j: int| 0 <= i < j < found.len() implies may_precede(
            #[trigger] found[i],
            #[trigger] found[j],
        ) by {
            if j < sub.len() {
                assert(may_precede(sub[i], sub[j]));
            } else {
                let at = choose|at: int| 0 <= at < init.len() && init[at] == sub[i];
                assert(may_precede(records[at], records[records.len() - 1]));
            }
        }
        assert forall|i: int| 0 <= i < found.len() implies (#[trigger] found[i]).valid_window()
            && found[i].id != 0 by {
            let at = choose|at: int| 0 <= at < records.len() && records[at] == found[i];
            assert(records[at].valid_window());
        }
    }
}

/// What a query gives: only records that it selects, all of them, in ascending
/// order of start.
pub proof fn lemma_query_result(records: Seq<Reservation>, query: ReservationQuery)
    requires
        records_wf(records),
    ensures
        ({
            let found = records.filter(selected_by(query));
            &&& forall|i: int|
                0 <= i < found.len() ==> query.selects(#[trigger] found[i]) && records.contains(
                    found[i],
                )
            &&& forall|i: int|
                0 <= i < records.len() && query.selects(#[trigger] records[i])
                    ==> found.contains(records[i])
            &&& forall|i: int, j: int|
                0 <= i <= j < found.len() ==> !(#[trigger] found[j]).window().start.before(
                    (#[trigger] found[i]).window().start,
                )
        }),
{
    let found = records.filter(selected_by(query));
    lemma_selection(records, selected_by(query));
    assert forall|i: int, j: int| 0 <= i <= j < found.len() implies !(
    #[trigger] found[j]).window().start.before((#[trigger] found[i]).window().start) by {
        lemma_records_ascend(found, i, j);
    }
}

/// A query by resource and time window gives only reservations of that resource
/// whose interval overlaps the window, in ascending order of start.
pub proof fn lemma_query_by_resource_and_window(records: Seq<Reservation>, query: ReservationQuery)
    requires
        records_wf(records),
        query.resource_id is Some,
        query.start matches Some(start) && start.is_utc_time(),
        query.end matches Some(end) && end.is_utc_time(),
    ensures
        ({
            let found = records.filter(selected_by(query));
            let window = Timespan {
                start: query.start->Some_0.utc(),
                end: query.end->Some_0.utc(),
            };
            &&& forall|i: int|
                0 <= i < found.len() ==> {
                    &&& (#[trigger] found[i]).resource_id@ == query.resource_id->Some_0@
                    &&& found[i].window().overlaps(&window)
                }
            &&& forall|i: int, j: int|
                0 <= i <= j < found.len() ==> !(#[trigger] found[j]).window().start.before(
                    (#[trigger] found[i]).window().start,
                )
        }),
{
    lemma_query_result(records, query);
    let found = records.filter(selected_by(query));
    assert forall|i: int| 0 <= i < found.len() implies (#[trigger] found[i]).window().overlaps(
        &(Timespan { start: query.start->Some_0.utc(), end: query.end->Some_0.utc() }),
    ) by {
        lemma_window_is_overlap(query, found[i].window());
    }
}

/// Reservations that are not confirmed may overlap anything: the store refuses
/// such a record only where its interval is not acceptable or no id is left,
/// never for a conflict.
pub proof fn lemma_unconfirmed_may_overlap(
    records: Seq<Reservation>,
    next_id: ReservationId,
    record: Reservation,
)
    requires
        record.status != ReservationStatus::Confirmed,
    ensures
        insert_refusal(records, next_id, record) != Some(ReservationError::ConflictExists),
        record.valid_window() && next_id < ReservationId::MAX ==> insert_refusal(
            records,
            next_id,
            record,
        ) is None,
{
}

/// The store refuses the loser of a race: once a confirmed record is in, a
/// second confirmed record of the same resource that overlaps it is refused
/// with `ConflictExists`, whatever its caller had seen before.
pub proof fn lemma_second_confirmed_is_refused(
    records: Seq<Reservation>,
    next_id: ReservationId,
    first: Reservation,
    second: Reservation,
)
    requires
        records.contains(first),
        first.status == ReservationStatus::Confirmed,
        second.status == ReservationStatus::Confirmed,
        second.valid_window(),
        first.resource_id@ == second.resource_id@,
        first.window().overlaps(&second.window()),
    ensures
        insert_refusal(records, next_id, second) == Some(ReservationError::ConflictExists),
{
    let i = choose|i: int| 0 <= i < records.len() && records[i] == first;
    assert(records[i].conflicts_with(second.resource_id@, second.window()));
}

} // verus!
