//! Publication of Runs: reservation, restoration and exact replacement.

use vstd::prelude::*;

use crate::daemon::registry::{
    added_records, bound_apart, bound_once, candidate_metadata, eligible, fenced, funded_by,
    has_run, ids_of, key_view, lemma_place_of, lemma_reservation_place, only, place_of,
    reservation_growth, reserved_metadata, retained_metadata, unfenced, without,
    PersistentCollectionCandidate, RegistryEntry, RegistryView, Reservation, Residency, RunFacts,
    RunRegistry,
};
use crate::identity::RunId;
use crate::order::Ranked;
use crate::protocol::{protocol_error, ErrorCode, OperationKey, ProtocolError};
use crate::run_spec::{matches_run, request_created, spec_view, CreationRequest};
use crate::text::joined;

verus! {

/// Whether no retained Run has this creation key.
pub open spec fn key_is_free(runs: Seq<RegistryEntry>, key: Seq<char>) -> bool {
    forall|i: int| 0 <= i < runs.len() ==> key_view((#[trigger] runs[i]).operation_key) != Some(key)
}

proof fn lemma_without_push(runs: Seq<RegistryEntry>, ids: Seq<RunId>, entry: RegistryEntry)
    ensures
        without(runs.push(entry), ids) == (if ids.contains(entry.facts.id) {
            without(runs, ids)
        } else {
            without(runs, ids).push(entry)
        }),
{
    reveal(Seq::filter);
    assert(runs.push(entry).drop_last() =~= runs);
}

proof fn lemma_only_push(runs: Seq<RegistryEntry>, ids: Seq<RunId>, entry: RegistryEntry)
    ensures
        only(runs.push(entry), ids) == (if ids.contains(entry.facts.id) {
            only(runs, ids).push(entry)
        } else {
            only(runs, ids)
        }),
{
    reveal(Seq::filter);
    assert(runs.push(entry).drop_last() =~= runs);
}

/// What stays is what was there and is not named.
pub proof fn lemma_without_members(runs: Seq<RegistryEntry>, ids: Seq<RunId>)
    ensures
        forall|i: int|
            0 <= i < without(runs, ids).len() ==> !ids.contains(
                (#[trigger] without(runs, ids)[i]).facts.id,
            ) && runs.contains(without(runs, ids)[i]),
        forall|k: int|
            0 <= k < runs.len() && !ids.contains((#[trigger] runs[k]).facts.id) ==> without(
                runs,
                ids,
            ).contains(runs[k]),
    decreases runs.len(),
{
    reveal(Seq::filter);
    if runs.len() > 0 {
        let shorter = runs.drop_last();
        let last = runs.last();
        lemma_without_members(shorter, ids);
        lemma_without_push(shorter, ids, last);
        assert(shorter.push(last) =~= runs);
        let rest = without(shorter, ids);
        let all = without(runs, ids);
        assert forall|i: int| 0 <= i < all.len() implies !ids.contains(
            (#[trigger] all[i]).facts.id,
        ) && runs.contains(all[i]) by {
            if i < rest.len() {
                assert(rest[i] == all[i]);
                assert(shorter.contains(rest[i]));
                let k = choose|k: int| 0 <= k < shorter.len() && shorter[k] == rest[i];
                assert(runs[k] == rest[i]);
            } else {
                assert(all[i] == runs[runs.len() - 1]);
            }
        }
        assert forall|k: int|
            0 <= k < runs.len() && !ids.contains((#[trigger] runs[k]).facts.id) implies all.contains(
            runs[k],
        ) by {
            if k < shorter.len() {
                assert(shorter[k] == runs[k]);
                assert(rest.contains(runs[k]));
                let i = choose|i: int| 0 <= i < rest.len() && rest[i] == runs[k];
                assert(all[i] == runs[k]);
            } else {
                assert(all[all.len() - 1] == runs[k]);
            }
        }
    }
}

proof fn lemma_without_keeps_bound_once(runs: Seq<RegistryEntry>, ids: Seq<RunId>)
    requires
        bound_once(runs),
    ensures
        bound_once(without(runs, ids)),
    decreases runs.len(),
{
    reveal(Seq::filter);
    if runs.len() > 0 {
        let shorter = runs.drop_last();
        let last = runs.last();
        lemma_without_keeps_bound_once(shorter, ids);
        lemma_without_members(shorter, ids);
        lemma_without_push(shorter, ids, last);
        assert(shorter.push(last) =~= runs);
        let rest = without(shorter, ids);
        let all = without(runs, ids);
        if !ids.contains(last.facts.id) {
            assert forall|i: int| 0 <= i < rest.len() implies bound_apart(
                #[trigger] rest[i],
                last,
            ) by {
                assert(shorter.contains(rest[i]));
                let k = choose|k: int| 0 <= k < shorter.len() && shorter[k] == rest[i];
                assert(runs[k] == rest[i]);
                assert(runs[runs.len() - 1] == last);
            }
            assert forall|i: int, j: int| 0 <= i < j < all.len() implies bound_apart(
                #[trigger] all[i],
                #[trigger] all[j],
            ) by {
                if j < rest.len() {
                    assert(all[i] == rest[i] && all[j] == rest[j]);
                }
            }
        }
    }
}

/// Whether a Run is retained and not fenced.
pub open spec fn is_available(runs: Seq<RegistryEntry>, id: RunId) -> bool {
    exists|i: int|
        0 <= i < runs.len() && (#[trigger] runs[i]).facts.id == id && runs[i].residency
            == Residency::Retained
}

proof fn lemma_fencing_keeps_valid(
    before: RegistryView,
    ids: Seq<RunId>,
    reservation: Reservation,
    after: RegistryView,
)
    requires
        before.valid(),
        before.next_ticket < u64::MAX,
        reservation.ticket == before.next_ticket + 1,
        reservation.candidates@ == ids,
        forall|k: int| 0 <= k < ids.len() ==> is_available(before.runs, #[trigger] ids[k]),
        after == (RegistryView {
            runs: fenced(before.runs, ids, reservation.ticket),
            reservations: before.reservations.push(reservation),
            next_ticket: reservation.ticket,
            ..before
        }),
    ensures
        after.valid(),
{
    let ticket = reservation.ticket;
    let last = before.reservations.len() as int;
    assert forall|i: int, j: int| 0 <= i < j < after.runs.len() implies bound_apart(
        #[trigger] after.runs[i],
        #[trigger] after.runs[j],
    ) by {
        assert(before.runs[i].facts.id != before.runs[j].facts.id);
    }
    assert forall|i: int, k: int|
        0 <= i < after.reservations.len() && 0 <= k < after.reservations[i].candidates@.len()
        implies after.is_fenced_for(
        #[trigger] after.reservations[i].candidates@[k],
        after.reservations[i].ticket,
    ) by {
        if i < last {
            assert(after.reservations[i] == before.reservations[i]);
            let id = before.reservations[i].candidates@[k];
            assert(before.is_fenced_for(id, before.reservations[i].ticket));
            let p = choose|p: int|
                0 <= p < before.runs.len() && (#[trigger] before.runs[p]).facts.id == id
                    && before.runs[p].residency == Residency::Collecting(
                    before.reservations[i].ticket,
                );
            if ids.contains(id) {
                let q = choose|q: int| 0 <= q < ids.len() && ids[q] == id;
                assert(is_available(before.runs, ids[q]));
                let w = choose|w: int|
                    0 <= w < before.runs.len() && (#[trigger] before.runs[w]).facts.id == ids[q]
                        && before.runs[w].residency == Residency::Retained;
                lemma_place_of(before, id, p);
                lemma_place_of(before, id, w);
            }
            assert(after.runs[p].facts.id == id);
        } else {
            let id = ids[k];
            assert(is_available(before.runs, ids[k]));
            let w = choose|w: int|
                0 <= w < before.runs.len() && (#[trigger] before.runs[w]).facts.id == id
                    && before.runs[w].residency == Residency::Retained;
            assert(ids.contains(id));
            assert(after.runs[w].facts.id == id);
        }
    }
    assert forall|i: int| 0 <= i < after.runs.len() implies ((#[trigger] after.runs[i]).residency
        matches Residency::Collecting(t) ==> after.is_candidate(after.runs[i].facts.id, t)) by {
        let id = after.runs[i].facts.id;
        assert(before.runs[i].facts.id == id);
        if ids.contains(id) {
            assert(after.reservations[last].ticket == ticket);
        } else if let Residency::Collecting(t) = before.runs[i].residency {
            assert(before.is_candidate(id, t));
            let r = choose|r: int|
                0 <= r < before.reservations.len() && (#[trigger] before.reservations[r]).ticket
                    == t && before.reservations[r].candidates@.contains(id);
            assert(after.reservations[r] == before.reservations[r]);
        }
    }
    assert forall|i: int, j: int| 0 <= i < j < after.reservations.len() implies (
    #[trigger] after.reservations[i]).ticket != (#[trigger] after.reservations[j]).ticket by {
        assert(after.reservations[i] == before.reservations[i]);
        if j < last {
            assert(after.reservations[j] == before.reservations[j]);
        }
    }
}

/// A fenced Run belongs to one reservation only.
proof fn lemma_candidate_belongs_to_one_ticket(
    registry: RegistryView,
    place: int,
    other: int,
    id: RunId,
)
    requires
        registry.valid(),
        0 <= place < registry.reservations.len(),
        0 <= other < registry.reservations.len(),
        registry.reservations[place].candidates@.contains(id),
        registry.reservations[other].candidates@.contains(id),
    ensures
        place == other,
{
    let a = registry.reservations[place];
    let b = registry.reservations[other];
    let i = choose|i: int| 0 <= i < a.candidates@.len() && a.candidates@[i] == id;
    let j = choose|j: int| 0 <= j < b.candidates@.len() && b.candidates@[j] == id;
    assert(registry.is_fenced_for(registry.reservations[place].candidates@[i], a.ticket));
    assert(registry.is_fenced_for(registry.reservations[other].candidates@[j], b.ticket));
    let p = choose|p: int|
        0 <= p < registry.runs.len() && (#[trigger] registry.runs[p]).facts.id == id
            && registry.runs[p].residency == Residency::Collecting(a.ticket);
    let q = choose|q: int|
        0 <= q < registry.runs.len() && (#[trigger] registry.runs[q]).facts.id == id
            && registry.runs[q].residency == Residency::Collecting(b.ticket);
    lemma_place_of(registry, id, p);
    lemma_place_of(registry, id, q);
    lemma_reservation_place(registry, a.ticket, place);
    lemma_reservation_place(registry, b.ticket, other);
}

proof fn lemma_restoring_keeps_valid(before: RegistryView, ticket: u64)
    requires
        before.valid(),
        before.has_ticket(ticket),
    ensures
        before.restored(ticket).valid(),
{
    let after = before.restored(ticket);
    let place = before.reservation_place(ticket);
    let ids = before.reservation(ticket).candidates@;
    assert forall|i: int, j: int| 0 <= i < j < after.runs.len() implies bound_apart(
        #[trigger] after.runs[i],
        #[trigger] after.runs[j],
    ) by {
        assert(before.runs[i].facts.id != before.runs[j].facts.id);
    }
    lemma_remaining_reservations(before, ticket);
    assert forall|i: int, k: int|
        0 <= i < after.reservations.len() && 0 <= k < after.reservations[i].candidates@.len()
        implies after.is_fenced_for(
        #[trigger] after.reservations[i].candidates@[k],
        after.reservations[i].ticket,
    ) by {
        let source = if i < place {
            i
        } else {
            i + 1
        };
        assert(after.reservations[i] == before.reservations[source]);
        let id = before.reservations[source].candidates@[k];
        assert(before.is_fenced_for(id, before.reservations[source].ticket));
        let p = choose|p: int|
            0 <= p < before.runs.len() && (#[trigger] before.runs[p]).facts.id == id
                && before.runs[p].residency == Residency::Collecting(
                before.reservations[source].ticket,
            );
        assert(before.reservations[source].candidates@.contains(id));
        if ids.contains(id) {
            lemma_candidate_belongs_to_one_ticket(before, place, source, id);
        }
        assert(after.runs[p].facts.id == id);
    }
    assert forall|i: int| 0 <= i < after.runs.len() implies ((#[trigger] after.runs[i]).residency
        matches Residency::Collecting(t) ==> after.is_candidate(after.runs[i].facts.id, t)) by {
        if let Residency::Collecting(t) = after.runs[i].residency {
            let id = before.runs[i].facts.id;
            assert(!ids.contains(id));
            assert(before.is_candidate(id, t));
            lemma_other_reservation_stays(before, ticket, id, t);
        }
    }
}

/// A reservation that does not leave still stands after another left.
proof fn lemma_other_reservation_stays(before: RegistryView, ticket: u64, id: RunId, t: u64)
    requires
        before.valid(),
        before.has_ticket(ticket),
        before.is_candidate(id, t),
        !before.reservation(ticket).candidates@.contains(id),
    ensures
        exists|i: int|
            0 <= i < before.reservations.remove(before.reservation_place(ticket)).len() && (
            #[trigger] before.reservations.remove(before.reservation_place(ticket))[i]).ticket == t
                && before.reservations.remove(
                before.reservation_place(ticket),
            )[i].candidates@.contains(id),
{
    let place = before.reservation_place(ticket);
    let rest = before.reservations.remove(place);
    let r = choose|r: int|
        0 <= r < before.reservations.len() && (#[trigger] before.reservations[r]).ticket == t
            && before.reservations[r].candidates@.contains(id);
    assert(r != place);
    let i = if r < place {
        r
    } else {
        r - 1
    };
    assert(rest[i] == before.reservations[r]);
}

proof fn lemma_remaining_reservations(before: RegistryView, ticket: u64)
    requires
        before.valid(),
        before.has_ticket(ticket),
    ensures
        ({
            let rest = before.reservations.remove(before.reservation_place(ticket));
            &&& forall|i: int, j: int|
                0 <= i < j < rest.len() ==> (#[trigger] rest[i]).ticket != (#[trigger] rest[j]).ticket
            &&& forall|i: int|
                0 <= i < rest.len() ==> (#[trigger] rest[i]).ticket <= before.next_ticket
        }),
{
    let place = before.reservation_place(ticket);
    let rest = before.reservations.remove(place);
    assert forall|i: int, j: int| 0 <= i < j < rest.len() implies (#[trigger] rest[i]).ticket != (
    #[trigger] rest[j]).ticket by {
        let a = if i < place {
            i
        } else {
            i + 1
        };
        let b = if j < place {
            j
        } else {
            j + 1
        };
        assert(rest[i] == before.reservations[a]);
        assert(rest[j] == before.reservations[b]);
    }
    assert forall|i: int| 0 <= i < rest.len() implies (#[trigger] rest[i]).ticket
        <= before.next_ticket by {
        let a = if i < place {
            i
        } else {
            i + 1
        };
        assert(rest[i] == before.reservations[a]);
    }
}

proof fn lemma_consuming_keeps_valid(before: RegistryView, ticket: u64)
    requires
        before.valid(),
        before.has_ticket(ticket),
    ensures
        before.consumed(ticket).valid(),
{
    let after = before.consumed(ticket);
    let place = before.reservation_place(ticket);
    let ids = before.reservation(ticket).candidates@;
    lemma_without_keeps_bound_once(before.runs, ids);
    lemma_without_members(before.runs, ids);
    lemma_remaining_reservations(before, ticket);
    assert forall|i: int, k: int|
        0 <= i < after.reservations.len() && 0 <= k < after.reservations[i].candidates@.len()
        implies after.is_fenced_for(
        #[trigger] after.reservations[i].candidates@[k],
        after.reservations[i].ticket,
    ) by {
        let source = if i < place {
            i
        } else {
            i + 1
        };
        assert(after.reservations[i] == before.reservations[source]);
        let id = before.reservations[source].candidates@[k];
        assert(before.is_fenced_for(id, before.reservations[source].ticket));
        let p = choose|p: int|
            0 <= p < before.runs.len() && (#[trigger] before.runs[p]).facts.id == id
                && before.runs[p].residency == Residency::Collecting(
                before.reservations[source].ticket,
            );
        assert(before.reservations[source].candidates@.contains(id));
        if ids.contains(id) {
            lemma_candidate_belongs_to_one_ticket(before, place, source, id);
        }
        assert(after.runs.contains(before.runs[p]));
        let w = choose|w: int| 0 <= w < after.runs.len() && after.runs[w] == before.runs[p];
        assert(after.runs[w].facts.id == id);
    }
    assert forall|i: int| 0 <= i < after.runs.len() implies ((#[trigger] after.runs[i]).residency
        matches Residency::Collecting(t) ==> after.is_candidate(after.runs[i].facts.id, t)) by {
        if let Residency::Collecting(t) = after.runs[i].residency {
            assert(before.runs.contains(after.runs[i]));
            let p = choose|p: int| 0 <= p < before.runs.len() && before.runs[p] == after.runs[i];
            let id = before.runs[p].facts.id;
            assert(before.is_candidate(id, t));
            lemma_other_reservation_stays(before, ticket, id, t);
        }
    }
}

/// Fencing Runs for a reservation and giving the reservation up leaves every
/// Run as it was.
pub proof fn law_restored_reservation_leaves_no_trace(
    before: RegistryView,
    ids: Seq<RunId>,
    reservation: Reservation,
    reserved: RegistryView,
)
    requires
        before.valid(),
        reserved.valid(),
        reservation.candidates@ == ids,
        forall|i: int|
            0 <= i < before.runs.len() && ids.contains((#[trigger] before.runs[i]).facts.id)
                ==> before.runs[i].residency == Residency::Retained,
        reserved.runs == fenced(before.runs, ids, reservation.ticket),
        reserved.reservations == before.reservations.push(reservation),
    ensures
        reserved.restored(reservation.ticket).runs == before.runs,
        reserved.restored(reservation.ticket).reservations == before.reservations,
{
    let place = before.reservations.len() as int;
    assert(reserved.reservations[place] == reservation);
    lemma_reservation_place(reserved, reservation.ticket, place);
    assert(reserved.reservations.remove(place) =~= before.reservations);
    let after = reserved.restored(reservation.ticket).runs;
    assert forall|i: int| 0 <= i < before.runs.len() implies after[i] == before.runs[i] by {
        assert(reserved.runs[i].facts.id == before.runs[i].facts.id);
    }
    assert(after =~= before.runs);
}

/// The contents with one more available Run.
pub open spec fn published(registry: RegistryView, entry: RegistryEntry) -> RegistryView {
    RegistryView { runs: registry.runs.push(entry), ..registry }
}

/// An entry for a Run that has just become public.
pub open spec fn fresh_entry(
    facts: RunFacts,
    operation_key: Option<OperationKey>,
    metadata_bytes: Option<u64>,
) -> RegistryEntry {
    RegistryEntry {
        facts,
        operation_key,
        stop: None,
        metadata_bytes,
        residency: Residency::Retained,
    }
}

proof fn lemma_publishing_keeps_valid(before: RegistryView, entry: RegistryEntry)
    requires
        before.valid(),
        !has_run(before.runs, entry.facts.id),
        entry.operation_key matches Some(key) ==> key_is_free(before.runs, key@),
        entry.stop is None,
        entry.residency == Residency::Retained,
    ensures
        published(before, entry).valid(),
{
    let after = published(before, entry);
    let last = before.runs.len() as int;
    assert forall|i: int, j: int| 0 <= i < j < after.runs.len() implies bound_apart(
        #[trigger] after.runs[i],
        #[trigger] after.runs[j],
    ) by {
        assert(after.runs[i] == before.runs[i]);
        if j < last {
            assert(after.runs[j] == before.runs[j]);
        }
    }
    assert forall|i: int, k: int|
        0 <= i < after.reservations.len() && 0 <= k < after.reservations[i].candidates@.len()
        implies after.is_fenced_for(
        #[trigger] after.reservations[i].candidates@[k],
        after.reservations[i].ticket,
    ) by {
        let id = before.reservations[i].candidates@[k];
        assert(before.is_fenced_for(id, before.reservations[i].ticket));
        let p = choose|p: int|
            0 <= p < before.runs.len() && (#[trigger] before.runs[p]).facts.id == id
                && before.runs[p].residency == Residency::Collecting(before.reservations[i].ticket);
        assert(after.runs[p] == before.runs[p]);
    }
    assert forall|i: int| 0 <= i < after.runs.len() implies ((#[trigger] after.runs[i]).residency
        matches Residency::Collecting(t) ==> after.is_candidate(after.runs[i].facts.id, t)) by {
        if i < last {
            assert(after.runs[i] == before.runs[i]);
            if let Residency::Collecting(t) = before.runs[i].residency {
                assert(before.is_candidate(before.runs[i].facts.id, t));
            }
        }
    }
}

impl RegistryView {
    /// Whether `after` is this registry with one more reservation, for which
    /// the selected Runs are fenced.
    pub open spec fn reserves(
        &self,
        new_run_id: RunId,
        operation_key: Option<OperationKey>,
        request: Option<CreationRequest>,
        new_metadata_bytes: Option<u64>,
        ticket: u64,
        after: RegistryView,
    ) -> bool {
        let reservation = after.reservations.last();
        let ids = reservation.candidates@;
        &&& ticket == self.next_ticket + 1
        &&& self.selection(new_metadata_bytes, Ok(ids))
        &&& after.reservations.len() == self.reservations.len() + 1
        &&& after.reservations.drop_last() == self.reservations
        &&& reservation.ticket == ticket
        &&& reservation.new_run_id == new_run_id
        &&& reservation.operation_key == operation_key
        &&& reservation.request == request
        &&& reservation.new_metadata_bytes == new_metadata_bytes
        &&& after.runs == fenced(self.runs, ids, ticket)
        &&& after.next_ticket == ticket
        &&& after.record_capacity == self.record_capacity
        &&& after.metadata_budget == self.metadata_budget
    }
}

impl RunRegistry {
    /// An empty registry that admits `record_capacity` Runs.
    pub fn with_record_capacity(record_capacity: usize, metadata_budget: u64) -> (r: RunRegistry)
        ensures
            r@.valid(),
            r@ == (RegistryView {
                runs: seq![],
                reservations: seq![],
                next_ticket: 0,
                record_capacity,
                metadata_budget,
            }),
    {
        let mut r = RunRegistry::new(metadata_budget);
        r.record_capacity = record_capacity;
        r
    }

    /// Retain a Run that was recovered or published without a reservation.
    pub fn retain(
        &mut self,
        facts: RunFacts,
        operation_key: Option<OperationKey>,
        metadata_bytes: Option<u64>,
    )
        requires
            old(self)@.valid(),
            !has_run(old(self)@.runs, facts.id),
            operation_key matches Some(key) ==> key_is_free(old(self)@.runs, key@),
        ensures
            final(self)@.valid(),
            final(self)@ == published(
                old(self)@,
                fresh_entry(facts, operation_key, metadata_bytes),
            ),
    {
        proof {
            lemma_publishing_keeps_valid(
                self@,
                fresh_entry(facts, operation_key, metadata_bytes),
            );
        }
        self.runs.push(
            RegistryEntry {
                facts,
                operation_key,
                stop: None,
                metadata_bytes,
                residency: Residency::Retained,
            },
        );
    }

    /// Reserve the place of a Run that will be created, and fence the Runs
    /// that it replaces. A refused reservation changes nothing.
    pub fn reserve_publication(
        &mut self,
        new_run_id: RunId,
        operation_key: Option<OperationKey>,
        request: Option<CreationRequest>,
        new_metadata_bytes: Option<u64>,
    ) -> (r: Result<u64, ProtocolError>)
        requires
            old(self)@.valid(),
            old(self)@.runs.len() + old(self)@.reservations.len() <= usize::MAX,
            old(self)@.next_ticket < u64::MAX,
            new_metadata_bytes is Some ==> old(self)@.metadata_is_summable(),
        ensures
            final(self)@.valid(),
            match r {
                Err(e) => old(self)@.selection(new_metadata_bytes, Err(e)) && final(self)@
                    == old(self)@,
                Ok(ticket) => old(self)@.reserves(
                    new_run_id,
                    operation_key,
                    request,
                    new_metadata_bytes,
                    ticket,
                    final(self)@,
                ),
            },
    {
        let ghost before = self@;
        let selection = self.select_publication_candidates(new_metadata_bytes);
        let candidates = match selection.result {
            Ok(candidates) => candidates,
            Err(error) => {
                return Err(error);
            },
        };
        let ghost ids = candidates@;
        proof {
            assert forall|k: int| 0 <= k < ids.len() implies is_available(
                before.runs,
                #[trigger] ids[k],
            ) by {
                assert(self.is_eligible_id(ids[k], new_metadata_bytes is Some));
                let i = choose|i: int|
                    0 <= i < self@.runs.len() && (#[trigger] self@.runs[i]).facts.id == ids[k]
                        && eligible(
                        self@.runs[i],
                        new_metadata_bytes is Some,
                    );
                assert(before.runs[i].facts.id == ids[k]);
            }
        }
        let ticket: u64 = self.next_ticket + 1;
        let mut i: usize = 0;
        while i < self.runs.len()
            invariant
                ids == candidates@,
                i <= self.runs@.len(),
                self.runs@.len() == before.runs.len(),
                self.reservations@ == before.reservations,
                self.next_ticket == before.next_ticket,
                self.record_capacity == before.record_capacity,
                self.metadata_budget == before.metadata_budget,
                forall|k: int|
                    0 <= k < i ==> #[trigger] self.runs@[k] == fenced(before.runs, ids, ticket)[k],
                forall|k: int|
                    i <= k < self.runs@.len() ==> #[trigger] self.runs@[k] == before.runs[k],
            decreases self.runs@.len() - i,
        {
            if contains_id(&candidates, self.runs[i].facts.id) {
                self.runs[i].residency = Residency::Collecting(ticket);
            }
            i = i + 1;
        }
        let reservation = Reservation {
            ticket,
            new_run_id,
            operation_key,
            request,
            new_metadata_bytes,
            candidates,
        };
        let ghost reservation_ghost = reservation;
        self.reservations.push(reservation);
        self.next_ticket = ticket;
        proof {
            assert(self@.runs =~= fenced(before.runs, ids, ticket));
            lemma_fencing_keeps_valid(before, ids, reservation_ghost, self@);
            assert(self@.reservations.drop_last() =~= before.reservations);
        }
        Ok(ticket)
    }

    fn reservation_position(&self, ticket: u64) -> (r: usize)
        requires
            self@.valid(),
            self@.has_ticket(ticket),
        ensures
            r < self@.reservations.len(),
            self@.reservation_place(ticket) == r,
            self@.reservations[r as int].ticket == ticket,
    {
        let mut i: usize = 0;
        while i < self.reservations.len()
            invariant
                self@.valid(),
                self@.has_ticket(ticket),
                i <= self.reservations@.len(),
                forall|k: int| 0 <= k < i ==> (#[trigger] self.reservations@[k]).ticket != ticket,
            decreases self.reservations@.len() - i,
        {
            if self.reservations[i].ticket == ticket {
                proof {
                    lemma_reservation_place(self@, ticket, i as int);
                }
                return i;
            }
            i = i + 1;
        }
        proof {
            let p = self@.reservation_place(ticket);
            assert(self.reservations@[p].ticket == ticket);
            assert(false);
        }
        0
    }

    /// Give a reservation up: the Runs that it fenced are available again.
    pub fn restore_reservation(&mut self, ticket: u64)
        requires
            old(self)@.valid(),
            old(self)@.has_ticket(ticket),
        ensures
            final(self)@.valid(),
            final(self)@ == old(self)@.restored(ticket),
    {
        let ghost before = self@;
        proof {
            lemma_restoring_keeps_valid(before, ticket);
        }
        let place: usize = self.reservation_position(ticket);
        let reservation = self.reservations.remove(place);
        let ghost ids = reservation.candidates@;
        let mut i: usize = 0;
        while i < self.runs.len()
            invariant
                ids == reservation.candidates@,
                i <= self.runs@.len(),
                self.runs@.len() == before.runs.len(),
                self.reservations@ == before.reservations.remove(place as int),
                self.next_ticket == before.next_ticket,
                self.record_capacity == before.record_capacity,
                self.metadata_budget == before.metadata_budget,
                forall|k: int|
                    0 <= k < i ==> #[trigger] self.runs@[k] == unfenced(before.runs, ids)[k],
                forall|k: int|
                    i <= k < self.runs@.len() ==> #[trigger] self.runs@[k] == before.runs[k],
            decreases self.runs@.len() - i,
        {
            if contains_id(&reservation.candidates, self.runs[i].facts.id) {
                self.runs[i].residency = Residency::Retained;
            }
            i = i + 1;
        }
        assert(self@.runs =~= unfenced(before.runs, ids));
    }

    fn consume_reservation(&mut self, ticket: u64) -> (r: (Vec<RegistryEntry>, Reservation))
        requires
            old(self)@.valid(),
            old(self)@.has_ticket(ticket),
        ensures
            final(self)@.valid(),
            final(self)@ == old(self)@.consumed(ticket),
            r.1 == old(self)@.reservation(ticket),
            r.0@ == old(self)@.leaving(ticket),
    {
        let ghost before = self@;
        proof {
            lemma_consuming_keeps_valid(before, ticket);
        }
        let place: usize = self.reservation_position(ticket);
        let reservation = self.reservations.remove(place);
        let ghost ids = reservation.candidates@;
        let ghost all = before.runs;
        let mut removed: Vec<RegistryEntry> = Vec::new();
        let mut kept: usize = 0;
        proof {
            reveal(Seq::filter);
            assert(all.take(0) =~= seq![]);
            assert(without(all.take(0), ids) + all.skip(0) =~= all);
        }
        while kept < self.runs.len()
            invariant
                ids == reservation.candidates@,
                all == before.runs,
                self.reservations@ == before.reservations.remove(place as int),
                self.next_ticket == before.next_ticket,
                self.record_capacity == before.record_capacity,
                self.metadata_budget == before.metadata_budget,
                kept + removed@.len() <= all.len(),
                kept == without(all.take(kept + removed@.len()), ids).len(),
                self.runs@ == without(all.take(kept + removed@.len()), ids) + all.skip(
                    kept + removed@.len(),
                ),
                removed@ == only(all.take(kept + removed@.len()), ids),
            decreases self.runs@.len() - kept,
        {
            let ghost done = kept + removed@.len();
            let ghost prefix = without(all.take(done), ids);
            proof {
                assert(self.runs@[kept as int] == all[done]);
                assert(all.take(done + 1) =~= all.take(done).push(all[done]));
                lemma_without_push(all.take(done), ids, all[done]);
                lemma_only_push(all.take(done), ids, all[done]);
            }
            if contains_id(&reservation.candidates, self.runs[kept].facts.id) {
                let entry = self.runs.remove(kept);
                removed.push(entry);
                assert(self.runs@ =~= without(all.take(done + 1), ids) + all.skip(done + 1));
            } else {
                kept = kept + 1;
                assert(self.runs@ =~= without(all.take(done + 1), ids) + all.skip(done + 1));
            }
        }
        proof {
            let done = kept + removed@.len();
            assert(all.skip(done).len() == 0);
            assert(all.take(done) =~= all);
            assert(self.runs@ =~= without(all, ids));
        }
        (removed, reservation)
    }

    /// Make a reserved Run public in place of the Runs that it replaces. The
    /// Runs that left are handed out.
    pub fn publish_creation(
        &mut self,
        ticket: u64,
        facts: RunFacts,
        metadata_bytes: Option<u64>,
    ) -> (r: Vec<RegistryEntry>)
        requires
            old(self)@.valid(),
            old(self)@.has_ticket(ticket),
            facts.id == old(self)@.reservation(ticket).new_run_id,
            !has_run(old(self)@.runs, facts.id),
            old(self)@.reservation(ticket).operation_key matches Some(key) ==> key_is_free(
                old(self)@.runs,
                key@,
            ),
        ensures
            final(self)@.valid(),
            final(self)@ == published(
                old(self)@.consumed(ticket),
                fresh_entry(facts, old(self)@.reservation(ticket).operation_key, metadata_bytes),
            ),
            r@ == old(self)@.leaving(ticket),
    {
        let ghost before = self@;
        let (removed, reservation) = self.consume_reservation(ticket);
        let ghost reserved_key = reservation.operation_key;
        proof {
            lemma_without_members(before.runs, reservation.candidates@);
            if has_run(self@.runs, facts.id) {
                let i = place_of(self@.runs, facts.id);
                assert(before.runs.contains(self@.runs[i]));
                let k = choose|k: int| 0 <= k < before.runs.len() && before.runs[k]
                    == self@.runs[i];
                assert(before.runs[k].facts.id == facts.id);
            }
            if let Some(key) = reserved_key {
                assert forall|i: int| 0 <= i < self@.runs.len() implies key_view(
                    (#[trigger] self@.runs[i]).operation_key,
                ) != Some(key@) by {
                    assert(before.runs.contains(self@.runs[i]));
                    let k = choose|k: int| 0 <= k < before.runs.len() && before.runs[k]
                        == self@.runs[i];
                    assert(key_view(before.runs[k].operation_key) != Some(key@));
                }
            }
        }
        let Reservation { operation_key, .. } = reservation;
        self.retain(facts, operation_key, metadata_bytes);
        removed
    }

    /// The durable records that leave for a reservation. Every Run of it has a
    /// creation key and durable metadata.
    pub fn persistent_candidates(&self, ticket: u64) -> (r: Vec<PersistentCollectionCandidate>)
        requires
            self@.valid(),
            self@.has_ticket(ticket),
            forall|i: int|
                0 <= i < self@.runs.len() && self@.reservation(ticket).candidates@.contains(
                    (#[trigger] self@.runs[i]).facts.id,
                ) ==> self@.runs[i].operation_key is Some && self@.runs[i].metadata_bytes is Some,
        ensures
            r@.len() == self@.reservation(ticket).candidates@.len(),
            forall|k: int|
                0 <= k < r@.len() ==> {
                    let id = self@.reservation(ticket).candidates@[k];
                    let entry = self@.runs[place_of(self@.runs, id)];
                    &&& (#[trigger] r@[k]).id == id
                    &&& Some(r@[k].operation_key) == entry.operation_key
                    &&& Some(r@[k].metadata_bytes) == entry.metadata_bytes
                },
    {
        let place: usize = self.reservation_position(ticket);
        let reservation = &self.reservations[place];
        let mut r: Vec<PersistentCollectionCandidate> = Vec::new();
        let mut k: usize = 0;
        while k < reservation.candidates.len()
            invariant
                self@.valid(),
                self@.has_ticket(ticket),
                *reservation == self@.reservation(ticket),
                self@.reservation_place(ticket) == place,
                place < self@.reservations.len(),
                forall|i: int|
                    0 <= i < self@.runs.len() && self@.reservation(ticket).candidates@.contains(
                        (#[trigger] self@.runs[i]).facts.id,
                    ) ==> self@.runs[i].operation_key is Some && self@.runs[i].metadata_bytes
                        is Some,
                k <= reservation.candidates@.len(),
                r@.len() == k,
                forall|j: int|
                    0 <= j < k ==> {
                        let id = self@.reservation(ticket).candidates@[j];
                        let entry = self@.runs[place_of(self@.runs, id)];
                        &&& (#[trigger] r@[j]).id == id
                        &&& Some(r@[j].operation_key) == entry.operation_key
                        &&& Some(r@[j].metadata_bytes) == entry.metadata_bytes
                    },
            decreases reservation.candidates@.len() - k,
        {
            let id = reservation.candidates[k];
            proof {
                assert(self@.reservations[place as int].candidates@[k as int] == id);
                assert(self@.is_fenced_for(id, self@.reservations[place as int].ticket));
                assert(has_run(self@.runs, id));
                assert(self@.reservation(ticket).candidates@.contains(id));
            }
            if let Some(at) = self.position(id) {
                assert(self@.runs[at as int].facts.id == id);
                if let (Some(key), Some(metadata_bytes)) = (
                    &self.runs[at].operation_key,
                    self.runs[at].metadata_bytes,
                ) {
                    r.push(
                        PersistentCollectionCandidate {
                            id,
                            operation_key: key.copied(),
                            metadata_bytes,
                        },
                    );
                }
            }
            k = k + 1;
        }
        r
    }

    fn key_position(&self, key: &OperationKey) -> (r: Option<usize>)
        ensures
            match r {
                Some(place) => place < self@.runs.len() && key_view(
                    self@.runs[place as int].operation_key,
                ) == Some(key@),
                None => key_is_free(self@.runs, key@),
            },
    {
        let mut i: usize = 0;
        while i < self.runs.len()
            invariant
                i <= self.runs@.len(),
                forall|k: int|
                    0 <= k < i ==> key_view((#[trigger] self.runs@[k]).operation_key) != Some(key@),
            decreases self.runs@.len() - i,
        {
            if let Some(bound) = &self.runs[i].operation_key {
                if bound.same(key) {
                    return Some(i);
                }
            }
            i = i + 1;
        }
        None
    }

    /// Resolve a creation by its key: the Run that the key is bound to, nothing
    /// where it is free, or why it cannot be used now or with this request.
    pub fn resolve_creation_info(&self, key: &OperationKey, request: &CreationRequest) -> (r:
        Result<Option<RunId>, ProtocolError>)
        requires
            self@.valid(),
        ensures
            resolves(self@, key@, *request, r),
    {
        let mut i: usize = 0;
        while i < self.reservations.len()
            invariant
                i <= self.reservations@.len(),
                forall|k: int|
                    0 <= k < i ==> key_view((#[trigger] self.reservations@[k]).operation_key)
                        != Some(key@),
            decreases self.reservations@.len() - i,
        {
            if let Some(reserved) = &self.reservations[i].operation_key {
                if reserved.same(key) {
                    let same = match &self.reservations[i].request {
                        None => true,
                        Some(owned) => owned.same(request),
                    };
                    assert(is_first_reserved(self@.reservations, key@, i as int));
                    if same {
                        return Err(
                            protocol_error(
                                ErrorCode::BackendUnavailable,
                                "Run creation is temporarily fenced by an unpublished Registry reservation",
                            ),
                        );
                    }
                    return Err(
                        protocol_error(
                            ErrorCode::CreationConflict,
                            "Run creation operation key is reserved for a different request",
                        ),
                    );
                }
            }
            i = i + 1;
        }
        match self.key_position(key) {
            None => Ok(None),
            Some(place) => {
                let entry = &self.runs[place];
                if !matches_run(request, &entry.facts.spec, &entry.facts.lineage) {
                    return Err(
                        protocol_error(
                            ErrorCode::CreationConflict,
                            "Run creation operation key is already bound to a different request",
                        ),
                    );
                }
                match entry.residency {
                    Residency::Retained => Ok(Some(entry.facts.id)),
                    _ => Err(
                        protocol_error(
                            ErrorCode::BackendUnavailable,
                            "Run creation is temporarily unavailable while its retained owner is being replaced or removed",
                        ),
                    ),
                }
            },
        }
    }
}

impl RunRegistry {
    /// Settle a reservation once the Runs that it replaces gave up their
    /// descriptors: if one could not, the reservation is given up.
    pub fn settle_reservation(&mut self, ticket: u64, detached: Result<(), String>) -> (r: Result<
        (),
        ProtocolError,
    >)
        requires
            old(self)@.valid(),
            old(self)@.has_ticket(ticket),
        ensures
            final(self)@.valid(),
            match detached {
                Ok(_) => r == Ok::<(), ProtocolError>(()) && final(self)@ == old(self)@,
                Err(error) => {
                    &&& r matches Err(e) && e.says(
                        ErrorCode::Internal,
                        "failed to fence retained Run replacement: "@ + error@,
                    )
                    &&& final(self)@ == old(self)@.restored(ticket)
                },
            },
    {
        match detached {
            Ok(done) => Ok(done),
            Err(error) => {
                self.restore_reservation(ticket);
                Err(
                    ProtocolError {
                        code: ErrorCode::Internal,
                        message: joined(
                            "failed to fence retained Run replacement: ",
                            error.as_str(),
                        ),
                    },
                )
            },
        }
    }

    /// The Runs that a reservation replaces.
    pub fn candidates(&self, ticket: u64) -> (r: Vec<RunId>)
        requires
            self@.valid(),
            self@.has_ticket(ticket),
        ensures
            r@ == self@.reservation(ticket).candidates@,
    {
        let place: usize = self.reservation_position(ticket);
        let source = &self.reservations[place].candidates;
        let mut r: Vec<RunId> = Vec::new();
        let mut i: usize = 0;
        while i < source.len()
            invariant
                i <= source@.len(),
                r@ == source@.take(i as int),
            decreases source@.len() - i,
        {
            r.push(source[i]);
            assert(r@ =~= source@.take(i + 1));
            i = i + 1;
        }
        assert(source@.take(i as int) =~= source@);
        r
    }

    /// Whether a Run can become public with a ticket: the ticket is its own,
    /// and neither its identity nor its creation key is bound.
    pub fn is_publishable(&self, ticket: u64, id: RunId) -> (r: bool)
        requires
            self@.valid(),
        ensures
            r == (self@.has_ticket(ticket) && self@.reservation(ticket).new_run_id == id
                && !has_run(self@.runs, id) && (self@.reservation(ticket).operation_key matches Some(
                key,
            ) ==> key_is_free(self@.runs, key@))),
    {
        let mut i: usize = 0;
        while i < self.reservations.len()
            invariant
                self@.valid(),
                i <= self.reservations@.len(),
                forall|k: int| 0 <= k < i ==> (#[trigger] self.reservations@[k]).ticket != ticket,
            decreases self.reservations@.len() - i,
        {
            if self.reservations[i].ticket == ticket {
                assert(self@.reservations[i as int].ticket == ticket);
                proof {
                    lemma_reservation_place(self@, ticket, i as int);
                }
                if self.reservations[i].new_run_id != id {
                    return false;
                }
                if let Some(_) = self.position(id) {
                    return false;
                }
                return match &self.reservations[i].operation_key {
                    None => true,
                    Some(key) => match self.key_position(key) {
                        Some(_) => false,
                        None => true,
                    },
                };
            }
            i = i + 1;
        }
        false
    }
}

/// Whether `place` is the first reservation with a key.
pub open spec fn is_first_reserved(
    reservations: Seq<Reservation>,
    key: Seq<char>,
    place: int,
) -> bool {
    &&& 0 <= place < reservations.len()
    &&& key_view(reservations[place].operation_key) == Some(key)
    &&& forall|k: int|
        0 <= k < place ==> key_view((#[trigger] reservations[k]).operation_key) != Some(key)
}

/// Whether `r` is the resolution of a creation key.
pub open spec fn resolves(
    registry: RegistryView,
    key: Seq<char>,
    request: CreationRequest,
    r: Result<Option<RunId>, ProtocolError>,
) -> bool {
    let reserved = |place: int|
        if registry.reservations[place].request matches Some(owned) ==> owned@ == request@ {
            r matches Err(e) && e.says(
                ErrorCode::BackendUnavailable,
                "Run creation is temporarily fenced by an unpublished Registry reservation"@,
            )
        } else {
            r matches Err(e) && e.says(
                ErrorCode::CreationConflict,
                "Run creation operation key is reserved for a different request"@,
            )
        };
    let bound = |place: int|
        if !request_created(
            request@,
            spec_view(registry.runs[place].facts.spec),
            registry.runs[place].facts.lineage,
        ) {
            r matches Err(e) && e.says(
                ErrorCode::CreationConflict,
                "Run creation operation key is already bound to a different request"@,
            )
        } else if registry.runs[place].residency == Residency::Retained {
            r == Ok::<Option<RunId>, ProtocolError>(Some(registry.runs[place].facts.id))
        } else {
            r matches Err(e) && e.says(
                ErrorCode::BackendUnavailable,
                "Run creation is temporarily unavailable while its retained owner is being replaced or removed"@,
            )
        };
    if exists|place: int| is_first_reserved(registry.reservations, key, place) {
        exists|place: int| #[trigger] is_first_reserved(registry.reservations, key, place)
            && reserved(place)
    } else if key_is_free(registry.runs, key) {
        r == Ok::<Option<RunId>, ProtocolError>(None)
    } else {
        exists|place: int|
            0 <= place < registry.runs.len() && key_view(
                (#[trigger] registry.runs[place]).operation_key,
            ) == Some(key) && bound(place)
    }
}

/// A creation that is retried with its key finds the Run that the key made,
/// and the same key with another request is a conflict: no retry makes a
/// second Run.
pub proof fn law_a_retried_creation_finds_its_run(
    registry: RegistryView,
    place: int,
    key: Seq<char>,
    request: CreationRequest,
    r: Result<Option<RunId>, ProtocolError>,
)
    requires
        registry.valid(),
        0 <= place < registry.runs.len(),
        key_view(registry.runs[place].operation_key) == Some(key),
        registry.runs[place].residency == Residency::Retained,
        forall|k: int| !is_first_reserved(registry.reservations, key, k),
        resolves(registry, key, request, r),
    ensures
        request_created(
            request@,
            spec_view(registry.runs[place].facts.spec),
            registry.runs[place].facts.lineage,
        ) ==> r == Ok::<Option<RunId>, ProtocolError>(Some(registry.runs[place].facts.id)),
        !request_created(
            request@,
            spec_view(registry.runs[place].facts.spec),
            registry.runs[place].facts.lineage,
        ) ==> (r matches Err(e) && e.code == ErrorCode::CreationConflict),
{
    assert(!key_is_free(registry.runs, key));
    let found = choose|found: int|
        0 <= found < registry.runs.len() && key_view(
            (#[trigger] registry.runs[found]).operation_key,
        ) == Some(key);
    assert forall|other: int|
        0 <= other < registry.runs.len() && key_view(
            (#[trigger] registry.runs[other]).operation_key,
        ) == Some(key) implies other == place by {
        if other < place {
            assert(key_view(registry.runs[other].operation_key) != key_view(
                registry.runs[place].operation_key,
            ));
        } else if place < other {
            assert(key_view(registry.runs[place].operation_key) != key_view(
                registry.runs[other].operation_key,
            ));
        }
    }
}

/// A Run that becomes public is found by the key of its creation from then on.
pub proof fn law_a_published_creation_is_bound_to_its_key(
    registry: RegistryView,
    ticket: u64,
    facts: RunFacts,
    metadata_bytes: Option<u64>,
    key: OperationKey,
)
    requires
        registry.valid(),
        registry.has_ticket(ticket),
        registry.reservation(ticket).operation_key == Some(key),
    ensures
        ({
            let after = published(
                registry.consumed(ticket),
                fresh_entry(facts, registry.reservation(ticket).operation_key, metadata_bytes),
            );
            let last = after.runs.last();
            &&& key_view(last.operation_key) == Some(key@)
            &&& last.facts == facts
            &&& last.residency == Residency::Retained
            &&& !after.reservations.contains(registry.reservation(ticket))
        }),
{
    let place = registry.reservation_place(ticket);
    let reservation = registry.reservation(ticket);
    let rest = registry.reservations.remove(place);
    assert(registry.reservations[place].ticket == ticket);
    assert forall|i: int| 0 <= i < rest.len() implies rest[i] != reservation by {
        if i < place {
            assert(rest[i] == registry.reservations[i]);
            assert(registry.reservations[i].ticket != registry.reservations[place].ticket);
        } else {
            assert(rest[i] == registry.reservations[i + 1]);
            assert(registry.reservations[place].ticket != registry.reservations[i + 1].ticket);
        }
    }
}

proof fn lemma_added_without(reservations: Seq<Reservation>, place: int)
    requires
        0 <= place < reservations.len(),
    ensures
        added_records(reservations.remove(place)) == added_records(reservations) - (
        if reservations[place].candidates@.len() == 0 {
            1int
        } else {
            0
        }),
    decreases reservations.len(),
{
    let rest = reservations.remove(place);
    if place == reservations.len() - 1 {
        assert(rest =~= reservations.drop_last());
    } else {
        lemma_added_without(reservations.drop_last(), place);
        assert(rest.drop_last() =~= reservations.drop_last().remove(place));
        assert(rest.last() == reservations.last());
    }
}

proof fn lemma_without_is_shorter(runs: Seq<RegistryEntry>, ids: Seq<RunId>, named: int)
    ensures
        without(runs, ids).len() <= runs.len(),
        0 <= named < runs.len() && ids.contains(runs[named].facts.id) ==> without(runs, ids).len()
            < runs.len(),
    decreases runs.len(),
{
    reveal(Seq::filter);
    if runs.len() > 0 {
        let shorter = runs.drop_last();
        lemma_without_is_shorter(shorter, ids, named);
        lemma_without_push(shorter, ids, runs.last());
        assert(shorter.push(runs.last()) =~= runs);
    }
}

/// A selection that names nobody needs nobody to leave.
proof fn lemma_empty_selection_needs_no_record(registry: RegistryView, new_metadata: Option<u64>)
    requires
        registry.selection(new_metadata, Ok(seq![])),
    ensures
        !registry.needs_record(),
{
    if registry.needs_record() {
        let (ordered, count) = choose|ordered: Seq<Ranked>, count: int| #[trigger]
            registry.selects(ordered, new_metadata, count, Ok(seq![]))
                && registry.is_collection_order(ordered, new_metadata);
        assert(ids_of(ordered.take(count)).len() == count);
    }
}

/// The ceiling of retained Runs holds: with every reservation counted as if it
/// were public, a new reservation does not exceed the ceiling, and neither does
/// its publication nor its restoration.
pub proof fn law_the_ceiling_of_runs_holds(
    before: RegistryView,
    new_run_id: RunId,
    operation_key: Option<OperationKey>,
    request: Option<CreationRequest>,
    new_metadata_bytes: Option<u64>,
    ticket: u64,
    reserved: RegistryView,
    entry: RegistryEntry,
)
    requires
        reserved.valid(),
        before.projected_records() <= before.record_capacity,
        before.reserves(
            new_run_id,
            operation_key,
            request,
            new_metadata_bytes,
            ticket,
            reserved,
        ),
    ensures
        reserved.projected_records() <= reserved.record_capacity,
        published(reserved.consumed(ticket), entry).projected_records()
            <= reserved.record_capacity,
        reserved.restored(ticket).projected_records() <= reserved.record_capacity,
{
    let reservation = reserved.reservations.last();
    let ids = reservation.candidates@;
    let place = reserved.reservations.len() - 1;
    assert(reserved.reservations[place] == reservation);
    lemma_reservation_place(reserved, ticket, place);
    if ids.len() == 0 {
        assert(ids =~= seq![]);
        lemma_empty_selection_needs_no_record(before, new_metadata_bytes);
    }
    law_settling_a_reservation_adds_no_record(reserved, ticket, entry);
}

/// Whatever becomes of a reservation, no more records are in sight than with
/// it.
pub proof fn law_settling_a_reservation_adds_no_record(
    registry: RegistryView,
    ticket: u64,
    entry: RegistryEntry,
)
    requires
        registry.valid(),
        registry.has_ticket(ticket),
    ensures
        published(registry.consumed(ticket), entry).projected_records()
            <= registry.projected_records(),
        registry.restored(ticket).projected_records() <= registry.projected_records(),
{
    let place = registry.reservation_place(ticket);
    let ids = registry.reservation(ticket).candidates@;
    lemma_added_without(registry.reservations, place);
    lemma_without_is_shorter(registry.runs, ids, 0);
    if ids.len() > 0 {
        assert(registry.is_fenced_for(registry.reservations[place].candidates@[0], ticket));
        let named = choose|i: int|
            0 <= i < registry.runs.len() && (#[trigger] registry.runs[i]).facts.id == ids[0]
                && registry.runs[i].residency == Residency::Collecting(ticket);
        assert(ids.contains(registry.runs[named].facts.id));
        lemma_without_is_shorter(registry.runs, ids, named);
    }
}

proof fn lemma_fencing_keeps_metadata(
    before: RegistryView,
    after: RegistryView,
    named: Seq<RunId>,
    ticket: u64,
)
    requires
        before.valid(),
        after.valid(),
        after.runs == fenced(before.runs, named, ticket),
    ensures
        retained_metadata(after.runs) == retained_metadata(before.runs),
        forall|ids: Seq<RunId>| #[trigger]
            candidate_metadata(after.runs, ids) == candidate_metadata(before.runs, ids),
        forall|reservations: Seq<Reservation>| #[trigger]
            reserved_metadata(after.runs, reservations) == reserved_metadata(
                before.runs,
                reservations,
            ),
{
    lemma_fencing_keeps_retained(before.runs, named, ticket);
    assert forall|ids: Seq<RunId>| #[trigger]
        candidate_metadata(after.runs, ids) == candidate_metadata(before.runs, ids) by {
        lemma_fencing_keeps_candidates(before, after, named, ticket, ids);
    }
    assert forall|reservations: Seq<Reservation>| #[trigger]
        reserved_metadata(after.runs, reservations) == reserved_metadata(
            before.runs,
            reservations,
        ) by {
        lemma_fencing_keeps_reserved(before, after, named, ticket, reservations);
    }
}

proof fn lemma_fencing_keeps_retained(runs: Seq<RegistryEntry>, named: Seq<RunId>, ticket: u64)
    ensures
        retained_metadata(fenced(runs, named, ticket)) == retained_metadata(runs),
    decreases runs.len(),
{
    if runs.len() > 0 {
        lemma_fencing_keeps_retained(runs.drop_last(), named, ticket);
        assert(fenced(runs, named, ticket).drop_last() =~= fenced(
            runs.drop_last(),
            named,
            ticket,
        ));
    }
}

proof fn lemma_fencing_keeps_candidates(
    before: RegistryView,
    after: RegistryView,
    named: Seq<RunId>,
    ticket: u64,
    ids: Seq<RunId>,
)
    requires
        before.valid(),
        after.valid(),
        after.runs == fenced(before.runs, named, ticket),
    ensures
        candidate_metadata(after.runs, ids) == candidate_metadata(before.runs, ids),
    decreases ids.len(),
{
    if ids.len() > 0 {
        lemma_fencing_keeps_candidates(before, after, named, ticket, ids.drop_last());
        let id = ids.last();
        if has_run(before.runs, id) {
            let place = place_of(before.runs, id);
            assert(after.runs[place].facts.id == id);
            lemma_place_of(after, id, place);
        }
        if has_run(after.runs, id) {
            let place = place_of(after.runs, id);
            assert(before.runs[place].facts.id == id);
        }
    }
}

proof fn lemma_fencing_keeps_reserved(
    before: RegistryView,
    after: RegistryView,
    named: Seq<RunId>,
    ticket: u64,
    reservations: Seq<Reservation>,
)
    requires
        before.valid(),
        after.valid(),
        after.runs == fenced(before.runs, named, ticket),
    ensures
        reserved_metadata(after.runs, reservations) == reserved_metadata(
            before.runs,
            reservations,
        ),
    decreases reservations.len(),
{
    if reservations.len() > 0 {
        lemma_fencing_keeps_reserved(before, after, named, ticket, reservations.drop_last());
        lemma_fencing_keeps_candidates(
            before,
            after,
            named,
            ticket,
            reservations.last().candidates@,
        );
    }
}

proof fn lemma_funding_is_backed(runs: Seq<RegistryEntry>, ranks: Seq<Ranked>)
    ensures
        funded_by(runs, ranks) <= candidate_metadata(runs, ids_of(ranks)),
    decreases ranks.len(),
{
    if ranks.len() > 0 {
        lemma_funding_is_backed(runs, ranks.drop_last());
        assert(ids_of(ranks).drop_last() =~= ids_of(ranks.drop_last()));
    }
}

proof fn lemma_selection_funds_the_record(
    registry: RegistryView,
    new_metadata: Option<u64>,
    ids: Seq<RunId>,
)
    requires
        registry.selection(new_metadata, Ok(ids)),
    ensures
        candidate_metadata(registry.runs, ids) >= registry.metadata_to_fund(new_metadata),
{
    if registry.needs_record() || registry.metadata_to_fund(new_metadata) != 0 {
        let (ordered, count) = choose|ordered: Seq<Ranked>, count: int| #[trigger]
            registry.selects(ordered, new_metadata, count, Ok(ids))
                && registry.is_collection_order(ordered, new_metadata);
        lemma_funding_is_backed(registry.runs, ordered.take(count));
    }
}

/// The budget of durable metadata holds: with every reservation counted as if
/// it were public, a new reservation does not exceed the budget. Records whose
/// sizes cannot be summed in 64 bits are left out.
pub proof fn law_the_metadata_budget_holds(
    before: RegistryView,
    new_run_id: RunId,
    operation_key: Option<OperationKey>,
    request: Option<CreationRequest>,
    new_metadata_bytes: u64,
    ticket: u64,
    reserved: RegistryView,
)
    requires
        before.valid(),
        reserved.valid(),
        before.projected_metadata() <= before.metadata_budget,
        before.projected_metadata() + new_metadata_bytes <= u64::MAX,
        before.reserves(
            new_run_id,
            operation_key,
            request,
            Some(new_metadata_bytes),
            ticket,
            reserved,
        ),
    ensures
        reserved.projected_metadata() <= reserved.metadata_budget,
{
    let reservation = reserved.reservations.last();
    let ids = reservation.candidates@;
    lemma_fencing_keeps_metadata(before, reserved, ids, ticket);
    lemma_selection_funds_the_record(before, Some(new_metadata_bytes), ids);
    assert(reserved_metadata(reserved.runs, reserved.reservations) == reserved_metadata(
        before.runs,
        before.reservations,
    ) + reservation_growth(before.runs, reservation));
}

/// Decide whether an identity is among some.
pub fn contains_id(ids: &Vec<RunId>, id: RunId) -> (r: bool)
    ensures
        r == ids@.contains(id),
{
    let mut i: usize = 0;
    while i < ids.len()
        invariant
            i <= ids@.len(),
            forall|k: int| 0 <= k < i ==> ids@[k] != id,
        decreases ids@.len() - i,
    {
        if ids[i] == id {
            assert(ids@[i as int] == id);
            return true;
        }
        i = i + 1;
    }
    false
}

} // verus!
