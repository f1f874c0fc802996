//! Which Runs make room for a new one, and what a publication changes.

use vstd::prelude::*;

use crate::daemon::publication::{is_first_reserved, key_is_free, lemma_without_members};
use crate::daemon::registry::{
    added_records, eligible_ranks, funded_by, ids_of, key_view, lemma_place_of,
    lemma_reservation_place, only, without, CandidateSelection, PersistentCollectionCandidate,
    RegistryEntry, Reservation, Residency, RunFacts, RunRegistry,
};
use crate::identity::RunId;
use crate::order::Ranked;
use crate::promises::creation::{executes, law_the_content_is_the_whole_specification};
use crate::protocol::{ErrorCode, ForkFidelity, ForkPlan, OperationKey, ProtocolError, RunLineage};
use crate::run_spec::{matches_run, CreationRequest};

verus! {

/// Whether a Run may make room for another: it is retained, has ended, is in
/// nobody's use and, where a durable record needs the room, has a record.
pub open spec fn may_make_room(entry: RegistryEntry, durable: bool) -> bool {
    &&& entry.residency == Residency::Retained
    &&& !entry.facts.shared
    &&& entry.facts.ordinal is Some
    &&& durable ==> entry.metadata_bytes is Some
}

/// Whether one Run ended before another: earlier in the order of endings, and
/// at the same place with the smaller identity.
pub open spec fn ended_before(a: RegistryEntry, b: RegistryEntry) -> bool {
    ||| a.facts.ordinal->0.number < b.facts.ordinal->0.number
    ||| a.facts.ordinal->0.number == b.facts.ordinal->0.number && a.facts.id.value
        < b.facts.id.value
}

proof fn lemma_eligible_runs_are_ranked(runs: Seq<RegistryEntry>, durable: bool, place: int)
    requires
        0 <= place < runs.len(),
        may_make_room(runs[place], durable),
    ensures
        eligible_ranks(runs, durable).contains(
            Ranked {
                ordinal: runs[place].facts.ordinal->0.number,
                id: runs[place].facts.id.value,
            },
        ),
    decreases runs.len(),
{
    let shorter = runs.drop_last();
    let rest = eligible_ranks(shorter, durable);
    let all = eligible_ranks(runs, durable);
    let rank = Ranked {
        ordinal: runs[place].facts.ordinal->0.number,
        id: runs[place].facts.id.value,
    };
    if place < shorter.len() {
        assert(shorter[place] == runs[place]);
        lemma_eligible_runs_are_ranked(shorter, durable, place);
        let k = choose|k: int| 0 <= k < rest.len() && rest[k] == rank;
        assert(all[k] == rank);
    } else {
        assert(all[all.len() - 1] == rank);
    }
}

proof fn lemma_ranks_are_of_eligible_runs(runs: Seq<RegistryEntry>, durable: bool, rank: Ranked)
    requires
        eligible_ranks(runs, durable).contains(rank),
    ensures
        exists|i: int|
            0 <= i < runs.len() && may_make_room(#[trigger] runs[i], durable) && rank == (Ranked {
                ordinal: runs[i].facts.ordinal->0.number,
                id: runs[i].facts.id.value,
            }),
    decreases runs.len(),
{
    if runs.len() > 0 {
        let shorter = runs.drop_last();
        let rest = eligible_ranks(shorter, durable);
        let all = eligible_ranks(runs, durable);
        let k = choose|k: int| 0 <= k < all.len() && all[k] == rank;
        if k < rest.len() {
            assert(rest[k] == rank);
            lemma_ranks_are_of_eligible_runs(shorter, durable, rank);
            let i = choose|i: int|
                0 <= i < shorter.len() && may_make_room(#[trigger] shorter[i], durable) && rank == (
                Ranked {
                    ordinal: shorter[i].facts.ordinal->0.number,
                    id: shorter[i].facts.id.value,
                });
            assert(may_make_room(runs[i], durable));
        } else {
            assert(may_make_room(runs[runs.len() - 1], durable));
        }
    }
}

/// As long as there is a free place, and the record fits, no Run has to make
/// room.
pub proof fn law_no_run_leaves_without_need(
    registry: RunRegistry,
    selection: CandidateSelection,
)
    requires
        registry@.runs.len() + registry@.reservations.len() < registry@.record_capacity,
        call_ensures(RunRegistry::select_publication_candidates, (&registry, None), selection),
    ensures
        selection.result matches Ok(ids) && ids@.len() == 0,
        selection.evaluated == 0,
{
    lemma_few_records_are_added(registry@.reservations);
}

proof fn lemma_few_records_are_added(reservations: Seq<Reservation>)
    ensures
        0 <= added_records(reservations) <= reservations.len(),
    decreases reservations.len(),
{
    if reservations.len() > 0 {
        lemma_few_records_are_added(reservations.drop_last());
    }
}

/// Where every place is taken, exactly the Run that ended first makes room, of
/// those that may; where none may, the capacity is exhausted.
pub proof fn law_the_run_that_ended_first_makes_room(
    registry: RunRegistry,
    selection: CandidateSelection,
)
    requires
        registry@.valid(),
        registry@.runs.len() >= registry@.record_capacity,
        call_ensures(RunRegistry::select_publication_candidates, (&registry, None), selection),
    ensures
        selection.evaluated == registry@.runs.len(),
        match selection.result {
            Ok(ids) => {
                &&& ids@.len() == 1
                &&& exists|i: int|
                    0 <= i < registry@.runs.len() && may_make_room(
                        #[trigger] registry@.runs[i],
                        false,
                    ) && registry@.runs[i].facts.id == ids@[0] && forall|j: int|
                        0 <= j < registry@.runs.len() && j != i && may_make_room(
                            #[trigger] registry@.runs[j],
                            false,
                        ) ==> ended_before(registry@.runs[i], registry@.runs[j])
            },
            Err(error) => {
                &&& error.code == ErrorCode::RunCapacity
                &&& forall|i: int|
                    0 <= i < registry@.runs.len() ==> !may_make_room(
                        #[trigger] registry@.runs[i],
                        false,
                    )
            },
        },
{
    broadcast use vstd::seq_lib::group_to_multiset_ensures;

    lemma_few_records_are_added(registry@.reservations);
    let view = registry@;
    let runs = view.runs;
    let result = crate::daemon::registry::selected_ids(selection.result);
    let (ordered, count) = choose|ordered: Seq<Ranked>, count: int| #[trigger]
        view.selects(ordered, None, count, result) && view.is_collection_order(ordered, None);
    let ranks = eligible_ranks(runs, false);
    assert(funded_by(runs, ordered.take(0)) == 0);
    if ordered.len() == 0 {
        assert forall|i: int| 0 <= i < runs.len() implies !may_make_room(
            #[trigger] runs[i],
            false,
        ) by {
            if may_make_room(runs[i], false) {
                lemma_eligible_runs_are_ranked(runs, false, i);
                let rank = Ranked {
                    ordinal: runs[i].facts.ordinal->0.number,
                    id: runs[i].facts.id.value,
                };
                assert(ranks.to_multiset().count(rank) > 0);
                assert(ordered.contains(rank));
            }
        }
        assert(!view.suffices(ordered, None, count));
    } else {
        lemma_funding_is_not_negative(runs, ordered.take(1));
        assert(view.suffices(ordered, None, 1));
        assert(!view.suffices(ordered, None, 0));
        assert(count == 1);
        let first = ordered[0];
        assert(ordered.to_multiset().count(first) > 0);
        assert(ranks.contains(first));
        lemma_ranks_are_of_eligible_runs(runs, false, first);
        let i = choose|i: int|
            0 <= i < runs.len() && may_make_room(#[trigger] runs[i], false) && first == (Ranked {
                ordinal: runs[i].facts.ordinal->0.number,
                id: runs[i].facts.id.value,
            });
        let ids = selection.result->Ok_0@;
        assert(ids == ids_of(ordered.take(1)));
        assert(ids[0] == RunId { value: first.id });
        assert(runs[i].facts.id == ids[0]);
        assert forall|j: int|
            0 <= j < runs.len() && j != i && may_make_room(
                #[trigger] runs[j],
                false,
            ) implies ended_before(runs[i], runs[j]) by {
            lemma_eligible_runs_are_ranked(runs, false, j);
            let rank = Ranked {
                ordinal: runs[j].facts.ordinal->0.number,
                id: runs[j].facts.id.value,
            };
            assert(ranks.to_multiset().count(rank) > 0);
            assert(ordered.contains(rank));
            let k = choose|k: int| 0 <= k < ordered.len() && ordered[k] == rank;
            assert(crate::order::rank_not_after(ordered[0], ordered[k]));
            if runs[i].facts.id.value == runs[j].facts.id.value {
                assert(runs[i].facts.id == runs[j].facts.id);
                if i < j {
                    assert(crate::daemon::registry::bound_apart(runs[i], runs[j]));
                } else {
                    assert(crate::daemon::registry::bound_apart(runs[j], runs[i]));
                }
            }
        }
    }
}

proof fn lemma_funding_is_not_negative(runs: Seq<RegistryEntry>, ranks: Seq<Ranked>)
    ensures
        funded_by(runs, ranks) >= 0,
    decreases ranks.len(),
{
    if ranks.len() > 0 {
        lemma_funding_is_not_negative(runs, ranks.drop_last());
    }
}

/// Runs make room in the order in which they ended: no Run stays that ended
/// before one that leaves and may leave itself. Each of them may leave, and
/// none is named twice.
pub proof fn law_runs_make_room_in_the_order_of_their_ends(
    registry: RunRegistry,
    new_metadata: Option<u64>,
    selection: CandidateSelection,
    ids: Vec<RunId>,
    leaves: int,
    stays: int,
)
    requires
        registry@.valid(),
        call_ensures(
            RunRegistry::select_publication_candidates,
            (&registry, new_metadata),
            selection,
        ),
        selection.result == Ok::<Vec<RunId>, ProtocolError>(ids),
        0 <= leaves < registry@.runs.len(),
        ids@.contains(registry@.runs[leaves].facts.id),
        0 <= stays < registry@.runs.len(),
        may_make_room(registry@.runs[stays], new_metadata is Some),
        !ids@.contains(registry@.runs[stays].facts.id),
    ensures
        may_make_room(registry@.runs[leaves], new_metadata is Some),
        ended_before(registry@.runs[leaves], registry@.runs[stays]),
        ids@.no_duplicates(),
{
    broadcast use vstd::seq_lib::group_to_multiset_ensures;

    let view = registry@;
    let runs = view.runs;
    let durable = new_metadata is Some;
    let result = crate::daemon::registry::selected_ids(selection.result);
    let (ordered, count) = choose|ordered: Seq<Ranked>, count: int| #[trigger]
        view.selects(ordered, new_metadata, count, result) && view.is_collection_order(
            ordered,
            new_metadata,
        );
    let ranks = eligible_ranks(runs, durable);
    let id = runs[leaves].facts.id;
    let k = choose|k: int| 0 <= k < ids@.len() && ids@[k] == id;
    assert(ids@ == ids_of(ordered.take(count)));
    let first = ordered[k];
    assert(ids@[k] == RunId { value: first.id });
    assert(ordered.to_multiset().count(first) > 0);
    assert(ranks.contains(first));
    lemma_ranks_are_of_eligible_runs(runs, durable, first);
    let i = choose|i: int|
        0 <= i < runs.len() && may_make_room(#[trigger] runs[i], durable) && first == (Ranked {
            ordinal: runs[i].facts.ordinal->0.number,
            id: runs[i].facts.id.value,
        });
    lemma_place_of(view, id, leaves);
    assert(runs[i].facts.id == id);
    lemma_place_of(view, id, i);
    lemma_eligible_runs_are_ranked(runs, durable, stays);
    let rank = Ranked {
        ordinal: runs[stays].facts.ordinal->0.number,
        id: runs[stays].facts.id.value,
    };
    assert(ranks.to_multiset().count(rank) > 0);
    assert(ordered.contains(rank));
    let other = choose|other: int| 0 <= other < ordered.len() && ordered[other] == rank;
    if other < count {
        assert(ids@[other] == RunId { value: rank.id });
        assert(ids@[other] == runs[stays].facts.id);
    }
    assert(crate::order::rank_not_after(ordered[k], ordered[other]));
    assert(runs[stays].facts.id != id);
}

/// A reservation takes a new ticket and remembers what it is for. It fences
/// exactly the Runs that will make room, each of which was retained; nothing
/// else changes. A refused one changes nothing.
pub proof fn law_a_reservation_fences_what_will_leave(
    registry: &mut RunRegistry,
    id: RunId,
    key: Option<OperationKey>,
    request: Option<CreationRequest>,
    metadata: Option<u64>,
    r: Result<u64, ProtocolError>,
)
    requires
        call_ensures(
            RunRegistry::reserve_publication,
            (registry, id, key, request, metadata),
            r,
        ),
    ensures
        r is Err ==> final(registry)@ == old(registry)@,
        r matches Ok(ticket) ==> {
            let before = old(registry)@;
            let after = final(registry)@;
            let made = after.reservations[before.reservations.len() as int];
            &&& ticket == before.next_ticket + 1
            &&& after.next_ticket == ticket
            &&& after.reservations.len() == before.reservations.len() + 1
            &&& forall|i: int|
                0 <= i < before.reservations.len() ==> #[trigger] after.reservations[i]
                    == before.reservations[i]
            &&& made.ticket == ticket
            &&& made.new_run_id == id
            &&& made.operation_key == key
            &&& made.request == request
            &&& made.new_metadata_bytes == metadata
            &&& after.runs.len() == before.runs.len()
            &&& forall|i: int|
                0 <= i < before.runs.len() ==> #[trigger] after.runs[i]
                    == if made.candidates@.contains(before.runs[i].facts.id) {
                    RegistryEntry { residency: Residency::Collecting(ticket), ..before.runs[i] }
                } else {
                    before.runs[i]
                }
            &&& after.record_capacity == before.record_capacity
            &&& after.metadata_budget == before.metadata_budget
        },
{
    if let Ok(ticket) = r {
        let before = old(registry)@;
        let after = final(registry)@;
        assert(after.reservations.last() == after.reservations[before.reservations.len() as int]);
        assert forall|i: int| 0 <= i < before.reservations.len() implies #[trigger]
            after.reservations[i] == before.reservations[i] by {
            assert(after.reservations.drop_last()[i] == before.reservations[i]);
        }
    }
}

/// A reservation that is given up makes its Runs available again and is gone;
/// every other Run and reservation stays as it is.
pub proof fn law_a_given_up_reservation_frees_its_runs(
    registry: &mut RunRegistry,
    ticket: u64,
    place: int,
)
    requires
        old(registry)@.valid(),
        0 <= place < old(registry)@.reservations.len(),
        old(registry)@.reservations[place].ticket == ticket,
        call_ensures(RunRegistry::restore_reservation, (registry, ticket), ()),
    ensures
        ({
            let before = old(registry)@;
            let after = final(registry)@;
            let freed = before.reservations[place].candidates@;
            &&& after.reservations == before.reservations.remove(place)
            &&& after.runs.len() == before.runs.len()
            &&& forall|i: int|
                0 <= i < before.runs.len() ==> #[trigger] after.runs[i] == if freed.contains(
                    before.runs[i].facts.id,
                ) {
                    RegistryEntry { residency: Residency::Retained, ..before.runs[i] }
                } else {
                    before.runs[i]
                }
            &&& after.next_ticket == before.next_ticket
            &&& after.record_capacity == before.record_capacity
            &&& after.metadata_budget == before.metadata_budget
        }),
{
    lemma_reservation_place(old(registry)@, ticket, place);
}

proof fn lemma_only_members(runs: Seq<RegistryEntry>, ids: Seq<RunId>)
    ensures
        forall|entry: RegistryEntry| #[trigger]
            only(runs, ids).contains(entry) <==> runs.contains(entry) && ids.contains(
                entry.facts.id,
            ),
    decreases runs.len(),
{
    let keep = |entry: RegistryEntry| ids.contains(entry.facts.id);
    reveal(Seq::filter);
    if runs.len() > 0 {
        let shorter = runs.drop_last();
        lemma_only_members(shorter, ids);
        let rest = only(shorter, ids);
        let all = only(runs, ids);
        assert(all == if keep(runs.last()) {
            rest.push(runs.last())
        } else {
            rest
        });
        assert forall|entry: RegistryEntry| #[trigger]
            all.contains(entry) <==> runs.contains(entry) && ids.contains(entry.facts.id) by {
            if all.contains(entry) {
                let k = choose|k: int| 0 <= k < all.len() && all[k] == entry;
                if k < rest.len() {
                    assert(rest[k] == entry);
                    assert(rest.contains(entry));
                    let i = choose|i: int| 0 <= i < shorter.len() && shorter[i] == entry;
                    assert(runs[i] == entry);
                } else {
                    assert(runs[runs.len() - 1] == entry);
                }
            }
            if runs.contains(entry) && ids.contains(entry.facts.id) {
                let i = choose|i: int| 0 <= i < runs.len() && runs[i] == entry;
                if i < shorter.len() {
                    assert(shorter[i] == entry);
                    assert(rest.contains(entry));
                    let k = choose|k: int| 0 <= k < rest.len() && rest[k] == entry;
                    assert(all[k] == entry);
                } else {
                    assert(all[all.len() - 1] == entry);
                }
            }
        }
    } else {
        assert(only(runs, ids) =~= runs);
    }
}

/// A publication replaces exactly the Runs that were to make room by the new
/// one. It is retained under the key of its reservation with its facts and its
/// record's size, and has no Stop. The Runs that left are handed out, and the
/// reservation is gone.
pub proof fn law_a_publication_replaces_what_made_room(
    registry: &mut RunRegistry,
    ticket: u64,
    facts: RunFacts,
    metadata_bytes: Option<u64>,
    removed: Vec<RegistryEntry>,
    place: int,
)
    requires
        old(registry)@.valid(),
        0 <= place < old(registry)@.reservations.len(),
        old(registry)@.reservations[place].ticket == ticket,
        call_ensures(
            RunRegistry::publish_creation,
            (registry, ticket, facts, metadata_bytes),
            removed,
        ),
    ensures
        ({
            let before = old(registry)@;
            let after = final(registry)@;
            let gone = before.reservations[place].candidates@;
            let stayed = after.runs.drop_last();
            &&& after.runs.len() > 0
            &&& after.runs.last() == (RegistryEntry {
                facts,
                operation_key: before.reservations[place].operation_key,
                stop: None,
                metadata_bytes,
                residency: Residency::Retained,
            })
            &&& forall|i: int|
                0 <= i < stayed.len() ==> before.runs.contains(#[trigger] stayed[i])
                    && !gone.contains(stayed[i].facts.id)
            &&& forall|i: int|
                0 <= i < before.runs.len() && !gone.contains((#[trigger] before.runs[i]).facts.id)
                    ==> stayed.contains(before.runs[i])
            &&& forall|entry: RegistryEntry| #[trigger]
                removed@.contains(entry) <==> before.runs.contains(entry) && gone.contains(
                    entry.facts.id,
                )
            &&& after.reservations == before.reservations.remove(place)
            &&& after.next_ticket == before.next_ticket
            &&& after.record_capacity == before.record_capacity
            &&& after.metadata_budget == before.metadata_budget
        }),
{
    let before = old(registry)@;
    let after = final(registry)@;
    lemma_reservation_place(before, ticket, place);
    let gone = before.reservations[place].candidates@;
    lemma_without_members(before.runs, gone);
    lemma_only_members(before.runs, gone);
    assert(after.runs.drop_last() =~= without(before.runs, gone));
}

/// A key stands for a new Run exactly where neither a reservation nor a Run has
/// it.
pub proof fn law_a_key_that_nobody_has_is_free(
    registry: RunRegistry,
    key: OperationKey,
    request: CreationRequest,
    r: Result<Option<RunId>, ProtocolError>,
)
    requires
        registry@.valid(),
        call_ensures(RunRegistry::resolve_creation_info, (&registry, &key, &request), r),
    ensures
        r == Ok::<Option<RunId>, ProtocolError>(None) <==> {
            &&& forall|i: int|
                0 <= i < registry@.runs.len() ==> ((
                #[trigger] registry@.runs[i]).operation_key matches Some(taken) ==> taken@ != key@)
            &&& forall|i: int|
                0 <= i < registry@.reservations.len() ==> ((
                #[trigger] registry@.reservations[i]).operation_key matches Some(taken) ==> taken@
                    != key@)
        },
{
    let reservations = registry@.reservations;
    if exists|i: int|
        0 <= i < reservations.len() && key_view((#[trigger] reservations[i]).operation_key) == Some(
            key@,
        ) {
        let i = choose|i: int|
            0 <= i < reservations.len() && key_view((#[trigger] reservations[i]).operation_key)
                == Some(key@);
        lemma_first_reserved(reservations, key@, i);
    } else {
        assert forall|place: int| !is_first_reserved(reservations, key@, place) by {
            if is_first_reserved(reservations, key@, place) {
                assert(key_view(reservations[place].operation_key) == Some(key@));
            }
        }
        if r == Ok::<Option<RunId>, ProtocolError>(None) {
            assert forall|i: int| 0 <= i < registry@.runs.len() implies ((
            #[trigger] registry@.runs[i]).operation_key matches Some(taken) ==> taken@ != key@) by {
                assert(key_view(registry@.runs[i].operation_key) != Some(key@));
            }
        }
        assert forall|i: int| 0 <= i < reservations.len() implies ((
        #[trigger] reservations[i]).operation_key matches Some(taken) ==> taken@ != key@) by {
            assert(key_view(reservations[i].operation_key) != Some(key@));
        }
    }
}

proof fn lemma_first_reserved(reservations: Seq<Reservation>, key: Seq<char>, place: int)
    requires
        0 <= place < reservations.len(),
        key_view(reservations[place].operation_key) == Some(key),
    ensures
        exists|first: int| is_first_reserved(reservations, key, first),
    decreases place,
{
    if exists|k: int|
        0 <= k < place && key_view((#[trigger] reservations[k]).operation_key) == Some(key) {
        let k = choose|k: int|
            0 <= k < place && key_view((#[trigger] reservations[k]).operation_key) == Some(key);
        lemma_first_reserved(reservations, key, k);
    } else {
        assert(is_first_reserved(reservations, key, place));
    }
}

/// A key that made a Run stands for that Run, and for no other: a retry that
/// asks for the same finds it while it is retained, and any other request with
/// the key is a conflict.
pub proof fn law_a_key_stands_for_the_run_that_it_made(
    registry: RunRegistry,
    key: OperationKey,
    request: CreationRequest,
    r: Result<Option<RunId>, ProtocolError>,
    place: int,
)
    requires
        registry@.valid(),
        0 <= place < registry@.runs.len(),
        registry@.runs[place].operation_key matches Some(taken) && taken@ == key@,
        call_ensures(RunRegistry::resolve_creation_info, (&registry, &key, &request), r),
    ensures
        r matches Ok(found) ==> found == Some(registry@.runs[place].facts.id)
            && registry@.runs[place].residency == Residency::Retained && (
        registry@.runs[place].facts.spec matches Some(made) && match request {
            CreationRequest::Start { spec } => executes(spec, made@) && executes(made, made@)
                && registry@.runs[place].facts.lineage is None,
            CreationRequest::Fork { parent, plan: ForkPlan::LevelA } =>
                registry@.runs[place].facts.lineage == Some(
                RunLineage { parent, fidelity: ForkFidelity::LevelA },
            ),
            CreationRequest::Fork { parent, plan: ForkPlan::LevelB { spec } } => executes(
                spec,
                made@,
            ) && executes(made, made@) && registry@.runs[place].facts.lineage == Some(
                RunLineage { parent, fidelity: ForkFidelity::LevelB },
            ),
        }),
        r matches Err(error) ==> error.code == ErrorCode::CreationConflict || error.code
            == ErrorCode::BackendUnavailable,
{
    match request {
        CreationRequest::Start { spec } => law_the_content_is_the_whole_specification(spec),
        CreationRequest::Fork { plan: ForkPlan::LevelB { spec }, .. } =>
            law_the_content_is_the_whole_specification(spec),
        _ => {},
    }
    if let Some(made) = registry@.runs[place].facts.spec {
        law_the_content_is_the_whole_specification(made);
    }
    assert(key_view(registry@.runs[place].operation_key) == Some(key@));
    assert(!key_is_free(registry@.runs, key@));
    if let Ok(found) = r {
        let other = choose|other: int|
            0 <= other < registry@.runs.len() && key_view(
                (#[trigger] registry@.runs[other]).operation_key,
            ) == Some(key@) && r == Ok::<Option<RunId>, ProtocolError>(
                Some(registry@.runs[other].facts.id),
            ) && registry@.runs[other].residency == Residency::Retained;
        if other != place {
            if other < place {
                assert(crate::daemon::registry::bound_apart(
                    registry@.runs[other],
                    registry@.runs[place],
                ));
            } else {
                assert(crate::daemon::registry::bound_apart(
                    registry@.runs[place],
                    registry@.runs[other],
                ));
            }
        }
    }
}

/// A new registry is empty and holds four thousand Runs at most; another bound
/// can be set, and a limit of descriptors only lowers it.
pub proof fn law_the_bound_of_runs_is_only_lowered(
    budget: u64,
    fresh: RunRegistry,
    capacity: usize,
    bounded: RunRegistry,
    registry: &mut RunRegistry,
    ceiling: usize,
)
    requires
        call_ensures(RunRegistry::new, (budget,), fresh),
        call_ensures(RunRegistry::with_record_capacity, (capacity, budget), bounded),
        call_ensures(RunRegistry::clamp_record_capacity, (registry, ceiling), ()),
    ensures
        fresh@.runs.len() == 0 && fresh@.reservations.len() == 0,
        fresh@.record_capacity == 4000 && fresh@.metadata_budget == budget,
        bounded@.runs.len() == 0 && bounded@.reservations.len() == 0,
        bounded@.record_capacity == capacity && bounded@.metadata_budget == budget,
        final(registry)@.record_capacity <= ceiling,
        final(registry)@.record_capacity <= old(registry)@.record_capacity,
        final(registry)@.record_capacity == ceiling || final(registry)@.record_capacity == old(
            registry,
        )@.record_capacity,
        final(registry)@.runs == old(registry)@.runs,
        final(registry)@.reservations == old(registry)@.reservations,
{
}

/// A retained Run comes last, with its facts, its key and its record's size;
/// all others stay as they are.
pub proof fn law_a_retained_run_joins_the_others(
    registry: &mut RunRegistry,
    facts: RunFacts,
    key: Option<OperationKey>,
    metadata_bytes: Option<u64>,
)
    requires
        call_ensures(RunRegistry::retain, (registry, facts, key, metadata_bytes), ()),
    ensures
        final(registry)@.runs == old(registry)@.runs.push(
            RegistryEntry {
                facts,
                operation_key: key,
                stop: None,
                metadata_bytes,
                residency: Residency::Retained,
            },
        ),
        final(registry)@.reservations == old(registry)@.reservations,
        final(registry)@.record_capacity == old(registry)@.record_capacity,
{
}

/// A reservation whose Runs could not be detached is given up with an error;
/// otherwise nothing changes.
pub proof fn law_a_reservation_needs_detached_runs(
    registry: &mut RunRegistry,
    ticket: u64,
    detached: Result<(), String>,
    r: Result<(), ProtocolError>,
    place: int,
)
    requires
        old(registry)@.valid(),
        0 <= place < old(registry)@.reservations.len(),
        old(registry)@.reservations[place].ticket == ticket,
        call_ensures(RunRegistry::settle_reservation, (registry, ticket, detached), r),
    ensures
        r is Ok <==> detached is Ok,
        detached is Ok ==> final(registry)@ == old(registry)@,
        detached is Err ==> {
            let freed = old(registry)@.reservations[place].candidates@;
            &&& final(registry)@.reservations == old(registry)@.reservations.remove(place)
            &&& forall|i: int|
                0 <= i < old(registry)@.runs.len() ==> #[trigger] final(registry)@.runs[i]
                    == if freed.contains(old(registry)@.runs[i].facts.id) {
                    RegistryEntry { residency: Residency::Retained, ..old(registry)@.runs[i] }
                } else {
                    old(registry)@.runs[i]
                }
        },
{
    lemma_reservation_place(old(registry)@, ticket, place);
}

/// What will leave for a reservation is what it names, each Run with its own
/// key and the size of its own record.
pub proof fn law_what_leaves_is_named_with_its_record(
    registry: RunRegistry,
    ticket: u64,
    ids: Vec<RunId>,
    candidates: Vec<PersistentCollectionCandidate>,
    place: int,
    k: int,
    run: int,
)
    requires
        registry@.valid(),
        0 <= place < registry@.reservations.len(),
        registry@.reservations[place].ticket == ticket,
        call_ensures(RunRegistry::candidates, (&registry, ticket), ids),
        call_ensures(RunRegistry::persistent_candidates, (&registry, ticket), candidates),
        0 <= k < candidates@.len(),
        0 <= run < registry@.runs.len(),
        registry@.runs[run].facts.id == candidates@[k].id,
    ensures
        ids@ == registry@.reservations[place].candidates@,
        candidates@.len() == ids@.len(),
        candidates@[k].id == ids@[k],
        Some(candidates@[k].operation_key) == registry@.runs[run].operation_key,
        Some(candidates@[k].metadata_bytes) == registry@.runs[run].metadata_bytes,
{
    lemma_reservation_place(registry@, ticket, place);
    lemma_place_of(registry@, candidates@[k].id, run);
}

/// A Run can become public under a ticket exactly where the ticket is reserved
/// for it, and neither its identity nor its key is taken.
pub proof fn law_only_a_reserved_run_becomes_public(
    registry: RunRegistry,
    ticket: u64,
    id: RunId,
    r: bool,
    place: int,
)
    requires
        registry@.valid(),
        0 <= place < registry@.reservations.len(),
        registry@.reservations[place].ticket == ticket,
        call_ensures(RunRegistry::is_publishable, (&registry, ticket, id), r),
    ensures
        r <==> {
            &&& registry@.reservations[place].new_run_id == id
            &&& forall|i: int|
                0 <= i < registry@.runs.len() ==> (#[trigger] registry@.runs[i]).facts.id != id
            &&& registry@.reservations[place].operation_key matches Some(key) ==> forall|i: int|
                0 <= i < registry@.runs.len() ==> ((
                #[trigger] registry@.runs[i]).operation_key matches Some(taken) ==> taken@ != key@)
        },
{
    lemma_reservation_place(registry@, ticket, place);
    if let Some(key) = registry@.reservations[place].operation_key {
        if forall|i: int|
            0 <= i < registry@.runs.len() ==> ((
            #[trigger] registry@.runs[i]).operation_key matches Some(taken) ==> taken@ != key@) {
            assert forall|i: int| 0 <= i < registry@.runs.len() implies key_view(
                (#[trigger] registry@.runs[i]).operation_key,
            ) != Some(key@) by {
            }
        }
        if key_is_free(registry@.runs, key@) {
            assert forall|i: int| 0 <= i < registry@.runs.len() implies ((
            #[trigger] registry@.runs[i]).operation_key matches Some(taken) ==> taken@ != key@) by {
                assert(key_view(registry@.runs[i].operation_key) != Some(key@));
            }
        }
    }
}

/// The size of the records of some Runs.
pub open spec fn size_of_records(runs: Seq<RegistryEntry>) -> int
    decreases runs.len(),
{
    if runs.len() == 0 {
        0
    } else {
        size_of_records(runs.drop_last()) + (match runs.last().metadata_bytes {
            Some(bytes) => bytes as int,
            None => 0,
        })
    }
}

proof fn lemma_size_of_records(runs: Seq<RegistryEntry>)
    ensures
        size_of_records(runs) == crate::daemon::registry::retained_metadata(runs),
        size_of_records(runs) >= 0,
    decreases runs.len(),
{
    if runs.len() > 0 {
        lemma_size_of_records(runs.drop_last());
    }
}

/// Without reservations the records take what the retained Runs' records take.
pub proof fn law_records_take_what_their_runs_take(
    registry: RunRegistry,
    projected: u64,
    capacity: usize,
)
    requires
        registry@.reservations.len() == 0,
        size_of_records(registry@.runs) <= u64::MAX,
        call_ensures(RunRegistry::projected_metadata_bytes, (&registry,), projected),
        call_ensures(RunRegistry::record_capacity, (&registry,), capacity),
    ensures
        projected == size_of_records(registry@.runs),
        capacity == registry@.record_capacity,
{
    lemma_size_of_records(registry@.runs);
}

/// Where a new record does not fit beside those that are there, the Runs that
/// make room free at least what is missing.
pub proof fn law_a_new_record_fits(
    registry: RunRegistry,
    new_bytes: u64,
    selection: CandidateSelection,
    ids: Vec<RunId>,
)
    requires
        registry@.valid(),
        registry@.reservations.len() == 0,
        registry@.runs.len() < registry@.record_capacity,
        size_of_records(registry@.runs) + new_bytes <= u64::MAX,
        call_ensures(
            RunRegistry::select_publication_candidates,
            (&registry, Some(new_bytes)),
            selection,
        ),
        selection.result == Ok::<Vec<RunId>, ProtocolError>(ids),
    ensures
        size_of_records(registry@.runs) + new_bytes <= registry@.metadata_budget ==> ids@.len()
            == 0,
        size_of_records(registry@.runs) + new_bytes > registry@.metadata_budget ==> ids@.len() > 0
            && crate::daemon::registry::candidate_metadata(registry@.runs, ids@)
            >= size_of_records(registry@.runs) + new_bytes - registry@.metadata_budget,
{
    lemma_size_of_records(registry@.runs);
    let view = registry@;
    let result = crate::daemon::registry::selected_ids(selection.result);
    if size_of_records(view.runs) + new_bytes > view.metadata_budget {
        let (ordered, count) = choose|ordered: Seq<Ranked>, count: int| #[trigger]
            view.selects(ordered, Some(new_bytes), count, result) && view.is_collection_order(
                ordered,
                Some(new_bytes),
            );
        assert(view.suffices(ordered, Some(new_bytes), count));
        assert(ids@ == ids_of(ordered.take(count)));
        lemma_funding_is_backed(view.runs, ordered.take(count));
    }
}

proof fn lemma_funding_is_backed(runs: Seq<RegistryEntry>, ranks: Seq<Ranked>)
    ensures
        funded_by(runs, ranks) <= crate::daemon::registry::candidate_metadata(runs, ids_of(ranks)),
        ranks.len() == 0 ==> funded_by(runs, ranks) == 0,
    decreases ranks.len(),
{
    if ranks.len() > 0 {
        lemma_funding_is_backed(runs, ranks.drop_last());
        assert(ids_of(ranks).drop_last() =~= ids_of(ranks.drop_last()));
        assert(ids_of(ranks).last() == RunId { value: ranks.last().id });
    }
}

/// A key that made a Run refuses every request but the one that made it, as a
/// conflict; that one is told to come again while the Run is not available.
pub proof fn law_another_request_under_a_taken_key_is_a_conflict(
    registry: RunRegistry,
    key: OperationKey,
    request: CreationRequest,
    r: Result<Option<RunId>, ProtocolError>,
    place: int,
    same: bool,
)
    requires
        registry@.valid(),
        0 <= place < registry@.runs.len(),
        registry@.runs[place].operation_key matches Some(taken) && taken@ == key@,
        forall|i: int|
            0 <= i < registry@.reservations.len() ==> ((
            #[trigger] registry@.reservations[i]).operation_key matches Some(taken) ==> taken@
                != key@),
        call_ensures(
            matches_run,
            (
                &request,
                &registry@.runs[place].facts.spec,
                &registry@.runs[place].facts.lineage,
            ),
            same,
        ),
        call_ensures(RunRegistry::resolve_creation_info, (&registry, &key, &request), r),
    ensures
        !same ==> (r matches Err(error) && error.code == ErrorCode::CreationConflict),
        same && registry@.runs[place].residency == Residency::Retained ==> r == Ok::<
            Option<RunId>,
            ProtocolError,
        >(Some(registry@.runs[place].facts.id)),
        same && registry@.runs[place].residency != Residency::Retained ==> (r matches Err(error)
            && error.code == ErrorCode::BackendUnavailable),
{
    let runs = registry@.runs;
    assert(key_view(runs[place].operation_key) == Some(key@));
    assert forall|k: int| !is_first_reserved(registry@.reservations, key@, k) by {
        if is_first_reserved(registry@.reservations, key@, k) {
            assert(key_view(registry@.reservations[k].operation_key) == Some(key@));
        }
    }
    assert forall|other: int|
        0 <= other < runs.len() && key_view((#[trigger] runs[other]).operation_key) == Some(
            key@,
        ) implies other == place by {
        if other < place {
            assert(crate::daemon::registry::bound_apart(runs[other], runs[place]));
        } else if place < other {
            assert(crate::daemon::registry::bound_apart(runs[place], runs[other]));
        }
    }
}

/// A key that is reserved is told to come again, if it asks for the same, and is
/// a conflict otherwise.
pub proof fn law_a_reserved_key_is_not_created_again(
    registry: RunRegistry,
    key: OperationKey,
    request: CreationRequest,
    r: Result<Option<RunId>, ProtocolError>,
    place: int,
    same: bool,
)
    requires
        0 <= place < registry@.reservations.len(),
        registry@.reservations[place].operation_key matches Some(taken) && taken@ == key@,
        forall|i: int|
            0 <= i < place ==> ((
            #[trigger] registry@.reservations[i]).operation_key matches Some(taken) ==> taken@
                != key@),
        match registry@.reservations[place].request {
            Some(owned) => call_ensures(CreationRequest::same, (&owned, &request), same),
            None => same,
        },
        call_ensures(RunRegistry::resolve_creation_info, (&registry, &key, &request), r),
    ensures
        r matches Err(error) && error.code == (if same {
            ErrorCode::BackendUnavailable
        } else {
            ErrorCode::CreationConflict
        }),
{
    let reservations = registry@.reservations;
    assert forall|k: int| 0 <= k < place implies key_view(
        (#[trigger] reservations[k]).operation_key,
    ) != Some(key@) by {
    }
    assert(is_first_reserved(reservations, key@, place));
    assert forall|other: int| is_first_reserved(reservations, key@, other) implies other
        == place by {
        if other < place {
            assert(key_view(reservations[other].operation_key) != Some(key@));
        } else if place < other {
            assert(key_view(reservations[place].operation_key) != Some(key@));
        }
    }
}

} // verus!
