//! Stopping, pinning, removing and listing retained Runs.

use vstd::prelude::*;

use crate::daemon::ledger::{ranks_after, StopAdmission};
use crate::daemon::manager::RunManager;
use crate::daemon::registry::{
    lemma_place_of, PersistentCollectionCandidate, RegistryEntry, RegistryView, Residency, RunFacts,
    RunRegistry, StopRecord,
};
use crate::identity::RunId;
use crate::order::Ranked;
use crate::protocol::{
    CommandDisposition, ControlFailure, ControlResult, ErrorCode, OperationKey, ProtocolError,
};

verus! {

/// Whether nothing changed but one retained Run.
pub open spec fn only_this_run_changed(
    before: RegistryView,
    after: RegistryView,
    place: int,
) -> bool {
    &&& after.runs.len() == before.runs.len()
    &&& forall|i: int|
        0 <= i < before.runs.len() && i != place ==> #[trigger] after.runs[i] == before.runs[i]
    &&& after.reservations == before.reservations
    &&& after.next_ticket == before.next_ticket
    &&& after.record_capacity == before.record_capacity
    &&& after.metadata_budget == before.metadata_budget
}

/// Whether nothing changed but that one retained Run is gone.
pub open spec fn only_this_run_left(before: RegistryView, after: RegistryView, place: int) -> bool {
    &&& after.runs.len() == before.runs.len() - 1
    &&& forall|i: int| 0 <= i < place ==> #[trigger] after.runs[i] == before.runs[i]
    &&& forall|i: int| place <= i < after.runs.len() ==> #[trigger] after.runs[i] == before.runs[i
        + 1]
    &&& after.reservations == before.reservations
    &&& after.next_ticket == before.next_ticket
    &&& after.record_capacity == before.record_capacity
    &&& after.metadata_budget == before.metadata_budget
}

/// A Stop begins exactly where its key is sound and belongs to no Run yet, and
/// its Run is retained and belongs to no Stop. A refused one was not applied.
pub proof fn law_a_stop_begins_once(
    registry: RunRegistry,
    id: RunId,
    key: OperationKey,
    r: Result<StopAdmission, ControlFailure>,
    place: int,
)
    requires
        registry@.valid(),
        0 <= place < registry@.runs.len(),
        registry@.runs[place].facts.id == id,
        call_ensures(RunRegistry::begin_recoverable_stop, (&registry, id, &key), r),
    ensures
        r matches Ok(StopAdmission::Begin) <==> {
            &&& key.defect is None
            &&& registry@.runs[place].residency == Residency::Retained
            &&& registry@.runs[place].stop is None
            &&& forall|i: int|
                0 <= i < registry@.runs.len() ==> ((#[trigger] registry@.runs[i]).stop matches Some(
                    record,
                ) ==> record.key@ != key@)
        },
        r matches Err(failure) ==> failure.disposition == CommandDisposition::NotApplied,
        key.defect is Some ==> (r matches Err(failure) && failure.error.code
            == ErrorCode::InvalidRequest),
{
    lemma_place_of(registry@, id, place);
}

/// A Stop that is asked for again with its key gets what the first one came to,
/// once that is known; it is not begun again.
pub proof fn law_a_repeated_stop_gets_the_first_result(
    registry: RunRegistry,
    id: RunId,
    key: OperationKey,
    r: Result<StopAdmission, ControlFailure>,
    place: int,
)
    requires
        registry@.valid(),
        0 <= place < registry@.runs.len(),
        registry@.runs[place].stop matches Some(record) && record.key@ == key@,
        key.defect is None,
        call_ensures(RunRegistry::begin_recoverable_stop, (&registry, id, &key), r),
    ensures
        registry@.runs[place].facts.id == id && registry@.runs[place].residency
            == Residency::Retained ==> r == Ok::<StopAdmission, ControlFailure>(
            StopAdmission::Retry { settled: registry@.runs[place].stop->0.settled },
        ),
        registry@.runs[place].facts.id != id ==> (r matches Err(failure) && failure.error.code
            == ErrorCode::StopOperationConflict && failure.disposition
            == CommandDisposition::NotApplied),
        registry@.runs[place].facts.id == id && registry@.runs[place].residency
            != Residency::Retained ==> (r matches Err(failure) && failure.error.code
            == ErrorCode::BackendUnavailable),
{
}

/// A Stop of a Run that is not there is refused as such.
pub proof fn law_a_stop_needs_its_run(
    registry: RunRegistry,
    id: RunId,
    key: OperationKey,
    r: Result<StopAdmission, ControlFailure>,
)
    requires
        key.defect is None,
        forall|i: int|
            0 <= i < registry@.runs.len() ==> (#[trigger] registry@.runs[i]).facts.id != id,
        call_ensures(RunRegistry::begin_recoverable_stop, (&registry, id, &key), r),
    ensures
        r matches Err(failure) && failure.disposition == CommandDisposition::NotApplied,
        (forall|i: int|
            0 <= i < registry@.runs.len() ==> ((#[trigger] registry@.runs[i]).stop matches Some(
                record,
            ) ==> record.key@ != key@)) ==> r->Err_0.error.code == ErrorCode::RunNotFound,
{
}

/// A begun Stop is bound to its Run with its key, not settled yet; one that
/// could not begin leaves everything as it was and fails with its reason.
pub proof fn law_a_begun_stop_is_bound_to_its_run(
    registry: &mut RunRegistry,
    id: RunId,
    key: OperationKey,
    begun: Result<(), ControlFailure>,
    r: Result<(), ControlFailure>,
    place: int,
)
    requires
        old(registry)@.valid(),
        0 <= place < old(registry)@.runs.len(),
        old(registry)@.runs[place].facts.id == id,
        call_ensures(RunRegistry::bind_recoverable_stop, (registry, id, key, begun), r),
    ensures
        match begun {
            Err(failure) => r == Err::<(), ControlFailure>(failure) && final(registry)@ == old(
                registry,
            )@,
            Ok(_) => {
                &&& r is Ok
                &&& only_this_run_changed(old(registry)@, final(registry)@, place)
                &&& final(registry)@.runs[place] == (RegistryEntry {
                    stop: Some(StopRecord { key, settled: None }),
                    ..old(registry)@.runs[place]
                })
            },
        },
{
    lemma_place_of(old(registry)@, id, place);
}

/// A Stop settles with its result and keeps its key. One that was not applied
/// leaves the Run free for another.
pub proof fn law_a_stop_settles_with_its_result(
    registry: &mut RunRegistry,
    id: RunId,
    result: ControlResult,
    place: int,
)
    requires
        old(registry)@.valid(),
        0 <= place < old(registry)@.runs.len(),
        old(registry)@.runs[place].facts.id == id,
        old(registry)@.runs[place].stop is Some,
        call_ensures(RunRegistry::settle_recoverable_stop, (registry, id, result), ()),
    ensures
        only_this_run_changed(old(registry)@, final(registry)@, place),
        final(registry)@.runs[place] == (RegistryEntry {
            stop: final(registry)@.runs[place].stop,
            ..old(registry)@.runs[place]
        }),
        if result matches Err(failure) && failure.disposition == CommandDisposition::NotApplied {
            final(registry)@.runs[place].stop is None
        } else {
            final(registry)@.runs[place].stop matches Some(record) && record.settled == Some(result)
                && record.key == old(registry)@.runs[place].stop->0.key
        },
{
    lemma_place_of(old(registry)@, id, place);
}

/// A Run can be used exactly while it is retained; one that is being replaced
/// or removed is not available.
pub proof fn law_only_a_retained_run_is_pinned(
    registry: RunRegistry,
    manager: RunManager,
    id: RunId,
    pinned: Result<bool, ProtocolError>,
    used: Result<(), ProtocolError>,
    place: int,
)
    requires
        registry@ == manager@.registry,
        registry@.valid(),
        0 <= place < registry@.runs.len(),
        registry@.runs[place].facts.id == id,
        call_ensures(RunRegistry::pin, (&registry, id), pinned),
        call_ensures(RunManager::pin, (&manager, id), used),
    ensures
        registry@.runs[place].residency == Residency::Retained ==> pinned == Ok::<
            bool,
            ProtocolError,
        >(true) && used is Ok,
        registry@.runs[place].residency != Residency::Retained ==> (pinned matches Err(error)
            && error.code == ErrorCode::BackendUnavailable) && (used matches Err(error)
            && error.code == ErrorCode::BackendUnavailable),
{
    lemma_place_of(registry@, id, place);
}

/// A Run that is not there cannot be used.
pub proof fn law_an_absent_run_is_not_pinned(
    registry: RunRegistry,
    manager: RunManager,
    id: RunId,
    pinned: Result<bool, ProtocolError>,
    used: Result<(), ProtocolError>,
)
    requires
        registry@ == manager@.registry,
        forall|i: int|
            0 <= i < registry@.runs.len() ==> (#[trigger] registry@.runs[i]).facts.id != id,
        call_ensures(RunRegistry::pin, (&registry, id), pinned),
        call_ensures(RunManager::pin, (&manager, id), used),
    ensures
        pinned == Ok::<bool, ProtocolError>(false),
        used matches Err(error) && error.code == ErrorCode::RunNotFound,
{
}

/// A Run can be removed exactly where it is retained, has ended, is in nobody's
/// use and may be collected. The reason of a refusal is the first of these that
/// fails.
pub proof fn law_only_an_ended_unused_run_is_removed(
    registry: RunRegistry,
    id: RunId,
    r: Result<(), ProtocolError>,
    place: int,
)
    requires
        registry@.valid(),
        0 <= place < registry@.runs.len(),
        registry@.runs[place].facts.id == id,
        call_ensures(RunRegistry::validate_removable_entry, (&registry, id), r),
    ensures
        r is Ok <==> registry@.runs[place].residency == Residency::Retained
            && !registry@.runs[place].facts.running && !registry@.runs[place].facts.shared
            && registry@.runs[place].facts.ordinal is Some,
        r matches Err(error) ==> error.code == (if registry@.runs[place].residency
            == Residency::Retained && registry@.runs[place].facts.running {
            ErrorCode::InvalidRunState
        } else {
            ErrorCode::BackendUnavailable
        }),
{
    lemma_place_of(registry@, id, place);
}

/// Removing a Run takes exactly that Run away, and only where it can be removed
/// and its descriptors were given up; otherwise nothing changes.
pub proof fn law_removal_takes_exactly_its_run(
    registry: &mut RunRegistry,
    id: RunId,
    detached: Result<(), String>,
    r: Result<(), ProtocolError>,
    place: int,
)
    requires
        old(registry)@.valid(),
        0 <= place < old(registry)@.runs.len(),
        old(registry)@.runs[place].facts.id == id,
        call_ensures(RunRegistry::remove_memory, (registry, id, detached), r),
    ensures
        ({
            let entry = old(registry)@.runs[place];
            let removable = entry.residency == Residency::Retained && !entry.facts.running
                && !entry.facts.shared && entry.facts.ordinal is Some;
            &&& r is Ok <==> removable && detached is Ok
            &&& r is Ok ==> only_this_run_left(old(registry)@, final(registry)@, place)
            &&& r is Err ==> final(registry)@ == old(registry)@
            &&& r matches Err(error) ==> (removable ==> error.code == ErrorCode::Internal) && (
            !removable && entry.residency == Residency::Retained && entry.facts.running
                ==> error.code == ErrorCode::InvalidRunState)
        }),
{
    lemma_place_of(old(registry)@, id, place);
}

/// The removal of a durable Run fences it, and hands out its identity, its key
/// and its size; it is refused, without a change, where the Run cannot be
/// removed, has no key or no record, or its descriptors were not given up.
pub proof fn law_a_durable_removal_fences_its_run(
    registry: &mut RunRegistry,
    id: RunId,
    detached: Result<(), String>,
    r: Result<PersistentCollectionCandidate, ProtocolError>,
    place: int,
)
    requires
        old(registry)@.valid(),
        0 <= place < old(registry)@.runs.len(),
        old(registry)@.runs[place].facts.id == id,
        call_ensures(RunRegistry::begin_persistent_removal, (registry, id, detached), r),
    ensures
        ({
            let entry = old(registry)@.runs[place];
            &&& r is Ok <==> entry.residency == Residency::Retained && !entry.facts.running
                && !entry.facts.shared && entry.facts.ordinal is Some && entry.operation_key is Some
                && entry.metadata_bytes is Some && detached is Ok
            &&& r matches Ok(candidate) ==> candidate.id == id && Some(candidate.operation_key)
                == entry.operation_key && Some(candidate.metadata_bytes) == entry.metadata_bytes
                && only_this_run_changed(old(registry)@, final(registry)@, place)
                && final(registry)@.runs[place] == (RegistryEntry {
                residency: Residency::Removing,
                ..entry
            })
            &&& r is Err ==> final(registry)@ == old(registry)@
        }),
{
    lemma_place_of(old(registry)@, id, place);
}

/// A committed removal takes exactly its Run away; an aborted one makes it
/// available again as it was.
pub proof fn law_a_removal_is_committed_or_undone(
    committed: &mut RunRegistry,
    aborted: &mut RunRegistry,
    id: RunId,
    place: int,
)
    requires
        old(committed)@ == old(aborted)@,
        old(committed)@.valid(),
        0 <= place < old(committed)@.runs.len(),
        old(committed)@.runs[place].facts.id == id,
        call_ensures(RunRegistry::commit_removal, (committed, id), ()),
        call_ensures(RunRegistry::abort_removal, (aborted, id), ()),
    ensures
        only_this_run_left(old(committed)@, final(committed)@, place),
        only_this_run_changed(old(aborted)@, final(aborted)@, place),
        final(aborted)@.runs[place] == (RegistryEntry {
            residency: Residency::Retained,
            ..old(aborted)@.runs[place]
        }),
{
    lemma_place_of(old(committed)@, id, place);
}

/// New facts replace those of their Run, and nothing else; facts of a Run that
/// is not there change nothing.
pub proof fn law_new_facts_are_of_their_run(
    registry: &mut RunRegistry,
    facts: RunFacts,
    metadata_bytes: Option<u64>,
    known: bool,
)
    requires
        old(registry)@.valid(),
        call_ensures(RunRegistry::refresh, (registry, facts, metadata_bytes), known),
    ensures
        known <==> exists|i: int|
            0 <= i < old(registry)@.runs.len() && (#[trigger] old(registry)@.runs[i]).facts.id
                == facts.id,
        !known ==> final(registry)@ == old(registry)@,
        forall|place: int|
            0 <= place < old(registry)@.runs.len() && (#[trigger] old(
                registry,
            )@.runs[place]).facts.id == facts.id ==> only_this_run_changed(
                old(registry)@,
                final(registry)@,
                place,
            ) && final(registry)@.runs[place] == (RegistryEntry {
                facts,
                metadata_bytes,
                ..old(registry)@.runs[place]
            }),
{
    assert forall|place: int|
        0 <= place < old(registry)@.runs.len() && (#[trigger] old(registry)@.runs[place]).facts.id
            == facts.id implies only_this_run_changed(old(registry)@, final(registry)@, place)
        && final(registry)@.runs[place] == (RegistryEntry {
        facts,
        metadata_bytes,
        ..old(registry)@.runs[place]
    }) by {
        lemma_place_of(old(registry)@, facts.id, place);
    }
}

proof fn lemma_rank_is_of_a_listed_run(
    runs: Seq<RegistryEntry>,
    after: Option<RunId>,
    rank: Ranked,
)
    ensures
        ranks_after(runs, after).contains(rank) <==> rank.ordinal == 0 && exists|i: int|
            0 <= i < runs.len() && (#[trigger] runs[i]).facts.id.value == rank.id && (after is Some
                ==> runs[i].facts.id.value > after->0.value),
    decreases runs.len(),
{
    if runs.len() > 0 {
        let shorter = runs.drop_last();
        let rest = ranks_after(shorter, after);
        lemma_rank_is_of_a_listed_run(shorter, after, rank);
        let all = ranks_after(runs, after);
        if all.contains(rank) {
            let k = choose|k: int| 0 <= k < all.len() && all[k] == rank;
            if k < rest.len() {
                assert(rest[k] == rank);
                assert(rest.contains(rank));
                let i = choose|i: int|
                    0 <= i < shorter.len() && (#[trigger] shorter[i]).facts.id.value == rank.id && (
                    after is Some ==> shorter[i].facts.id.value > after->0.value);
                assert(runs[i].facts.id.value == rank.id);
            } else {
                assert(runs[runs.len() - 1].facts.id.value == rank.id);
            }
        }
        if rank.ordinal == 0 && exists|i: int|
            0 <= i < runs.len() && (#[trigger] runs[i]).facts.id.value == rank.id && (after is Some
                ==> runs[i].facts.id.value > after->0.value) {
            let i = choose|i: int|
                0 <= i < runs.len() && (#[trigger] runs[i]).facts.id.value == rank.id && (
                after is Some ==> runs[i].facts.id.value > after->0.value);
            if i < shorter.len() {
                assert(shorter[i].facts.id.value == rank.id);
                let k = choose|k: int| 0 <= k < rest.len() && rest[k] == rank;
                assert(all[k] == rank);
            } else {
                assert(all[all.len() - 1] == rank);
            }
        }
    }
}

proof fn lemma_listed_ranks_are_distinct(registry: RegistryView, after: Option<RunId>, count: int)
    requires
        registry.valid(),
        0 <= count <= registry.runs.len(),
    ensures
        ranks_after(registry.runs.take(count), after).no_duplicates(),
    decreases count,
{
    if count > 0 {
        let runs = registry.runs.take(count);
        let shorter = registry.runs.take(count - 1);
        assert(runs.drop_last() =~= shorter);
        lemma_listed_ranks_are_distinct(registry, after, count - 1);
        let last = Ranked { ordinal: 0, id: runs.last().facts.id.value };
        lemma_rank_is_of_a_listed_run(shorter, after, last);
        if ranks_after(shorter, after).contains(last) {
            let i = choose|i: int|
                0 <= i < shorter.len() && (#[trigger] shorter[i]).facts.id.value == last.id && (
                after is Some ==> shorter[i].facts.id.value > after->0.value);
            assert(registry.runs[i].facts.id == registry.runs[count - 1].facts.id);
        }
    }
}

/// A listing names the retained Runs behind its cursor by their identities in
/// ascending order, each once, as many as asked for. It says that there are
/// more exactly where it left some out, and those come behind all that it
/// names.
pub proof fn law_a_listing_names_the_next_runs(
    registry: RunRegistry,
    after: Option<RunId>,
    limit: usize,
    listed: Vec<RunId>,
    more: bool,
)
    requires
        registry@.valid(),
        call_ensures(RunRegistry::list_summaries_after, (&registry, after, limit), (listed, more)),
    ensures
        listed@.len() <= limit,
        more ==> listed@.len() == limit,
        forall|j: int, k: int|
            0 <= j < k < listed@.len() ==> (#[trigger] listed@[j]).value < (
            #[trigger] listed@[k]).value,
        forall|k: int|
            0 <= k < listed@.len() ==> (after matches Some(cursor) ==> (
            #[trigger] listed@[k]).value > cursor.value),
        forall|k: int|
            0 <= k < listed@.len() ==> exists|i: int|
                0 <= i < registry@.runs.len() && (#[trigger] registry@.runs[i]).facts.id
                    == #[trigger] listed@[k],
        forall|i: int|
            0 <= i < registry@.runs.len() && (after matches Some(cursor) ==> (
            #[trigger] registry@.runs[i]).facts.id.value > cursor.value) ==> listed@.contains(
                registry@.runs[i].facts.id,
            ) || (more && forall|k: int|
                0 <= k < listed@.len() ==> (#[trigger] listed@[k]).value
                    < registry@.runs[i].facts.id.value),
        more ==> exists|i: int|
            0 <= i < registry@.runs.len() && !listed@.contains(
                (#[trigger] registry@.runs[i]).facts.id,
            ) && (after matches Some(cursor) ==> registry@.runs[i].facts.id.value > cursor.value),
{
    broadcast use vstd::seq_lib::group_to_multiset_ensures;

    let runs = registry@.runs;
    let ranks = ranks_after(runs, after);
    assert(runs.take(runs.len() as int) =~= runs);
    lemma_listed_ranks_are_distinct(registry@, after, runs.len() as int);
    let ordered = choose|ordered: Seq<Ranked>| #[trigger]
        crate::order::ranks_sorted(ordered) && ordered.to_multiset() == ranks.to_multiset() && more
            == (ordered.len() > limit) && listed@.len() == (if ordered.len() > limit {
            limit as int
        } else {
            ordered.len() as int
        }) && forall|k: int|
            0 <= k < listed@.len() ==> (#[trigger] listed@[k]).value == ordered[k].id;
    ranks.lemma_multiset_has_no_duplicates();
    ordered.lemma_multiset_has_no_duplicates_conv();
    assert forall|k: int| 0 <= k < ordered.len() implies (#[trigger] ordered[k]).ordinal == 0
        && exists|i: int|
        0 <= i < runs.len() && (#[trigger] runs[i]).facts.id.value == ordered[k].id && (
        after is Some ==> runs[i].facts.id.value > after->0.value) by {
        assert(ordered.to_multiset().count(ordered[k]) > 0);
        assert(ranks.contains(ordered[k]));
        lemma_rank_is_of_a_listed_run(runs, after, ordered[k]);
    }
    assert forall|j: int, k: int| 0 <= j < k < ordered.len() implies (#[trigger] ordered[j]).id < (
    #[trigger] ordered[k]).id by {
        assert(ordered[j] != ordered[k]);
    }
    assert forall|k: int| 0 <= k < listed@.len() implies exists|i: int|
        0 <= i < runs.len() && (#[trigger] runs[i]).facts.id == #[trigger] listed@[k] by {
        assert(ordered[k].ordinal == 0);
        let i = choose|i: int|
            0 <= i < runs.len() && (#[trigger] runs[i]).facts.id.value == ordered[k].id && (
            after is Some ==> runs[i].facts.id.value > after->0.value);
        assert(runs[i].facts.id == listed@[k]);
    }
    assert forall|k: int| 0 <= k < listed@.len() implies (after matches Some(cursor) ==> (
    #[trigger] listed@[k]).value > cursor.value) by {
        assert(ordered[k].ordinal == 0);
    }
    assert forall|i: int|
        0 <= i < runs.len() && (after matches Some(cursor) ==> (#[trigger] runs[i]).facts.id.value
            > cursor.value) implies listed@.contains(runs[i].facts.id) || (more && forall|k: int|
        0 <= k < listed@.len() ==> (#[trigger] listed@[k]).value < runs[i].facts.id.value) by {
        let rank = Ranked { ordinal: 0, id: runs[i].facts.id.value };
        lemma_rank_is_of_a_listed_run(runs, after, rank);
        assert(ranks.to_multiset().count(rank) > 0);
        assert(ordered.contains(rank));
        let k = choose|k: int| 0 <= k < ordered.len() && ordered[k] == rank;
        if k < listed@.len() {
            assert(listed@[k] == runs[i].facts.id);
        }
    }
    if more {
        let last = ordered[limit as int];
        let i = choose|i: int|
            0 <= i < runs.len() && (#[trigger] runs[i]).facts.id.value == last.id && (after is Some
                ==> runs[i].facts.id.value > after->0.value);
        assert(!listed@.contains(runs[i].facts.id)) by {
            if listed@.contains(runs[i].facts.id) {
                let k = choose|k: int| 0 <= k < listed@.len() && listed@[k] == runs[i].facts.id;
                assert(ordered[k].id < ordered[limit as int].id);
            }
        }
    }
}

/// The failures of waits that are told are those of the retained Runs, each
/// under its Run.
pub proof fn law_every_wait_failure_is_told(
    registry: RunRegistry,
    failures: Vec<(RunId, String)>,
)
    requires
        call_ensures(RunRegistry::native_wait_failures, (&registry,), failures),
    ensures
        forall|i: int|
            0 <= i < registry@.runs.len() && (#[trigger] registry@.runs[i]).facts.wait_failure
                is Some ==> failures@.contains(
                (
                    registry@.runs[i].facts.id,
                    registry@.runs[i].facts.wait_failure->0,
                ),
            ),
        forall|k: int|
            0 <= k < failures@.len() ==> exists|i: int|
                0 <= i < registry@.runs.len() && (#[trigger] registry@.runs[i]).facts.id == (
                #[trigger] failures@[k]).0 && registry@.runs[i].facts.wait_failure == Some(
                    failures@[k].1,
                ),
{
    lemma_wait_failures_are_told(registry@.runs);
}

/// The wait failures of some Runs are those that the Runs have, and no others.
pub proof fn lemma_wait_failures_are_told(runs: Seq<RegistryEntry>)
    ensures
        ({
            let told = crate::daemon::ledger::wait_failures(runs);
            &&& forall|i: int|
                0 <= i < runs.len() && (#[trigger] runs[i]).facts.wait_failure is Some
                    ==> told.contains((runs[i].facts.id, runs[i].facts.wait_failure->0))
            &&& forall|k: int|
                0 <= k < told.len() ==> exists|i: int|
                    0 <= i < runs.len() && (#[trigger] runs[i]).facts.id == (#[trigger] told[k]).0
                        && runs[i].facts.wait_failure == Some(told[k].1)
        }),
    decreases runs.len(),
{
    if runs.len() > 0 {
        let shorter = runs.drop_last();
        let rest = crate::daemon::ledger::wait_failures(shorter);
        let told = crate::daemon::ledger::wait_failures(runs);
        lemma_wait_failures_are_told(shorter);
        assert forall|i: int|
            0 <= i < runs.len() && (#[trigger] runs[i]).facts.wait_failure
                is Some implies told.contains((runs[i].facts.id, runs[i].facts.wait_failure->0)) by {
            let pair = (runs[i].facts.id, runs[i].facts.wait_failure->0);
            if i < shorter.len() {
                assert(shorter[i].facts.wait_failure is Some);
                let k = choose|k: int| 0 <= k < rest.len() && rest[k] == pair;
                assert(told[k] == pair);
            } else {
                assert(told[told.len() - 1] == pair);
            }
        }
        assert forall|k: int| 0 <= k < told.len() implies exists|i: int|
            0 <= i < runs.len() && (#[trigger] runs[i]).facts.id == (#[trigger] told[k]).0
                && runs[i].facts.wait_failure == Some(told[k].1) by {
            if k < rest.len() {
                assert(rest[k] == told[k]);
                let i = choose|i: int|
                    0 <= i < shorter.len() && (#[trigger] shorter[i]).facts.id == rest[k].0
                        && shorter[i].facts.wait_failure == Some(rest[k].1);
                assert(runs[i].facts.id == told[k].0);
            } else {
                assert(runs[runs.len() - 1].facts.id == told[k].0);
            }
        }
    }
}

/// What is to be removed is named with its key and the size of its record,
/// exactly where it can be removed and has both.
pub proof fn law_a_removal_names_its_run(
    registry: RunRegistry,
    id: RunId,
    r: Result<PersistentCollectionCandidate, ProtocolError>,
    place: int,
)
    requires
        registry@.valid(),
        0 <= place < registry@.runs.len(),
        registry@.runs[place].facts.id == id,
        call_ensures(RunRegistry::removal_candidate, (&registry, id), r),
    ensures
        ({
            let entry = registry@.runs[place];
            &&& r is Ok <==> entry.residency == Residency::Retained && !entry.facts.running
                && !entry.facts.shared && entry.facts.ordinal is Some && entry.operation_key is Some
                && entry.metadata_bytes is Some
            &&& r matches Ok(candidate) ==> candidate.id == id && Some(candidate.operation_key)
                == entry.operation_key && Some(candidate.metadata_bytes) == entry.metadata_bytes
        }),
{
    lemma_place_of(registry@, id, place);
}

} // verus!
