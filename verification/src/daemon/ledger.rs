//! Stop operations, pins, removal and listing of retained Runs.

use vstd::prelude::*;

use crate::daemon::handoff::{stop_defect, HandoffStopOperation, HandoffStopOutcome};
use crate::daemon::registry::{
    bound_apart, has_run, lemma_place_of, lemma_same_ids_stay_distinct, place_of, stop_key_view,
    PersistentCollectionCandidate, RegistryEntry, RegistryView, Residency, RunFacts, RunRegistry,
    StopRecord,
};
use crate::identity::RunId;
use crate::order::{rank_not_after, ranks_sorted, sort_ranked, Ranked};
use crate::protocol::{
    control_failure_not_applied, copied_control_result, protocol_error, CommandDisposition,
    ControlFailure, ControlReceipt, ControlResult, ErrorCode, OperationKey, ProtocolError,
};
use crate::text::{joined, joined3, owned};

verus! {

/// `"Run <id><rest>"`.
pub open spec fn about_run(id: RunId, rest: Seq<char>) -> Seq<char> {
    "Run "@ + id.text() + rest
}

/// Write `"Run <id><rest>"`.
pub fn about_run_text(id: RunId, rest: &str) -> (r: String)
    ensures
        r@ == about_run(id, rest@),
{
    let name = id.to_text();
    joined3("Run ", name.as_str(), rest)
}

/// The failure about one Run.
pub fn run_error(code: ErrorCode, id: RunId, rest: &str) -> (r: ProtocolError)
    ensures
        r.says(code, about_run(id, rest@)),
{
    ProtocolError { code, message: about_run_text(id, rest) }
}

/// Whether a failure is one of a command that was not applied, with this
/// category and detail.
pub open spec fn not_applied(failure: ControlFailure, code: ErrorCode, message: Seq<char>) -> bool {
    failure.disposition == CommandDisposition::NotApplied && failure.error.says(code, message)
}

/// What a recoverable Stop gets.
#[derive(Debug, PartialEq, Eq)]
pub enum StopAdmission {
    /// The operation is known: its result, once there is one.
    Retry { settled: Option<ControlResult> },
    /// The operation is new: the Run may be stopped, then the operation bound.
    Begin,
}

/// Whether no retained Run belongs to the Stop operation with this key.
pub open spec fn stop_key_is_free(runs: Seq<RegistryEntry>, key: Seq<char>) -> bool {
    forall|i: int| 0 <= i < runs.len() ==> stop_key_view((#[trigger] runs[i]).stop) != Some(key)
}

/// Whether a new Stop operation may begin.
pub open spec fn may_begin_stop(registry: RegistryView, id: RunId, key: Seq<char>) -> bool {
    &&& stop_key_is_free(registry.runs, key)
    &&& has_run(registry.runs, id)
    &&& registry.runs[place_of(registry.runs, id)].residency == Residency::Retained
    &&& registry.runs[place_of(registry.runs, id)].stop is None
}

/// Whether `r` is the answer to a recoverable Stop.
pub open spec fn answers_stop(
    registry: RegistryView,
    id: RunId,
    key: OperationKey,
    r: Result<StopAdmission, ControlFailure>,
) -> bool {
    let bound = |place: int|
        if registry.runs[place].facts.id != id {
            r matches Err(f) && not_applied(
                f,
                ErrorCode::StopOperationConflict,
                "native Stop operation key is already bound to another Run"@,
            )
        } else if registry.runs[place].residency != Residency::Retained {
            r matches Err(f) && not_applied(
                f,
                ErrorCode::BackendUnavailable,
                about_run(id, " is being collected"@),
            )
        } else {
            r matches Ok(StopAdmission::Retry { settled }) && settled
                == registry.runs[place].stop->0.settled
        };
    if key.defect is Some {
        r matches Err(f) && not_applied(f, ErrorCode::InvalidRequest, key.defect->0@)
    } else if !stop_key_is_free(registry.runs, key@) {
        exists|place: int|
            0 <= place < registry.runs.len() && stop_key_view(
                (#[trigger] registry.runs[place]).stop,
            ) == Some(key@) && bound(place)
    } else if !has_run(registry.runs, id) {
        r matches Err(f) && not_applied(
            f,
            ErrorCode::RunNotFound,
            about_run(id, " does not exist"@),
        )
    } else if registry.runs[place_of(registry.runs, id)].residency != Residency::Retained {
        r matches Err(f) && not_applied(
            f,
            ErrorCode::BackendUnavailable,
            about_run(id, " is being collected"@),
        )
    } else if registry.runs[place_of(registry.runs, id)].stop is Some {
        r matches Err(f) && not_applied(
            f,
            ErrorCode::StopOperationConflict,
            "Run already belongs to another native Stop operation"@,
        )
    } else {
        r matches Ok(StopAdmission::Begin)
    }
}

/// Runs with another Stop record at one place.
pub open spec fn with_stop(runs: Seq<RegistryEntry>, place: int, stop: Option<StopRecord>) -> Seq<
    RegistryEntry,
> {
    runs.update(place, RegistryEntry { stop, ..runs[place] })
}

/// Runs with another residency at one place.
pub open spec fn with_residency(runs: Seq<RegistryEntry>, place: int, residency: Residency) -> Seq<
    RegistryEntry,
> {
    runs.update(place, RegistryEntry { residency, ..runs[place] })
}

/// Whether a residency belongs to no reservation.
pub open spec fn is_unreserved(residency: Residency) -> bool {
    !(residency is Collecting)
}

proof fn lemma_update_keeps_valid(
    before: RegistryView,
    place: int,
    entry: RegistryEntry,
)
    requires
        before.valid(),
        0 <= place < before.runs.len(),
        entry.facts.id == before.runs[place].facts.id,
        entry.operation_key == before.runs[place].operation_key,
        entry.stop matches Some(record) ==> forall|i: int|
            0 <= i < before.runs.len() && i != place ==> stop_key_view(
                (#[trigger] before.runs[i]).stop,
            ) != Some(record.key@),
        is_unreserved(entry.residency) && is_unreserved(before.runs[place].residency)
            || entry.residency == before.runs[place].residency,
    ensures
        (RegistryView { runs: before.runs.update(place, entry), ..before }).valid(),
{
    let after = RegistryView { runs: before.runs.update(place, entry), ..before };
    assert forall|i: int, j: int| 0 <= i < j < after.runs.len() implies bound_apart(
        #[trigger] after.runs[i],
        #[trigger] after.runs[j],
    ) by {
        assert(before.runs[i].facts.id != before.runs[j].facts.id);
    }
    assert forall|i: int, k: int|
        0 <= i < after.reservations.len() && 0 <= k < after.reservations[i].candidates@.len()
        implies after.is_fenced_for(
        #[trigger] after.reservations[i].candidates@[k],
        after.reservations[i].ticket,
    ) by {
        let id = before.reservations[i].candidates@[k];
        assert(before.is_fenced_for(id, before.reservations[i].ticket));
        let p = choose|p: int|
            0 <= p < before.runs.len() && (#[trigger] before.runs[p]).facts.id == id
                && before.runs[p].residency == Residency::Collecting(before.reservations[i].ticket);
        assert(after.runs[p].facts.id == id);
    }
    assert forall|i: int| 0 <= i < after.runs.len() implies ((#[trigger] after.runs[i]).residency
        matches Residency::Collecting(t) ==> after.is_candidate(after.runs[i].facts.id, t)) by {
        if let Residency::Collecting(t) = after.runs[i].residency {
            assert(before.runs[i].residency == Residency::Collecting(t));
            assert(before.is_candidate(before.runs[i].facts.id, t));
        }
    }
}

/// A Stop key belongs to one Run.
proof fn lemma_stop_key_is_alone(registry: RegistryView, place: int, key: Seq<char>)
    requires
        registry.valid(),
        0 <= place < registry.runs.len(),
        stop_key_view(registry.runs[place].stop) == Some(key),
    ensures
        forall|i: int|
            0 <= i < registry.runs.len() && i != place ==> stop_key_view(
                (#[trigger] registry.runs[i]).stop,
            ) != Some(key),
{
    assert forall|i: int| 0 <= i < registry.runs.len() && i != place implies stop_key_view(
        (#[trigger] registry.runs[i]).stop,
    ) != Some(key) by {
        if i < place {
            assert(bound_apart(registry.runs[i], registry.runs[place]));
        } else {
            assert(bound_apart(registry.runs[place], registry.runs[i]));
        }
    }
}

proof fn lemma_remove_keeps_valid(before: RegistryView, place: int)
    requires
        before.valid(),
        0 <= place < before.runs.len(),
        is_unreserved(before.runs[place].residency),
    ensures
        (RegistryView { runs: before.runs.remove(place), ..before }).valid(),
{
    let after = RegistryView { runs: before.runs.remove(place), ..before };
    assert forall|i: int, j: int| 0 <= i < j < after.runs.len() implies bound_apart(
        #[trigger] after.runs[i],
        #[trigger] after.runs[j],
    ) by {
        let a = if i < place {
            i
        } else {
            i + 1
        };
        let b = if j < place {
            j
        } else {
            j + 1
        };
        assert(after.runs[i] == before.runs[a]);
        assert(after.runs[j] == before.runs[b]);
        assert(before.runs[a].facts.id != before.runs[b].facts.id);
    }
    assert forall|i: int, k: int|
        0 <= i < after.reservations.len() && 0 <= k < after.reservations[i].candidates@.len()
        implies after.is_fenced_for(
        #[trigger] after.reservations[i].candidates@[k],
        after.reservations[i].ticket,
    ) by {
        let id = before.reservations[i].candidates@[k];
        assert(before.is_fenced_for(id, before.reservations[i].ticket));
        let p = choose|p: int|
            0 <= p < before.runs.len() && (#[trigger] before.runs[p]).facts.id == id
                && before.runs[p].residency == Residency::Collecting(before.reservations[i].ticket);
        let q = if p < place {
            p
        } else {
            p - 1
        };
        assert(after.runs[q] == before.runs[p]);
    }
    assert forall|i: int| 0 <= i < after.runs.len() implies ((#[trigger] after.runs[i]).residency
        matches Residency::Collecting(t) ==> after.is_candidate(after.runs[i].facts.id, t)) by {
        let a = if i < place {
            i
        } else {
            i + 1
        };
        assert(after.runs[i] == before.runs[a]);
        if let Residency::Collecting(t) = after.runs[i].residency {
            assert(before.is_candidate(before.runs[a].facts.id, t));
        }
    }
}

/// Whether a Run may leave on request: it has ended, nobody uses it, and its
/// backend is quiescent.
pub open spec fn removable(entry: RegistryEntry) -> bool {
    &&& entry.residency == Residency::Retained
    &&& !entry.facts.running
    &&& !entry.facts.shared
    &&& entry.facts.ordinal is Some
}

/// Whether `e` says why a Run may not leave.
pub open spec fn refuses_removal(registry: RegistryView, id: RunId, e: ProtocolError) -> bool {
    if !has_run(registry.runs, id) {
        e.says(ErrorCode::RunNotFound, about_run(id, " does not exist"@))
    } else {
        let entry = registry.runs[place_of(registry.runs, id)];
        if entry.residency != Residency::Retained {
            e.says(
                ErrorCode::BackendUnavailable,
                about_run(id, " is already being replaced or removed"@),
            )
        } else if entry.facts.running {
            e.says(
                ErrorCode::InvalidRunState,
                about_run(id, " is still running; stop it before removing"@),
            )
        } else if entry.facts.shared {
            e.says(
                ErrorCode::BackendUnavailable,
                about_run(id, " is attached or in use and cannot be removed"@),
            )
        } else {
            e.says(
                ErrorCode::BackendUnavailable,
                about_run(id, " has not reached collectable quiescence"@),
            )
        }
    }
}

/// Whether a retained Run may leave on request.
pub open spec fn is_removable(registry: RegistryView, id: RunId) -> bool {
    has_run(registry.runs, id) && removable(registry.runs[place_of(registry.runs, id)])
}

/// The settled Stop of a Run as it crosses an exec, or why it cannot.
pub open spec fn exported_stop(entry: RegistryEntry) -> Result<HandoffStopOperation, Seq<char>> {
    let id = entry.facts.id;
    let record = entry.stop->0;
    let outcome = if entry.residency != Residency::Retained {
        Err(about_run(id, " native Stop operation is crossing collection at handoff"@))
    } else {
        match record.settled {
            None => Err(about_run(id, " has a pending recoverable Stop at handoff"@)),
            Some(Ok(ControlReceipt::Stop { disposition })) => Ok(
                HandoffStopOutcome::Accepted { disposition },
            ),
            Some(Ok(_)) => Err(
                about_run(id, " native Stop ledger retained another receipt kind"@),
            ),
            Some(Err(failure)) => if failure.disposition == CommandDisposition::Unknown {
                Ok(HandoffStopOutcome::Unknown { failure })
            } else {
                Err(about_run(id, " native Stop ledger retained a not-applied result"@))
            },
        }
    };
    match outcome {
        Err(message) => Err(message),
        Ok(outcome) => {
            let operation = HandoffStopOperation { run_id: id, operation_key: record.key, outcome };
            match stop_defect(operation) {
                Some(message) => Err(message),
                None => Ok(operation),
            }
        },
    }
}

fn export_stop(entry: &RegistryEntry, record: &StopRecord) -> (r: Result<
    HandoffStopOperation,
    String,
>)
    requires
        entry.stop == Some(*record),
    ensures
        match exported_stop(*entry) {
            Ok(operation) => r == Ok::<HandoffStopOperation, String>(operation),
            Err(message) => r matches Err(text) && text@ == message,
        },
{
    let id = entry.facts.id;
    if entry.residency != Residency::Retained {
        return Err(
            about_run_text(id, " native Stop operation is crossing collection at handoff"),
        );
    }
    let outcome = match &record.settled {
        None => {
            return Err(about_run_text(id, " has a pending recoverable Stop at handoff"));
        },
        Some(Ok(ControlReceipt::Stop { disposition })) => HandoffStopOutcome::Accepted {
            disposition: *disposition,
        },
        Some(Ok(_)) => {
            return Err(about_run_text(id, " native Stop ledger retained another receipt kind"));
        },
        Some(Err(failure)) => {
            if failure.disposition != CommandDisposition::Unknown {
                return Err(
                    about_run_text(id, " native Stop ledger retained a not-applied result"),
                );
            }
            HandoffStopOutcome::Unknown { failure: failure.copied() }
        },
    };
    let operation = HandoffStopOperation {
        run_id: id,
        operation_key: record.key.copied(),
        outcome,
    };
    match operation.validate() {
        Ok(()) => Ok(operation),
        Err(message) => Err(message),
    }
}

/// Why the handed-off Stop at `place` cannot be restored, where it cannot.
pub open spec fn restore_defect(
    registry: RegistryView,
    operations: Seq<HandoffStopOperation>,
    place: int,
) -> Option<Seq<char>> {
    let operation = operations[place];
    match stop_defect(operation) {
        Some(message) => Some(message),
        None => if exists|k: int|
            0 <= k < place && (#[trigger] operations[k]).run_id == operation.run_id {
            Some("handoff native Stop ledger contains a duplicate Run"@)
        } else if exists|k: int|
            0 <= k < place && (#[trigger] operations[k]).operation_key@
                == operation.operation_key@ {
            Some("handoff native Stop ledger contains a duplicate key"@)
        } else if !has_run(registry.runs, operation.run_id) {
            Some("handoff native Stop ledger names an unknown retained Run"@)
        } else if registry.runs[place_of(registry.runs, operation.run_id)].stop is Some {
            Some("handoff native Stop ledger duplicates a restored operation"@)
        } else {
            None
        },
    }
}

/// Why one of the first `count` handed-off Stops cannot be restored.
pub open spec fn restores_defect(
    registry: RegistryView,
    operations: Seq<HandoffStopOperation>,
    count: int,
) -> Option<Seq<char>>
    decreases count,
{
    if count <= 0 {
        None
    } else {
        match restores_defect(registry, operations, count - 1) {
            Some(message) => Some(message),
            None => restore_defect(registry, operations, count - 1),
        }
    }
}

proof fn lemma_restores_defect_stays(
    registry: RegistryView,
    operations: Seq<HandoffStopOperation>,
    count: int,
    more: int,
)
    requires
        0 <= count <= more,
        restores_defect(registry, operations, count) is Some,
    ensures
        restores_defect(registry, operations, more) == restores_defect(
            registry,
            operations,
            count,
        ),
    decreases more - count,
{
    if count < more {
        lemma_restores_defect_stays(registry, operations, count, more - 1);
    }
}

/// Where all Stops can be restored, each can.
pub proof fn lemma_no_restore_defect_at(
    registry: RegistryView,
    operations: Seq<HandoffStopOperation>,
    count: int,
    place: int,
)
    requires
        0 <= place < count,
        restores_defect(registry, operations, count) is None,
    ensures
        restore_defect(registry, operations, place) is None,
    decreases count,
{
    if place < count - 1 {
        lemma_no_restore_defect_at(registry, operations, count - 1, place);
    }
}

/// Whether a Run may leave together with its durable record.
pub open spec fn leaves_with_record(registry: RegistryView, id: RunId) -> bool {
    let entry = registry.runs[place_of(registry.runs, id)];
    is_removable(registry, id) && entry.operation_key is Some && entry.metadata_bytes is Some
}

/// Whether `r` is the durable record that leaves with a Run, or why it cannot
/// leave.
pub open spec fn names_candidate(
    registry: RegistryView,
    id: RunId,
    r: Result<PersistentCollectionCandidate, ProtocolError>,
) -> bool {
    let entry = registry.runs[place_of(registry.runs, id)];
    if !is_removable(registry, id) {
        r matches Err(e) && refuses_removal(registry, id, e)
    } else if entry.operation_key is None {
        r matches Err(e) && e.says(
            ErrorCode::Internal,
            "persistent "@ + about_run(id, " has no exact creation key to remove"@),
        )
    } else if entry.metadata_bytes is None {
        r matches Err(e) && e.says(
            ErrorCode::Internal,
            "persistent "@ + about_run(id, " has no durable metadata accounting"@),
        )
    } else {
        r == Ok::<PersistentCollectionCandidate, ProtocolError>(
            PersistentCollectionCandidate {
                id,
                operation_key: entry.operation_key->0,
                metadata_bytes: entry.metadata_bytes->0,
            },
        )
    }
}

/// The Stop record that a handed-off Stop becomes.
pub open spec fn restored_record(operation: HandoffStopOperation) -> StopRecord {
    StopRecord {
        key: operation.operation_key,
        settled: Some(
            match operation.outcome {
                HandoffStopOutcome::Accepted { disposition } => Ok(
                    ControlReceipt::Stop { disposition },
                ),
                HandoffStopOutcome::Unknown { failure } => Err(failure),
            },
        ),
    }
}

/// Runs after the first `count` handed-off Stops were restored.
pub open spec fn with_restored_stops(
    runs: Seq<RegistryEntry>,
    operations: Seq<HandoffStopOperation>,
    count: int,
) -> Seq<RegistryEntry>
    decreases count,
{
    if count <= 0 {
        runs
    } else {
        let before = with_restored_stops(runs, operations, count - 1);
        let operation = operations[count - 1];
        with_stop(before, place_of(runs, operation.run_id), Some(restored_record(operation)))
    }
}

/// Identities of Runs that a listing after a cursor has to consider.
pub open spec fn listed_after(after: Option<RunId>, id: RunId) -> bool {
    after matches Some(cursor) ==> id.value > cursor.value
}

/// The places of the Runs after a cursor, in no order.
pub open spec fn ranks_after(runs: Seq<RegistryEntry>, after: Option<RunId>) -> Seq<Ranked>
    decreases runs.len(),
{
    if runs.len() == 0 {
        seq![]
    } else {
        let rest = ranks_after(runs.drop_last(), after);
        if listed_after(after, runs.last().facts.id) {
            rest.push(Ranked { ordinal: 0, id: runs.last().facts.id.value })
        } else {
            rest
        }
    }
}

/// The Runs for whose children nobody waits any more, with the reasons.
pub open spec fn wait_failures(runs: Seq<RegistryEntry>) -> Seq<(RunId, String)>
    decreases runs.len(),
{
    if runs.len() == 0 {
        seq![]
    } else {
        let rest = wait_failures(runs.drop_last());
        match runs.last().facts.wait_failure {
            Some(failure) => rest.push((runs.last().facts.id, failure)),
            None => rest,
        }
    }
}

/// The places of the Runs with a Stop record, in no order.
pub open spec fn ranks_with_stop(runs: Seq<RegistryEntry>) -> Seq<Ranked>
    decreases runs.len(),
{
    if runs.len() == 0 {
        seq![]
    } else {
        let rest = ranks_with_stop(runs.drop_last());
        if runs.last().stop is Some {
            rest.push(Ranked { ordinal: 0, id: runs.last().facts.id.value })
        } else {
            rest
        }
    }
}

proof fn lemma_ranks_with_stop(runs: Seq<RegistryEntry>, rank: Ranked)
    ensures
        ranks_with_stop(runs).contains(rank) <==> rank.ordinal == 0 && exists|i: int|
            0 <= i < runs.len() && (#[trigger] runs[i]).stop is Some && runs[i].facts.id.value
                == rank.id,
    decreases runs.len(),
{
    if runs.len() > 0 {
        let shorter = runs.drop_last();
        let rest = ranks_with_stop(shorter);
        let all = ranks_with_stop(runs);
        lemma_ranks_with_stop(shorter, rank);
        if all.contains(rank) {
            let k = choose|k: int| 0 <= k < all.len() && all[k] == rank;
            if k < rest.len() {
                assert(rest[k] == rank);
                let i = choose|i: int|
                    0 <= i < shorter.len() && (#[trigger] shorter[i]).stop is Some
                        && shorter[i].facts.id.value == rank.id;
                assert(runs[i] == shorter[i]);
            } else {
                assert(runs[runs.len() - 1].stop is Some);
            }
        }
        if rank.ordinal == 0 && exists|i: int|
            0 <= i < runs.len() && (#[trigger] runs[i]).stop is Some && runs[i].facts.id.value
                == rank.id {
            let i = choose|i: int|
                0 <= i < runs.len() && (#[trigger] runs[i]).stop is Some && runs[i].facts.id.value
                    == rank.id;
            if i < shorter.len() {
                assert(shorter[i] == runs[i]);
                assert(rest.contains(rank));
                let k = choose|k: int| 0 <= k < rest.len() && rest[k] == rank;
                assert(all[k] == rank);
            } else {
                assert(all[all.len() - 1] == rank);
            }
        }
    }
}

proof fn lemma_ranks_with_stop_are_distinct(registry: RegistryView, count: int)
    requires
        registry.valid(),
        0 <= count <= registry.runs.len(),
    ensures
        ({
            let ranks = ranks_with_stop(registry.runs.take(count));
            forall|i: int, j: int|
                0 <= i < j < ranks.len() ==> (#[trigger] ranks[i]).id != (#[trigger] ranks[j]).id
        }),
    decreases count,
{
    let runs = registry.runs.take(count);
    if count > 0 {
        let shorter = registry.runs.take(count - 1);
        assert(runs.drop_last() =~= shorter);
        lemma_ranks_with_stop_are_distinct(registry, count - 1);
        let rest = ranks_with_stop(shorter);
        let all = ranks_with_stop(runs);
        assert forall|i: int, j: int| 0 <= i < j < all.len() implies (#[trigger] all[i]).id != (
        #[trigger] all[j]).id by {
            if j == rest.len() {
                assert(rest.contains(all[i]));
                lemma_ranks_with_stop(shorter, all[i]);
                let k = choose|k: int|
                    0 <= k < shorter.len() && (#[trigger] shorter[k]).stop is Some
                        && shorter[k].facts.id.value == all[i].id;
                assert(registry.runs[k].facts.id != registry.runs[count - 1].facts.id);
            }
        }
    }
}

impl RunRegistry {
    fn stop_position(&self, key: &OperationKey) -> (r: Option<usize>)
        ensures
            match r {
                Some(place) => place < self@.runs.len() && stop_key_view(
                    self@.runs[place as int].stop,
                ) == Some(key@),
                None => stop_key_is_free(self@.runs, key@),
            },
    {
        let mut i: usize = 0;
        while i < self.runs.len()
            invariant
                i <= self.runs@.len(),
                forall|k: int|
                    0 <= k < i ==> stop_key_view((#[trigger] self.runs@[k]).stop) != Some(key@),
            decreases self.runs@.len() - i,
        {
            if let Some(record) = &self.runs[i].stop {
                if record.key.same(key) {
                    return Some(i);
                }
            }
            i = i + 1;
        }
        None
    }

    /// Answer a recoverable Stop: the same key on the same Run is a retry of
    /// one operation; a key and a Run belong to one operation each.
    pub fn begin_recoverable_stop(&self, id: RunId, key: &OperationKey) -> (r: Result<
        StopAdmission,
        ControlFailure,
    >)
        requires
            self@.valid(),
        ensures
            answers_stop(self@, id, *key, r),
            r matches Ok(StopAdmission::Begin) ==> may_begin_stop(self@, id, key@),
    {
        if let Some(defect) = &key.defect {
            return Err(
                control_failure_not_applied(
                    ProtocolError::new(ErrorCode::InvalidRequest, defect.clone()),
                ),
            );
        }
        if let Some(place) = self.stop_position(key) {
            let entry = &self.runs[place];
            assert(stop_key_view(self@.runs[place as int].stop) == Some(key@));
            if entry.facts.id != id {
                return Err(
                    control_failure_not_applied(
                        protocol_error(
                            ErrorCode::StopOperationConflict,
                            "native Stop operation key is already bound to another Run",
                        ),
                    ),
                );
            }
            if entry.residency != Residency::Retained {
                return Err(
                    control_failure_not_applied(
                        run_error(ErrorCode::BackendUnavailable, id, " is being collected"),
                    ),
                );
            }
            let settled = match &entry.stop {
                Some(record) => match &record.settled {
                    Some(result) => Some(copied_control_result(result)),
                    None => None,
                },
                None => None,
            };
            return Ok(StopAdmission::Retry { settled });
        }
        match self.position(id) {
            None => Err(
                control_failure_not_applied(
                    run_error(ErrorCode::RunNotFound, id, " does not exist"),
                ),
            ),
            Some(place) => {
                let entry = &self.runs[place];
                if entry.residency != Residency::Retained {
                    return Err(
                        control_failure_not_applied(
                            run_error(ErrorCode::BackendUnavailable, id, " is being collected"),
                        ),
                    );
                }
                if entry.stop.is_some() {
                    return Err(
                        control_failure_not_applied(
                            protocol_error(
                                ErrorCode::StopOperationConflict,
                                "Run already belongs to another native Stop operation",
                            ),
                        ),
                    );
                }
                Ok(StopAdmission::Begin)
            },
        }
    }

    /// Bind a new Stop operation to its Run once the Run began to stop. If it
    /// did not, nothing is bound.
    pub fn bind_recoverable_stop(
        &mut self,
        id: RunId,
        key: OperationKey,
        begun: Result<(), ControlFailure>,
    ) -> (r: Result<(), ControlFailure>)
        requires
            old(self)@.valid(),
            may_begin_stop(old(self)@, id, key@),
        ensures
            final(self)@.valid(),
            match begun {
                Err(failure) => r == Err::<(), ControlFailure>(failure) && final(self)@
                    == old(self)@,
                Ok(_) => r is Ok && final(self)@ == (RegistryView {
                    runs: with_stop(
                        old(self)@.runs,
                        place_of(old(self)@.runs, id),
                        Some(StopRecord { key, settled: None }),
                    ),
                    ..old(self)@
                }),
            },
    {
        if let Err(failure) = begun {
            return Err(failure);
        }
        let ghost before = self@;
        if let Some(place) = self.position(id) {
            let ghost record = StopRecord { key, settled: None };
            proof {
                lemma_update_keeps_valid(
                    before,
                    place as int,
                    RegistryEntry { stop: Some(record), ..before.runs[place as int] },
                );
            }
            self.runs[place].stop = Some(StopRecord { key, settled: None });
            assert(self@.runs =~= with_stop(before.runs, place as int, Some(record)));
        }
        Ok(())
    }

    /// Settle a bound Stop operation. One that was not applied frees its Run
    /// and its key; any other result stays for retries.
    pub fn settle_recoverable_stop(&mut self, id: RunId, result: ControlResult)
        requires
            old(self)@.valid(),
            has_run(old(self)@.runs, id),
            old(self)@.runs[place_of(old(self)@.runs, id)].stop matches Some(record)
                && record.settled is None,
        ensures
            final(self)@.valid(),
            ({
                let place = place_of(old(self)@.runs, id);
                let record = old(self)@.runs[place].stop->0;
                let settled = if result matches Err(failure) && failure.disposition
                    == CommandDisposition::NotApplied {
                    None
                } else {
                    Some(StopRecord { settled: Some(result), ..record })
                };
                final(self)@ == (RegistryView {
                    runs: with_stop(old(self)@.runs, place, settled),
                    ..old(self)@
                })
            }),
    {
        let ghost before = self@;
        let remove = match &result {
            Err(failure) => matches!(failure.disposition, CommandDisposition::NotApplied),
            Ok(_) => false,
        };
        if let Some(place) = self.position(id) {
            let ghost entry = before.runs[place as int];
            if remove {
                proof {
                    lemma_update_keeps_valid(
                        before,
                        place as int,
                        RegistryEntry { stop: None, ..entry },
                    );
                }
                self.runs[place].stop = None;
                assert(self@.runs =~= with_stop(before.runs, place as int, None));
            } else {
                let ghost record = StopRecord { settled: Some(result), ..entry.stop->0 };
                proof {
                    lemma_stop_key_is_alone(before, place as int, record.key@);
                    lemma_update_keeps_valid(
                        before,
                        place as int,
                        RegistryEntry { stop: Some(record), ..entry },
                    );
                }
                if let Some(key) = self.stop_key_at(place) {
                    self.runs[place].stop = Some(StopRecord { key, settled: Some(result) });
                    assert(self@.runs =~= with_stop(before.runs, place as int, Some(record)));
                }
            }
        }
    }

    fn stop_key_at(&self, place: usize) -> (r: Option<OperationKey>)
        requires
            place < self@.runs.len(),
        ensures
            r == (match self@.runs[place as int].stop {
                Some(record) => Some(record.key),
                None => None,
            }),
    {
        match &self.runs[place].stop {
            Some(record) => Some(record.key.copied()),
            None => None,
        }
    }

    /// The settled Stops that cross an exec, in the order of their Runs. A Stop
    /// that is not settled, or a Run that is fenced, keeps the exec from
    /// happening.
    pub fn handoff_stop_operations(&self) -> (r: Result<Vec<HandoffStopOperation>, String>)
        requires
            self@.valid(),
        ensures
            match r {
                Err(message) => exists|i: int|
                    0 <= i < self@.runs.len() && (#[trigger] self@.runs[i]).stop is Some
                        && exported_stop(self@.runs[i]) == Err::<HandoffStopOperation, Seq<char>>(
                        message@,
                    ),
                Ok(operations) => {
                    &&& forall|i: int|
                        0 <= i < self@.runs.len() && (#[trigger] self@.runs[i]).stop is Some
                            ==> exported_stop(self@.runs[i]) is Ok && operations@.contains(
                            exported_stop(self@.runs[i])->Ok_0,
                        )
                    &&& forall|k: int|
                        0 <= k < operations@.len() ==> has_run(
                            self@.runs,
                            (#[trigger] operations@[k]).run_id,
                        ) && self@.runs[place_of(self@.runs, operations@[k].run_id)].stop is Some
                            && exported_stop(
                            self@.runs[place_of(self@.runs, operations@[k].run_id)],
                        ) == Ok::<HandoffStopOperation, Seq<char>>(operations@[k])
                    &&& forall|j: int, k: int|
                        0 <= j < k < operations@.len() ==> (#[trigger] operations@[j]).run_id.value
                            < (#[trigger] operations@[k]).run_id.value
                },
            },
    {
        broadcast use vstd::seq_lib::group_to_multiset_ensures;

        let ghost runs = self@.runs;
        let mut ranks: Vec<Ranked> = Vec::new();
        let mut i: usize = 0;
        assert(runs.take(0) =~= seq![]);
        while i < self.runs.len()
            invariant
                runs == self@.runs,
                i <= runs.len(),
                ranks@ == ranks_with_stop(runs.take(i as int)),
            decreases runs.len() - i,
        {
            assert(runs.take(i + 1).drop_last() =~= runs.take(i as int));
            if self.runs[i].stop.is_some() {
                ranks.push(Ranked { ordinal: 0, id: self.runs[i].facts.id.value });
            }
            i = i + 1;
        }
        assert(runs.take(i as int) =~= runs);
        let ordered = sort_ranked(ranks);
        let ghost all = ordered@;
        assert forall|k: int| 0 <= k < all.len() implies all[k].ordinal == 0 && exists|i: int|
            0 <= i < runs.len() && (#[trigger] runs[i]).stop is Some && runs[i].facts.id.value
                == (#[trigger] all[k]).id by {
            assert(all.to_multiset().count(all[k]) > 0);
            assert(ranks_with_stop(runs).contains(all[k]));
            lemma_ranks_with_stop(runs, all[k]);
        }
        let mut operations: Vec<HandoffStopOperation> = Vec::new();
        let mut k: usize = 0;
        while k < ordered.len()
            invariant
                self@.valid(),
                runs == self@.runs,
                all == ordered@,
                ranks_sorted(all),
                forall|k: int|
                    0 <= k < all.len() ==> all[k].ordinal == 0 && exists|i: int|
                        0 <= i < runs.len() && (#[trigger] runs[i]).stop is Some
                            && runs[i].facts.id.value == (#[trigger] all[k]).id,
                k <= all.len(),
                operations@.len() == k,
                forall|j: int|
                    0 <= j < k ==> (#[trigger] operations@[j]).run_id.value == all[j].id && has_run(
                        runs,
                        operations@[j].run_id,
                    ) && runs[place_of(runs, operations@[j].run_id)].stop is Some && exported_stop(
                        runs[place_of(runs, operations@[j].run_id)],
                    ) == Ok::<HandoffStopOperation, Seq<char>>(operations@[j]),
            decreases all.len() - k,
        {
            let id = RunId { value: ordered[k].id };
            let ghost source = choose|i: int|
                0 <= i < runs.len() && (#[trigger] runs[i]).stop is Some && runs[i].facts.id.value
                    == all[k as int].id;
            proof {
                assert(all[k as int].id == id.value);
                assert(runs[source].facts.id == id);
                lemma_place_of(self@, id, source);
            }
            if let Some(place) = self.position(id) {
                if let Some(record) = &self.runs[place].stop {
                    match export_stop(&self.runs[place], record) {
                        Ok(operation) => {
                            operations.push(operation);
                        },
                        Err(message) => {
                            return Err(message);
                        },
                    }
                }
            }
            k = k + 1;
        }
        proof {
            assert forall|i: int| 0 <= i < runs.len() && (#[trigger] runs[i]).stop is Some implies
                exported_stop(runs[i]) is Ok && operations@.contains(
                exported_stop(runs[i])->Ok_0,
            ) by {
                let rank = Ranked { ordinal: 0, id: runs[i].facts.id.value };
                lemma_ranks_with_stop(runs, rank);
                assert(ranks_with_stop(runs).to_multiset().count(rank) > 0);
                assert(all.to_multiset().count(rank) > 0);
                assert(all.contains(rank));
                let j = choose|j: int| 0 <= j < all.len() && all[j] == rank;
                assert(operations@[j].run_id.value == all[j].id);
                assert(operations@[j].run_id == runs[i].facts.id);
                lemma_place_of(self@, runs[i].facts.id, i);
            }
            assert(runs.take(runs.len() as int) =~= runs);
            lemma_ranks_with_stop_are_distinct(self@, runs.len() as int);
            assert forall|j: int, k: int| 0 <= j < k < operations@.len() implies (
            #[trigger] operations@[j]).run_id.value < (#[trigger] operations@[k]).run_id.value by {
                assert(rank_not_after(all[j], all[k]));
                lemma_same_ids_stay_distinct(all, ranks_with_stop(runs), j, k);
            }
        }
        Ok(operations)
    }

    fn restore_problem(&self, operations: &Vec<HandoffStopOperation>, place: usize) -> (r: Option<
        String,
    >)
        requires
            self@.valid(),
            place < operations@.len(),
        ensures
            match restore_defect(self@, operations@, place as int) {
                Some(defect) => r matches Some(message) && message@ == defect,
                None => r is None,
            },
    {
        let operation = &operations[place];
        if let Err(message) = operation.validate() {
            return Some(message);
        }
        let mut k: usize = 0;
        while k < place
            invariant
                k <= place < operations@.len(),
                *operation == operations@[place as int],
                stop_defect(*operation) is None,
                forall|j: int|
                    0 <= j < k ==> (#[trigger] operations@[j]).run_id != operation.run_id,
            decreases place - k,
        {
            if operations[k].run_id == operation.run_id {
                assert(operations@[k as int].run_id == operation.run_id);
                return Some(owned("handoff native Stop ledger contains a duplicate Run"));
            }
            k = k + 1;
        }
        let mut k: usize = 0;
        while k < place
            invariant
                k <= place < operations@.len(),
                *operation == operations@[place as int],
                stop_defect(*operation) is None,
                forall|j: int|
                    0 <= j < place ==> (#[trigger] operations@[j]).run_id != operation.run_id,
                forall|j: int|
                    0 <= j < k ==> (#[trigger] operations@[j]).operation_key@
                        != operation.operation_key@,
            decreases place - k,
        {
            if operations[k].operation_key.same(&operation.operation_key) {
                assert(operations@[k as int].operation_key@ == operation.operation_key@);
                return Some(owned("handoff native Stop ledger contains a duplicate key"));
            }
            k = k + 1;
        }
        match self.position(operation.run_id) {
            None => Some(owned("handoff native Stop ledger names an unknown retained Run")),
            Some(at) => {
                if self.runs[at].stop.is_some() {
                    Some(owned("handoff native Stop ledger duplicates a restored operation"))
                } else {
                    None
                }
            },
        }
    }

    /// Restore the settled Stops that crossed an exec: all of them, or none.
    pub fn restore_handoff_stop_operations(
        &mut self,
        operations: Vec<HandoffStopOperation>,
    ) -> (r: Result<(), ProtocolError>)
        requires
            old(self)@.valid(),
            forall|k: int|
                0 <= k < operations@.len() ==> stop_key_is_free(
                    old(self)@.runs,
                    (#[trigger] operations@[k]).operation_key@,
                ),
        ensures
            final(self)@.valid(),
            match restores_defect(old(self)@, operations@, operations@.len() as int) {
                Some(defect) => {
                    &&& r matches Err(e) && e.says(ErrorCode::InvalidRequest, defect)
                    &&& final(self)@ == old(self)@
                },
                None => {
                    &&& r is Ok
                    &&& final(self)@ == (RegistryView {
                        runs: with_restored_stops(
                            old(self)@.runs,
                            operations@,
                            operations@.len() as int,
                        ),
                        ..old(self)@
                    })
                },
            },
    {
        let ghost before = self@;
        let ghost given = operations@;
        let mut i: usize = 0;
        while i < operations.len()
            invariant
                self@ == before,
                before.valid(),
                given == operations@,
                i <= given.len(),
                restores_defect(before, given, i as int) is None,
            decreases given.len() - i,
        {
            if let Some(message) = self.restore_problem(&operations, i) {
                proof {
                    lemma_restores_defect_stays(before, given, i + 1, given.len() as int);
                }
                return Err(ProtocolError::new(ErrorCode::InvalidRequest, message));
            }
            i = i + 1;
        }
        let ghost mut done: int = 0;
        let mut rest = operations;
        while rest.len() > 0
            invariant
                before.valid(),
                self@.valid(),
                restores_defect(before, given, given.len() as int) is None,
                forall|k: int|
                    0 <= k < given.len() ==> stop_key_is_free(
                        before.runs,
                        (#[trigger] given[k]).operation_key@,
                    ),
                0 <= done,
                done + rest@.len() == given.len(),
                rest@ == given.skip(done),
                self@ == (RegistryView {
                    runs: with_restored_stops(before.runs, given, done),
                    ..before
                }),
                self@.runs.len() == before.runs.len(),
                forall|p: int|
                    0 <= p < before.runs.len() ==> (#[trigger] self@.runs[p]).facts
                        == before.runs[p].facts,
                forall|p: int|
                    0 <= p < before.runs.len() ==> (#[trigger] self@.runs[p]).stop
                        == before.runs[p].stop || exists|q: int|
                        0 <= q < done && stop_key_view(self@.runs[p].stop) == Some(
                            (#[trigger] given[q]).operation_key@,
                        ),
            decreases rest@.len(),
        {
            let ghost current = self@;
            let operation = rest.remove(0);
            let ghost record = restored_record(operation);
            proof {
                assert(operation == given[done]);
                assert(rest@ =~= given.skip(done + 1));
                lemma_no_restore_defect_at(before, given, given.len() as int, done);
                let p = place_of(before.runs, operation.run_id);
                assert(current.runs[p].facts == before.runs[p].facts);
                assert(current.runs[p].facts.id == operation.run_id);
                lemma_place_of(current, operation.run_id, p);
            }
            let HandoffStopOperation { run_id, operation_key, outcome } = operation;
            if let Some(place) = self.position(run_id) {
                proof {
                    assert forall|i: int|
                        0 <= i < current.runs.len() && i != place implies stop_key_view(
                        (#[trigger] current.runs[i]).stop,
                    ) != Some(record.key@) by {
                        if current.runs[i].stop == before.runs[i].stop {
                            assert(stop_key_is_free(before.runs, given[done].operation_key@));
                        } else {
                            let q = choose|q: int|
                                0 <= q < done && stop_key_view(current.runs[i].stop) == Some(
                                    (#[trigger] given[q]).operation_key@,
                                );
                            assert(given[q].operation_key@ != given[done].operation_key@);
                        }
                    }
                    lemma_update_keeps_valid(
                        current,
                        place as int,
                        RegistryEntry { stop: Some(record), ..current.runs[place as int] },
                    );
                }
                let settled = Some(outcome.into_result());
                self.runs[place].stop = Some(StopRecord { key: operation_key, settled });
                proof {
                    assert(self@.runs =~= with_stop(current.runs, place as int, Some(record)));
                    assert(with_restored_stops(before.runs, given, done + 1) == with_stop(
                        current.runs,
                        place as int,
                        Some(record),
                    ));
                    assert forall|p: int| 0 <= p < before.runs.len() implies (
                    #[trigger] self@.runs[p]).stop == before.runs[p].stop || exists|q: int|
                        0 <= q < done + 1 && stop_key_view(self@.runs[p].stop) == Some(
                            (#[trigger] given[q]).operation_key@,
                        ) by {
                        if p == place {
                            assert(stop_key_view(self@.runs[p].stop) == Some(
                                given[done].operation_key@,
                            ));
                        } else {
                            assert(self@.runs[p] == current.runs[p]);
                        }
                    }
                }
            }
            proof {
                done = done + 1;
            }
        }
        assert(given.skip(done).len() == 0);
        Ok(())
    }

    /// Whether a Run is retained and available; an error while it is fenced.
    pub fn pin(&self, id: RunId) -> (r: Result<bool, ProtocolError>)
        requires
            self@.valid(),
        ensures
            if !has_run(self@.runs, id) {
                r == Ok::<bool, ProtocolError>(false)
            } else if self@.runs[place_of(self@.runs, id)].residency == Residency::Retained {
                r == Ok::<bool, ProtocolError>(true)
            } else {
                r matches Err(e) && e.says(
                    ErrorCode::BackendUnavailable,
                    about_run(
                        id,
                        " is temporarily unavailable while its retained owner is being replaced or removed"@,
                    ),
                )
            },
    {
        match self.position(id) {
            None => Ok(false),
            Some(place) => match self.runs[place].residency {
                Residency::Retained => Ok(true),
                _ => Err(
                    run_error(
                        ErrorCode::BackendUnavailable,
                        id,
                        " is temporarily unavailable while its retained owner is being replaced or removed",
                    ),
                ),
            },
        }
    }

    /// Decide whether a Run may leave on request.
    pub fn validate_removable_entry(&self, id: RunId) -> (r: Result<(), ProtocolError>)
        requires
            self@.valid(),
        ensures
            r is Ok == is_removable(self@, id),
            r matches Err(e) ==> refuses_removal(self@, id, e),
    {
        match self.position(id) {
            None => Err(run_error(ErrorCode::RunNotFound, id, " does not exist")),
            Some(place) => {
                let entry = &self.runs[place];
                if entry.residency != Residency::Retained {
                    return Err(
                        run_error(
                            ErrorCode::BackendUnavailable,
                            id,
                            " is already being replaced or removed",
                        ),
                    );
                }
                if entry.facts.running {
                    return Err(
                        run_error(
                            ErrorCode::InvalidRunState,
                            id,
                            " is still running; stop it before removing",
                        ),
                    );
                }
                if entry.facts.shared {
                    return Err(
                        run_error(
                            ErrorCode::BackendUnavailable,
                            id,
                            " is attached or in use and cannot be removed",
                        ),
                    );
                }
                if entry.facts.ordinal.is_none() {
                    return Err(
                        run_error(
                            ErrorCode::BackendUnavailable,
                            id,
                            " has not reached collectable quiescence",
                        ),
                    );
                }
                Ok(())
            },
        }
    }

    /// Remove a Run if it may leave, with the outcome of detaching its
    /// descriptors.
    pub fn remove_memory(&mut self, id: RunId, detached: Result<(), String>) -> (r: Result<
        (),
        ProtocolError,
    >)
        requires
            old(self)@.valid(),
        ensures
            final(self)@.valid(),
            if !is_removable(old(self)@, id) {
                &&& r matches Err(e) && refuses_removal(old(self)@, id, e)
                &&& final(self)@ == old(self)@
            } else {
                match detached {
                    Ok(_) => r is Ok && final(self)@ == (RegistryView {
                        runs: old(self)@.runs.remove(place_of(old(self)@.runs, id)),
                        ..old(self)@
                    }),
                    Err(error) => {
                        &&& r matches Err(e) && e.says(
                            ErrorCode::Internal,
                            "failed to detach "@ + about_run(
                                id,
                                " descriptors for removal: "@ + error@,
                            ),
                        )
                        &&& final(self)@ == old(self)@
                    },
                }
            },
    {
        if let Err(refusal) = self.validate_removable_entry(id) {
            return Err(refusal);
        }
        if let Err(error) = detached {
            let rest = joined(" descriptors for removal: ", error.as_str());
            let what = about_run_text(id, rest.as_str());
            return Err(
                ProtocolError::new(
                    ErrorCode::Internal,
                    joined("failed to detach ", what.as_str()),
                ),
            );
        }
        if let Some(place) = self.position(id) {
            proof {
                lemma_remove_keeps_valid(self@, place as int);
            }
            let _ = self.runs.remove(place);
        }
        Ok(())
    }

    /// The durable record that leaves with a Run, or why it cannot leave.
    pub fn removal_candidate(&self, id: RunId) -> (r: Result<
        PersistentCollectionCandidate,
        ProtocolError,
    >)
        requires
            self@.valid(),
        ensures
            names_candidate(self@, id, r),
    {
        if let Err(error) = self.validate_removable_entry(id) {
            return Err(error);
        }
        match self.position(id) {
            None => Err(run_error(ErrorCode::RunNotFound, id, " does not exist")),
            Some(place) => {
                let entry = &self.runs[place];
                match (&entry.operation_key, entry.metadata_bytes) {
                    (None, _) => {
                        let what = about_run_text(id, " has no exact creation key to remove");
                        Err(
                            ProtocolError::new(
                                ErrorCode::Internal,
                                joined("persistent ", what.as_str()),
                            ),
                        )
                    },
                    (Some(_), None) => {
                        let what = about_run_text(id, " has no durable metadata accounting");
                        Err(
                            ProtocolError::new(
                                ErrorCode::Internal,
                                joined("persistent ", what.as_str()),
                            ),
                        )
                    },
                    (Some(key), Some(metadata_bytes)) => Ok(
                        PersistentCollectionCandidate {
                            id,
                            operation_key: key.copied(),
                            metadata_bytes,
                        },
                    ),
                }
            },
        }
    }

    /// Fence a Run while its durable record is deleted, with the outcome of
    /// detaching its descriptors. The record that has to be deleted is
    /// returned.
    pub fn begin_persistent_removal(&mut self, id: RunId, detached: Result<(), String>) -> (r:
        Result<PersistentCollectionCandidate, ProtocolError>)
        requires
            old(self)@.valid(),
        ensures
            final(self)@.valid(),
            if !leaves_with_record(old(self)@, id) {
                names_candidate(old(self)@, id, r) && final(self)@ == old(self)@
            } else {
                match detached {
                    Ok(_) => names_candidate(old(self)@, id, r) && final(self)@ == (RegistryView {
                        runs: with_residency(
                            old(self)@.runs,
                            place_of(old(self)@.runs, id),
                            Residency::Removing,
                        ),
                        ..old(self)@
                    }),
                    Err(error) => {
                        &&& r matches Err(e) && e.says(
                            ErrorCode::Internal,
                            "failed to fence "@ + about_run(id, " for removal: "@ + error@),
                        )
                        &&& final(self)@ == old(self)@
                    },
                }
            },
    {
        let candidate = match self.removal_candidate(id) {
            Ok(candidate) => candidate,
            Err(refusal) => {
                return Err(refusal);
            },
        };
        if let Err(error) = detached {
            let rest = joined(" for removal: ", error.as_str());
            let what = about_run_text(id, rest.as_str());
            return Err(
                ProtocolError::new(ErrorCode::Internal, joined("failed to fence ", what.as_str())),
            );
        }
        self.set_residency(id, Residency::Removing);
        Ok(candidate)
    }

    /// Note what is known of a retained Run now. The result says whether the
    /// Run is retained; an unknown one changes nothing.
    pub fn refresh(&mut self, facts: RunFacts, metadata_bytes: Option<u64>) -> (r: bool)
        requires
            old(self)@.valid(),
        ensures
            final(self)@.valid(),
            r == has_run(old(self)@.runs, facts.id),
            final(self)@ == (if r {
                let place = place_of(old(self)@.runs, facts.id);
                RegistryView {
                    runs: old(self)@.runs.update(
                        place,
                        RegistryEntry { facts, metadata_bytes, ..old(self)@.runs[place] },
                    ),
                    ..old(self)@
                }
            } else {
                old(self)@
            }),
    {
        let ghost before = self@;
        match self.position(facts.id) {
            None => false,
            Some(place) => {
                let ghost entry = RegistryEntry {
                    facts,
                    metadata_bytes,
                    ..before.runs[place as int]
                };
                proof {
                    if let Some(record) = entry.stop {
                        lemma_stop_key_is_alone(before, place as int, record.key@);
                    }
                    lemma_update_keeps_valid(before, place as int, entry);
                }
                self.runs[place].facts = facts;
                self.runs[place].metadata_bytes = metadata_bytes;
                assert(self@.runs =~= before.runs.update(place as int, entry));
                true
            },
        }
    }

    fn set_residency(&mut self, id: RunId, residency: Residency)
        requires
            old(self)@.valid(),
            has_run(old(self)@.runs, id),
            is_unreserved(residency),
            is_unreserved(old(self)@.runs[place_of(old(self)@.runs, id)].residency),
        ensures
            final(self)@.valid(),
            final(self)@ == (RegistryView {
                runs: with_residency(old(self)@.runs, place_of(old(self)@.runs, id), residency),
                ..old(self)@
            }),
    {
        let ghost before = self@;
        if let Some(place) = self.position(id) {
            proof {
                let entry = before.runs[place as int];
                if let Some(record) = entry.stop {
                    lemma_stop_key_is_alone(before, place as int, record.key@);
                }
                lemma_update_keeps_valid(
                    before,
                    place as int,
                    RegistryEntry { residency, ..entry },
                );
            }
            self.runs[place].residency = residency;
            assert(self@.runs =~= with_residency(before.runs, place as int, residency));
        }
    }

    /// Remove a fenced Run after its durable record was deleted.
    pub fn commit_removal(&mut self, id: RunId)
        requires
            old(self)@.valid(),
            has_run(old(self)@.runs, id),
            old(self)@.runs[place_of(old(self)@.runs, id)].residency == Residency::Removing,
        ensures
            final(self)@.valid(),
            final(self)@ == (RegistryView {
                runs: old(self)@.runs.remove(place_of(old(self)@.runs, id)),
                ..old(self)@
            }),
    {
        if let Some(place) = self.position(id) {
            proof {
                lemma_remove_keeps_valid(self@, place as int);
            }
            let _ = self.runs.remove(place);
        }
    }

    /// Make a fenced Run available again: its durable record was not deleted.
    pub fn abort_removal(&mut self, id: RunId)
        requires
            old(self)@.valid(),
            has_run(old(self)@.runs, id),
            old(self)@.runs[place_of(old(self)@.runs, id)].residency == Residency::Removing,
        ensures
            final(self)@.valid(),
            final(self)@ == (RegistryView {
                runs: with_residency(
                    old(self)@.runs,
                    place_of(old(self)@.runs, id),
                    Residency::Retained,
                ),
                ..old(self)@
            }),
    {
        self.set_residency(id, Residency::Retained);
    }

    /// One page of Runs after a cursor, in ascending order, and whether there
    /// are more.
    pub fn list_summaries_after(&self, after: Option<RunId>, limit: usize) -> (r: (
        Vec<RunId>,
        bool,
    ))
        requires
            self@.valid(),
        ensures
            exists|ordered: Seq<Ranked>| #[trigger] ranks_sorted(ordered) && ordered.to_multiset()
                == ranks_after(self@.runs, after).to_multiset() && r.1 == (ordered.len() > limit)
                && r.0@.len() == (if ordered.len() > limit {
                limit as int
            } else {
                ordered.len() as int
            }) && forall|k: int|
                0 <= k < r.0@.len() ==> (#[trigger] r.0@[k]).value == ordered[k].id,
    {
        let ghost runs = self@.runs;
        let mut ranks: Vec<Ranked> = Vec::new();
        let mut i: usize = 0;
        assert(runs.take(0) =~= seq![]);
        while i < self.runs.len()
            invariant
                runs == self@.runs,
                i <= runs.len(),
                ranks@ == ranks_after(runs.take(i as int), after),
            decreases runs.len() - i,
        {
            assert(runs.take(i + 1).drop_last() =~= runs.take(i as int));
            let id = self.runs[i].facts.id;
            let listed = match after {
                Some(cursor) => id.value > cursor.value,
                None => true,
            };
            if listed {
                ranks.push(Ranked { ordinal: 0, id: id.value });
            }
            i = i + 1;
        }
        assert(runs.take(i as int) =~= runs);
        let ordered = sort_ranked(ranks);
        let mut page: Vec<RunId> = Vec::new();
        let mut k: usize = 0;
        while k < ordered.len() && k < limit
            invariant
                k <= ordered@.len(),
                k <= limit,
                page@.len() == k,
                forall|j: int| 0 <= j < k ==> (#[trigger] page@[j]).value == ordered@[j].id,
            decreases ordered@.len() - k,
        {
            page.push(RunId { value: ordered[k].id });
            k = k + 1;
        }
        assert(ranks_sorted(ordered@));
        (page, ordered.len() > limit)
    }

    /// The Runs for whose children nobody waits any more, with the reasons.
    pub fn native_wait_failures(&self) -> (r: Vec<(RunId, String)>)
        ensures
            r@ == wait_failures(self@.runs),
    {
        let ghost runs = self@.runs;
        let mut r: Vec<(RunId, String)> = Vec::new();
        let mut i: usize = 0;
        assert(runs.take(0) =~= seq![]);
        while i < self.runs.len()
            invariant
                runs == self@.runs,
                i <= runs.len(),
                r@ == wait_failures(runs.take(i as int)),
            decreases runs.len() - i,
        {
            assert(runs.take(i + 1).drop_last() =~= runs.take(i as int));
            if let Some(failure) = &self.runs[i].facts.wait_failure {
                r.push((self.runs[i].facts.id, failure.clone()));
            }
            i = i + 1;
        }
        assert(runs.take(i as int) =~= runs);
        r
    }

    /// The available Runs that observe tmux panes and have to be shut down.
    pub fn pin_tmux_for_shutdown(&self) -> (r: Vec<RunId>)
        ensures
            r@ == self@.runs.filter(
                |entry: RegistryEntry|
                    entry.residency == Residency::Retained && entry.facts.tmux_controlled,
            ).map_values(|entry: RegistryEntry| entry.facts.id),
    {
        let ghost wanted = |entry: RegistryEntry|
            entry.residency == Residency::Retained && entry.facts.tmux_controlled;
        let ghost runs = self@.runs;
        let mut r: Vec<RunId> = Vec::new();
        let mut i: usize = 0;
        proof {
            reveal(Seq::filter);
        }
        assert(runs.take(0) =~= seq![]);
        assert(r@ =~= runs.take(0).filter(wanted).map_values(
            |entry: RegistryEntry| entry.facts.id,
        ));
        while i < self.runs.len()
            invariant
                runs == self@.runs,
                wanted == (|entry: RegistryEntry|
                    entry.residency == Residency::Retained && entry.facts.tmux_controlled),
                i <= runs.len(),
                r@ == runs.take(i as int).filter(wanted).map_values(
                    |entry: RegistryEntry| entry.facts.id,
                ),
            decreases runs.len() - i,
        {
            let ghost so_far = runs.take(i as int).filter(wanted);
            proof {
                reveal(Seq::filter);
                assert(runs.take(i + 1).drop_last() =~= runs.take(i as int));
            }
            let entry = &self.runs[i];
            if matches!(entry.residency, Residency::Retained) && entry.facts.tmux_controlled {
                r.push(entry.facts.id);
                assert(r@ =~= so_far.push(*entry).map_values(
                    |entry: RegistryEntry| entry.facts.id,
                ));
            }
            i = i + 1;
        }
        assert(runs.take(i as int) =~= runs);
        r
    }
}

/// A retried Stop with the same key on the same Run is the same operation: it
/// begins nothing, and once settled it gets the settled result.
pub proof fn law_stop_retry_is_the_same_operation(
    registry: RegistryView,
    id: RunId,
    key: OperationKey,
    settled: Option<ControlResult>,
    r: Result<StopAdmission, ControlFailure>,
)
    requires
        registry.valid(),
        key.defect is None,
        has_run(registry.runs, id),
        registry.runs[place_of(registry.runs, id)].residency == Residency::Retained,
        registry.runs[place_of(registry.runs, id)].stop == Some(StopRecord { key, settled }),
        answers_stop(registry, id, key, r),
    ensures
        r == Ok::<StopAdmission, ControlFailure>(StopAdmission::Retry { settled }),
{
    let place = place_of(registry.runs, id);
    assert(stop_key_view(registry.runs[place].stop) == Some(key@));
    lemma_stop_key_is_alone(registry, place, key@);
}

/// A settled Stop survives an exec: what was handed over for a Run and restored
/// by the next image is the very record that the Run had, so a retry gets the
/// result that it would have got before.
pub proof fn law_a_settled_stop_survives_an_exec(
    outgoing: RegistryView,
    operations: Seq<HandoffStopOperation>,
    incoming: RegistryView,
    place: int,
)
    requires
        0 <= place < operations.len(),
        has_run(outgoing.runs, operations[place].run_id),
        outgoing.runs[place_of(outgoing.runs, operations[place].run_id)].stop is Some,
        exported_stop(outgoing.runs[place_of(outgoing.runs, operations[place].run_id)]) == Ok::<
            HandoffStopOperation,
            Seq<char>,
        >(operations[place]),
        restores_defect(incoming, operations, operations.len() as int) is None,
    ensures
        ({
            let id = operations[place].run_id;
            let restored = with_restored_stops(
                incoming.runs,
                operations,
                operations.len() as int,
            );
            restored[place_of(incoming.runs, id)].stop == outgoing.runs[place_of(
                outgoing.runs,
                id,
            )].stop
        }),
{
    lemma_restored_stop_stays(incoming, operations, operations.len() as int, place);
}

/// A restored Stop stands with its Run, whatever is restored after it.
pub proof fn lemma_restored_stop_stays(
    registry: RegistryView,
    operations: Seq<HandoffStopOperation>,
    count: int,
    place: int,
)
    requires
        0 <= place < count <= operations.len(),
        restores_defect(registry, operations, count) is None,
    ensures
        with_restored_stops(registry.runs, operations, count).len() == registry.runs.len(),
        with_restored_stops(registry.runs, operations, count)[place_of(
            registry.runs,
            operations[place].run_id,
        )].stop == Some(restored_record(operations[place])),
    decreases count,
{
    let runs = registry.runs;
    let last = operations[count - 1];
    lemma_no_restore_defect_at(registry, operations, count, count - 1);
    lemma_no_restore_defect_at(registry, operations, count, place);
    lemma_restored_runs_len(registry, operations, count - 1);
    let id = operations[place].run_id;
    let at = place_of(runs, id);
    assert(0 <= at < runs.len() && runs[at].facts.id == id);
    if place < count - 1 {
        lemma_restored_stop_stays(registry, operations, count - 1, place);
        assert(operations[place].run_id != last.run_id);
        let other = place_of(runs, last.run_id);
        assert(0 <= other < runs.len() && runs[other].facts.id == last.run_id);
    }
}

/// Restoring Stops adds no Run and takes none away.
pub proof fn lemma_restored_runs_len(
    registry: RegistryView,
    operations: Seq<HandoffStopOperation>,
    count: int,
)
    requires
        restores_defect(registry, operations, count) is None,
    ensures
        with_restored_stops(registry.runs, operations, count).len() == registry.runs.len(),
    decreases count,
{
    if count > 0 {
        lemma_restored_runs_len(registry, operations, count - 1);
        let at = place_of(registry.runs, operations[count - 1].run_id);
        assert(0 <= at < registry.runs.len());
    }
}

/// Fencing a Run for removal and giving the removal up leaves the registry as
/// it was.
pub proof fn law_aborted_removal_leaves_no_trace(registry: RegistryView, place: int)
    requires
        0 <= place < registry.runs.len(),
        registry.runs[place].residency == Residency::Retained,
    ensures
        with_residency(
            with_residency(registry.runs, place, Residency::Removing),
            place,
            Residency::Retained,
        ) == registry.runs,
{
    assert(with_residency(
        with_residency(registry.runs, place, Residency::Removing),
        place,
        Residency::Retained,
    ) =~= registry.runs);
}

} // verus!
