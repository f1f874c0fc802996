//! What an upgrade hands over, and what the new image takes.

use vstd::prelude::*;
use vstd::utf8::encode_utf8;

use crate::daemon::handoff::{
    input_total, judge_version_output, law_version_line_declares_the_schema, operation_bytes,
    operation_defect, operations_defect, run_bounded, same_but_operations, schema_of_version_output,
    shed_operations, shed_stops, stop_total, total_after_runs, verify_exec_target, version_output,
    version_token, HandoffError, HandoffErrorKind, HandoffInputOperation, HandoffInputState,
    HandoffManifest, HandoffRun, HandoffStopOperation, HandoffStopOutcome, ProbeFailure, ProbeStep,
};
use crate::daemon::ledger::{
    lemma_no_restore_defect_at, lemma_restored_runs_len, lemma_restored_stop_stays, restores_defect,
    with_restored_stops,
};
use crate::daemon::manifest::{
    manifest_built, manifest_line, read_manifest, run_defect, runs_defect, stop_place_defect,
    stops_defect,
};
use crate::daemon::registry::{has_run, lemma_place_of, RegistryView, Residency, RunRegistry};
use crate::daemon::upgrade::{
    kept_descriptors, perform_exec_upgrade, ExecUpgrade, UpgradeEvent, UpgradeRequestGate,
    UpgradeStep,
};
use crate::identity::parsed_uuid;
use crate::protocol::{
    CommandDisposition, ControlFailure, ControlReceipt, ControlResult, ErrorCode, ProtocolError,
};
use crate::scan::lacks;

verus! {

/// Whether an Input that was handed over is sound among those before it.
pub open spec fn input_is_sound(
    operations: Seq<HandoffInputOperation>,
    applied: u64,
    place: int,
) -> bool {
    let operation = operations[place];
    &&& operation.key.defect is None
    &&& operation.range.start_byte == operation.expected_byte
    &&& operation.range.end_byte == operation.expected_byte + operation.data@.len()
    &&& operation.range.end_byte <= applied
    &&& forall|k: int| 0 <= k < place ==> (#[trigger] operations[k]).key@ != operation.key@
}

proof fn lemma_sound_operations(
    operations: Seq<HandoffInputOperation>,
    applied: u64,
    count: int,
)
    requires
        0 <= count <= operations.len(),
    ensures
        operations_defect(operations, applied, count) is None <==> forall|place: int|
            0 <= place < count ==> #[trigger] input_is_sound(operations, applied, place),
    decreases count,
{
    if count > 0 {
        lemma_sound_operations(operations, applied, count - 1);
        let last = count - 1;
        assert(operation_defect(operations, applied, last) is None <==> input_is_sound(
            operations,
            applied,
            last,
        ));
        if operations_defect(operations, applied, count) is None {
            assert forall|place: int| 0 <= place < count implies #[trigger] input_is_sound(
                operations,
                applied,
                place,
            ) by {
                if place == last {
                }
            }
        }
        if forall|place: int|
            0 <= place < count ==> #[trigger] input_is_sound(operations, applied, place) {
            assert(input_is_sound(operations, applied, last));
        }
    }
}

/// Handed over Input is taken exactly where its diagnostic is within four
/// kibibytes and every Input is sound: a good key of its own, and a range that is
/// its bytes' and lies before the cursor.
pub proof fn law_only_sound_input_is_taken(state: HandoffInputState, r: Result<(), String>)
    requires
        call_ensures(HandoffInputState::validate, (&state,), r),
    ensures
        r is Ok <==> (state.input_failure matches Some(failure) ==> encode_utf8(
            failure.message@,
        ).len() as usize <= 4096) && forall|place: int|
            0 <= place < state.operations@.len() ==> #[trigger] input_is_sound(
                state.operations@,
                state.applied_input_bytes,
                place,
            ),
{
    lemma_sound_operations(
        state.operations@,
        state.applied_input_bytes,
        state.operations@.len() as int,
    );
}

/// A Stop that was handed over is taken exactly where its key is good and it was
/// accepted, or its outcome is unknown with a diagnostic within four kibibytes.
pub proof fn law_only_a_sound_stop_is_taken(
    operation: HandoffStopOperation,
    r: Result<(), String>,
)
    requires
        call_ensures(HandoffStopOperation::validate, (&operation,), r),
    ensures
        r is Ok <==> operation.operation_key.defect is None && match operation.outcome {
            HandoffStopOutcome::Accepted { .. } => true,
            HandoffStopOutcome::Unknown { failure } => failure.disposition
                == CommandDisposition::Unknown && encode_utf8(
                failure.error.message@,
            ).len() as usize <= 4096,
        },
{
}

/// A Stop that was handed over answers as it did before.
pub proof fn law_a_handed_over_stop_answers_as_before(
    outcome: HandoffStopOutcome,
    r: ControlResult,
)
    requires
        call_ensures(HandoffStopOutcome::into_result, (outcome,), r),
    ensures
        match outcome {
            HandoffStopOutcome::Accepted { disposition } => r == Ok::<
                ControlReceipt,
                ControlFailure,
            >(ControlReceipt::Stop { disposition }),
            HandoffStopOutcome::Unknown { failure } => r == Err::<ControlReceipt, ControlFailure>(
                failure,
            ),
        },
{
}

/// The oldest Input is forgotten first; the cursor and the failure stay.
pub proof fn law_the_oldest_input_is_forgotten_first(state: &mut HandoffInputState, freed: usize)
    requires
        call_ensures(HandoffInputState::shed_oldest_operation, (state,), freed),
    ensures
        final(state).applied_input_bytes == old(state).applied_input_bytes,
        final(state).input_failure == old(state).input_failure,
        old(state).operations@.len() == 0 ==> freed == 0 && final(state).operations@.len() == 0,
        old(state).operations@.len() > 0 ==> freed == old(state).operations@[0].data@.len()
            && final(state).operations@.len() == old(state).operations@.len() - 1 && forall|k: int|
            0 <= k < final(state).operations@.len() ==> (#[trigger] final(state).operations@[k])
                == old(state).operations@[k + 1],
{
}

/// This image declares the schema that it writes, so an upgrade to the same
/// image is accepted.
pub proof fn law_the_same_image_is_accepted(
    version: &str,
    protocol: u32,
    line: String,
    shown: &str,
    exe: &str,
    judged: Result<(), String>,
    output: Vec<u8>,
    verified: Result<(), String>,
)
    requires
        lacks(version@ + " "@, "handoff "@),
        call_ensures(version_output, (version, protocol), line),
        shown@ == line@,
        call_ensures(judge_version_output, (exe, shown), judged),
        encode_utf8(line@) == output@,
        call_ensures(verify_exec_target, (exe, Ok(output)), verified),
    ensures
        judged is Ok,
        verified is Ok,
{
    law_version_line_declares_the_schema(version@, protocol, seq![]);
    let text = crate::daemon::handoff::version_line(version@, protocol);
    assert(text + seq![] =~= text);
}

/// An image is accepted exactly where it declares the schema that is written.
pub proof fn law_only_an_image_with_this_schema_is_accepted(
    exe: &str,
    output: &str,
    declared: Option<&str>,
    judged: Result<(), String>,
    token: String,
)
    requires
        call_ensures(schema_of_version_output, (output,), declared),
        call_ensures(judge_version_output, (exe, output), judged),
        call_ensures(version_token, (), token),
    ensures
        judged is Ok <==> (declared matches Some(schema) && schema@ == "ctxmux.daemon-handoff.v4"@),
        token@ == "handoff "@ + "ctxmux.daemon-handoff.v4"@,
{
}

/// An image that does not answer is not accepted, and is waited for until the
/// deadline only.
pub proof fn law_a_silent_image_is_not_accepted(
    exe: &str,
    failure: ProbeFailure,
    r: Result<(), String>,
    status: Result<bool, String>,
    overdue: bool,
    step: ProbeStep,
)
    requires
        call_ensures(verify_exec_target, (exe, Err(failure)), r),
        call_ensures(run_bounded, (status, overdue), step),
    ensures
        r is Err,
        step is Read <==> (status matches Ok(true)),
        step is Poll <==> (status matches Ok(false)) && !overdue,
        (status matches Ok(false)) && overdue ==> step == ProbeStep::GiveUp(
            ProbeFailure::TimedOut,
        ),
        status matches Err(error) ==> step == ProbeStep::GiveUp(ProbeFailure::NotAwaited(error)),
{
}

proof fn lemma_nothing_is_shed(runs: Seq<HandoffRun>, budget: int, count: int)
    requires
        0 <= count <= runs.len(),
        input_total(runs) <= budget,
    ensures
        total_after_runs(runs, input_total(runs), budget, count) == input_total(runs),
    decreases count,
{
    if count > 0 {
        lemma_nothing_is_shed(runs, budget, count - 1);
    }
}

/// Whether a manifest hands over all Runs that were extracted, each with its
/// child, its terminal, its cursor and its failure, and of the Input as much as
/// fits: all of it within its budget.
pub open spec fn hands_over(
    manifest: HandoffManifest,
    runs: Seq<HandoffRun>,
    stops: Seq<HandoffStopOperation>,
) -> bool {
    &&& manifest.schema@ == "ctxmux.daemon-handoff.v4"@
    &&& manifest.runs@.len() == runs.len()
    &&& forall|k: int|
        0 <= k < runs.len() ==> {
            let kept = #[trigger] manifest.runs@[k];
            &&& kept.run_id == runs[k].run_id
            &&& kept.child_pid == runs[k].child_pid
            &&& kept.master_fd == runs[k].master_fd
            &&& kept.input_state.applied_input_bytes == runs[k].input_state.applied_input_bytes
            &&& kept.input_state.input_failure == runs[k].input_state.input_failure
            &&& input_total(runs) <= 134217728 ==> kept.input_state.operations@
                == runs[k].input_state.operations@
        }
    &&& stop_total(stops) <= 16777216 ==> manifest.stop_operations@ == stops
    &&& exists|removed: int|
        0 <= removed <= stops.len() && manifest.stop_operations@ == #[trigger] stops.skip(removed)
}

proof fn lemma_stops_are_shed_from_the_front(
    stops: Seq<HandoffStopOperation>,
    total: int,
    budget: int,
) -> (removed: int)
    ensures
        0 <= removed <= stops.len(),
        shed_stops(stops, total, budget) == stops.skip(removed),
        total <= budget ==> removed == 0,
    decreases stops.len(),
{
    if total <= budget || stops.len() == 0 {
        assert(stops.skip(0) =~= stops);
        0
    } else {
        let rest = stops.drop_first();
        let removed = lemma_stops_are_shed_from_the_front(
            rest,
            total - crate::daemon::handoff::stop_bytes(stops[0]),
            budget,
        );
        assert(rest.skip(removed) =~= stops.skip(removed + 1));
        removed + 1
    }
}

proof fn lemma_a_built_manifest_hands_over(
    epoch: Seq<char>,
    listener_fd: i32,
    state_lock_fd: i32,
    runs: Seq<HandoffRun>,
    stops: Seq<HandoffStopOperation>,
    manifest: HandoffManifest,
)
    requires
        manifest_built(epoch, listener_fd, state_lock_fd, runs, stops, manifest),
    ensures
        hands_over(manifest, runs, stops),
{
    assert forall|k: int| 0 <= k < runs.len() implies {
        let kept = #[trigger] manifest.runs@[k];
        &&& kept.run_id == runs[k].run_id
        &&& kept.child_pid == runs[k].child_pid
        &&& kept.master_fd == runs[k].master_fd
        &&& kept.input_state.applied_input_bytes == runs[k].input_state.applied_input_bytes
        &&& kept.input_state.input_failure == runs[k].input_state.input_failure
        &&& input_total(runs) <= 134217728 ==> kept.input_state.operations@
            == runs[k].input_state.operations@
    } by {
        assert(same_but_operations(manifest.runs@[k], runs[k]));
        if input_total(runs) <= 134217728 {
            lemma_nothing_is_shed(runs, 134217728, k);
        }
    }
    let removed = lemma_stops_are_shed_from_the_front(stops, stop_total(stops), 16777216);
    assert(manifest.stop_operations@ == stops.skip(removed));
    if removed == 0 {
        assert(stops.skip(0) =~= stops);
    }
}

/// A manifest names its epoch and its descriptors and hands over what it was
/// given.
pub proof fn law_a_manifest_hands_over_what_it_was_given(
    epoch: String,
    listener_fd: i32,
    state_lock_fd: i32,
    runs: Vec<HandoffRun>,
    stops: Vec<HandoffStopOperation>,
    manifest: HandoffManifest,
)
    requires
        call_ensures(
            HandoffManifest::new_with_stop_operations,
            (epoch, listener_fd, state_lock_fd, runs, stops),
            manifest,
        ),
    ensures
        manifest.epoch@ == epoch@,
        manifest.listener_fd == listener_fd,
        manifest.state_lock_fd == state_lock_fd,
        hands_over(manifest, runs@, stops@),
        input_total(manifest.runs@) <= 134217728,
        stop_total(manifest.stop_operations@) <= 16777216,
{
    lemma_a_built_manifest_hands_over(
        epoch@,
        listener_fd,
        state_lock_fd,
        runs@,
        stops@,
        manifest,
    );
}

/// What an upgrade extracted is what its manifest hands over, under the epoch
/// and the descriptors of the upgrade.
pub proof fn law_an_upgrade_hands_over_what_it_extracted(
    upgrade: ExecUpgrade,
    gate: &mut UpgradeRequestGate,
    runs: Vec<HandoffRun>,
    stops: Vec<HandoffStopOperation>,
    next: ExecUpgrade,
)
    requires
        call_ensures(
            perform_exec_upgrade,
            (upgrade, gate, UpgradeEvent::Extracted { runs, stop_operations: stops }),
            UpgradeStep::Perform(next),
        ),
    ensures
        next.manifest matches Some(manifest) && hands_over(manifest, runs@, stops@)
            && manifest.epoch@ == upgrade.identity.epoch.text() && manifest.listener_fd
            == upgrade.identity.listener_fd && manifest.state_lock_fd
            == upgrade.identity.state_lock_fd,
{
    lemma_a_built_manifest_hands_over(
        upgrade.identity.epoch.text(),
        upgrade.identity.listener_fd,
        upgrade.identity.state_lock_fd,
        runs@,
        stops@,
        next.manifest->Some_0,
    );
}

/// The descriptors that cross the exec are the listener, the state lock and the
/// terminal of every Run, and no others.
pub proof fn law_every_handed_over_descriptor_is_kept(upgrade: ExecUpgrade, fds: Vec<i32>)
    requires
        upgrade.manifest is Some,
        call_ensures(kept_descriptors, (&upgrade,), fds),
    ensures
        ({
            let manifest = upgrade.manifest->Some_0;
            &&& fds@.len() == manifest.runs@.len() + 2
            &&& fds@[0] == manifest.listener_fd
            &&& fds@[1] == manifest.state_lock_fd
            &&& forall|k: int|
                0 <= k < manifest.runs@.len() ==> fds@[k + 2] == (
                #[trigger] manifest.runs@[k]).master_fd
        }),
{
}

/// Whether a Run that was handed over is sound among those before it.
pub open spec fn run_is_sound(runs: Seq<HandoffRun>, place: int) -> bool {
    &&& runs[place].child_pid != 0
    &&& forall|k: int| 0 <= k < place ==> (#[trigger] runs[k]).run_id != runs[place].run_id
    &&& runs[place].input_state.input_failure matches Some(failure) ==> encode_utf8(
        failure.message@,
    ).len() as usize <= 4096
    &&& forall|k: int|
        0 <= k < runs[place].input_state.operations@.len() ==> #[trigger] input_is_sound(
            runs[place].input_state.operations@,
            runs[place].input_state.applied_input_bytes,
            k,
        )
}

proof fn lemma_sound_runs(runs: Seq<HandoffRun>, count: int)
    requires
        0 <= count <= runs.len(),
    ensures
        runs_defect(runs, count) is None <==> forall|place: int|
            0 <= place < count ==> #[trigger] run_is_sound(runs, place),
    decreases count,
{
    if count > 0 {
        lemma_sound_runs(runs, count - 1);
        let last = count - 1;
        let state = runs[last].input_state;
        lemma_sound_operations(
            state.operations@,
            state.applied_input_bytes,
            state.operations@.len() as int,
        );
        assert(run_defect(runs, last) is None <==> run_is_sound(runs, last));
        if runs_defect(runs, count) is None {
            assert forall|place: int| 0 <= place < count implies #[trigger] run_is_sound(
                runs,
                place,
            ) by {
                if place == last {
                }
            }
        }
        if forall|place: int| 0 <= place < count ==> #[trigger] run_is_sound(runs, place) {
            assert(run_is_sound(runs, last));
        }
    }
}

/// Whether a Stop that was handed over is sound among those before it.
pub open spec fn stop_is_sound(stops: Seq<HandoffStopOperation>, place: int) -> bool {
    &&& stops[place].operation_key.defect is None
    &&& stops[place].outcome matches HandoffStopOutcome::Unknown { failure }
        ==> failure.disposition == CommandDisposition::Unknown && encode_utf8(
        failure.error.message@,
    ).len() as usize <= 4096
    &&& forall|k: int|
        0 <= k < place ==> (#[trigger] stops[k]).run_id != stops[place].run_id
            && stops[k].operation_key@ != stops[place].operation_key@
}

proof fn lemma_sound_stops(stops: Seq<HandoffStopOperation>, count: int)
    requires
        0 <= count <= stops.len(),
    ensures
        stops_defect(stops, count) is None <==> forall|place: int|
            0 <= place < count ==> #[trigger] stop_is_sound(stops, place),
    decreases count,
{
    if count > 0 {
        lemma_sound_stops(stops, count - 1);
        let last = count - 1;
        assert(stop_place_defect(stops, last) is None <==> stop_is_sound(stops, last));
        if stops_defect(stops, count) is None {
            assert forall|place: int| 0 <= place < count implies #[trigger] stop_is_sound(
                stops,
                place,
            ) by {
                if place == last {
                }
            }
        }
        if forall|place: int| 0 <= place < count ==> #[trigger] stop_is_sound(stops, place) {
            assert(stop_is_sound(stops, last));
        }
    }
}

/// A manifest is taken exactly where its epoch is an identity, its Input and its
/// diagnostics are within their budgets, its descriptors are distinct, none of
/// the standard ones and not the manifest's own, and its Runs and Stops are
/// sound.
pub proof fn law_only_a_sound_manifest_is_taken(
    manifest: HandoffManifest,
    manifest_fd: i32,
    fds: Vec<i32>,
    r: Result<(), HandoffError>,
)
    requires
        input_total(manifest.runs@) <= usize::MAX,
        stop_total(manifest.stop_operations@) <= usize::MAX,
        call_ensures(HandoffManifest::all_fds, (&manifest,), fds),
        call_ensures(HandoffManifest::validate, (&manifest, manifest_fd), r),
    ensures
        r is Ok <==> {
            &&& parsed_uuid(manifest.epoch@) is Ok
            &&& input_total(manifest.runs@) <= 134217728
            &&& stop_total(manifest.stop_operations@) <= 16777216
            &&& forall|i: int| 0 <= i < fds@.len() ==> #[trigger] fds@[i] >= 3
            &&& forall|i: int| 0 <= i < fds@.len() ==> #[trigger] fds@[i] != manifest_fd
            &&& forall|i: int, j: int|
                0 <= i < j < fds@.len() ==> #[trigger] fds@[i] != #[trigger] fds@[j]
            &&& forall|place: int|
                0 <= place < manifest.runs@.len() ==> #[trigger] run_is_sound(
                    manifest.runs@,
                    place,
                )
            &&& forall|place: int|
                0 <= place < manifest.stop_operations@.len() ==> #[trigger] stop_is_sound(
                    manifest.stop_operations@,
                    place,
                )
        },
        r matches Err(error) ==> error.kind == HandoffErrorKind::InvalidData,
        fds@.len() == manifest.runs@.len() + 2,
        fds@[0] == manifest.listener_fd && fds@[1] == manifest.state_lock_fd,
        forall|k: int|
            0 <= k < manifest.runs@.len() ==> fds@[k + 2] == (
            #[trigger] manifest.runs@[k]).master_fd,
{
    lemma_sound_runs(manifest.runs@, manifest.runs@.len() as int);
    lemma_sound_stops(manifest.stop_operations@, manifest.stop_operations@.len() as int);
    if forall|i: int, j: int|
        0 <= i < j < fds@.len() ==> #[trigger] fds@[i] != #[trigger] fds@[j] {
        assert(fds@.no_duplicates());
    }
}

/// The manifest is the first line of what was read, within its bound.
pub proof fn law_a_manifest_is_the_first_line(
    bytes: Vec<u8>,
    r: Result<Vec<u8>, HandoffError>,
)
    requires
        call_ensures(manifest_line, (&bytes,), r),
    ensures
        r is Ok <==> bytes@.len() <= 246065834,
        r matches Ok(line) ==> {
            &&& line@.len() <= bytes@.len()
            &&& line@ == bytes@.take(line@.len() as int)
            &&& !line@.contains(10u8)
            &&& line@.len() < bytes@.len() ==> bytes@[line@.len() as int] == 10
        },
{
    lemma_first_line(bytes@);
}

proof fn lemma_first_line(bytes: Seq<u8>)
    ensures
        ({
            let line = crate::daemon::manifest::first_line(bytes);
            &&& line.len() <= bytes.len()
            &&& line == bytes.take(line.len() as int)
            &&& !line.contains(10u8)
            &&& line.len() < bytes.len() ==> bytes[line.len() as int] == 10
        }),
    decreases bytes.len(),
{
    let line = crate::daemon::manifest::first_line(bytes);
    if bytes.len() == 0 || bytes[0] == 10 {
        assert(line =~= bytes.take(0));
    } else {
        let rest = bytes.drop_first();
        let shorter = crate::daemon::manifest::first_line(rest);
        lemma_first_line(rest);
        assert(line =~= bytes.take(line.len() as int)) by {
            assert forall|k: int| 0 <= k < line.len() implies line[k] == bytes[k] by {
                if k > 0 {
                    assert(line[k] == shorter[k - 1]);
                    assert(shorter[k - 1] == rest.take(shorter.len() as int)[k - 1]);
                }
            }
        }
        if line.contains(10u8) {
            let k = choose|k: int| 0 <= k < line.len() && line[k] == 10;
            assert(k > 0);
            assert(shorter[k - 1] == 10);
        }
    }
}

/// A manifest is read as it is, and only where it has the schema of this image.
pub proof fn law_a_manifest_is_read_as_it_is(
    parsed: Result<HandoffManifest, HandoffError>,
    manifest_fd: i32,
    r: Result<HandoffManifest, HandoffError>,
    judged: Result<(), HandoffError>,
)
    requires
        parsed matches Ok(manifest) ==> call_ensures(
            HandoffManifest::validate,
            (&manifest, manifest_fd),
            judged,
        ),
        call_ensures(read_manifest, (parsed, manifest_fd), r),
    ensures
        r matches Ok(manifest) ==> parsed == Ok::<HandoffManifest, HandoffError>(manifest),
        r is Ok <==> (parsed matches Ok(manifest) && manifest.schema@
            == "ctxmux.daemon-handoff.v4"@ && judged is Ok),
        parsed matches Err(error) ==> r == Err::<HandoffManifest, HandoffError>(error),
{
}

/// Every Stop that is bound crosses an exec with its Run, its key and what it
/// came to. An undecided one, or one whose Run is leaving, does not let the exec
/// happen.
pub proof fn law_every_settled_stop_is_handed_over(
    registry: RunRegistry,
    operations: Vec<HandoffStopOperation>,
    place: int,
)
    requires
        registry@.valid(),
        call_ensures(RunRegistry::handoff_stop_operations, (&registry,), Ok(operations)),
        0 <= place < registry@.runs.len(),
        registry@.runs[place].stop is Some,
    ensures
        registry@.runs[place].residency == Residency::Retained,
        registry@.runs[place].stop->Some_0.settled is Some,
        exists|k: int|
            0 <= k < operations@.len() && (#[trigger] operations@[k]).run_id
                == registry@.runs[place].facts.id && operations@[k].operation_key
                == registry@.runs[place].stop->Some_0.key && match operations@[k].outcome {
                HandoffStopOutcome::Accepted { disposition } =>
                    registry@.runs[place].stop->Some_0.settled == Some(
                    Ok::<ControlReceipt, ControlFailure>(ControlReceipt::Stop { disposition }),
                ),
                HandoffStopOutcome::Unknown { failure } =>
                    registry@.runs[place].stop->Some_0.settled == Some(
                    Err::<ControlReceipt, ControlFailure>(failure),
                ) && failure.disposition == CommandDisposition::Unknown,
            },
{
    let entry = registry@.runs[place];
    let operation = crate::daemon::ledger::exported_stop(entry)->Ok_0;
    assert(operations@.contains(operation));
    let k = choose|k: int| 0 <= k < operations@.len() && operations@[k] == operation;
    assert(operations@[k].run_id == entry.facts.id);
}

/// Nothing else is handed over as a Stop.
pub proof fn law_only_bound_stops_are_handed_over(
    registry: RunRegistry,
    operations: Vec<HandoffStopOperation>,
    k: int,
)
    requires
        registry@.valid(),
        call_ensures(RunRegistry::handoff_stop_operations, (&registry,), Ok(operations)),
        0 <= k < operations@.len(),
    ensures
        exists|place: int|
            0 <= place < registry@.runs.len() && (#[trigger] registry@.runs[place]).facts.id
                == operations@[k].run_id && (registry@.runs[place].stop matches Some(record)
                && record.key == operations@[k].operation_key),
{
    let id = operations@[k].run_id;
    let runs = registry@.runs;
    let r = Ok::<Vec<HandoffStopOperation>, String>(operations);
    assert(r->Ok_0@[k] == operations@[k]);
    assert(has_run(runs, r->Ok_0@[k].run_id));
    let place = choose|place: int| 0 <= place < runs.len() && (#[trigger] runs[place]).facts.id
        == id;
    lemma_place_of(registry@, id, place);
}

proof fn lemma_other_runs_keep_their_stops(
    registry: RegistryView,
    operations: Seq<HandoffStopOperation>,
    count: int,
    place: int,
)
    requires
        registry.valid(),
        0 <= count <= operations.len(),
        restores_defect(registry, operations, count) is None,
        0 <= place < registry.runs.len(),
        forall|k: int|
            0 <= k < count ==> (#[trigger] operations[k]).run_id != registry.runs[place].facts.id,
    ensures
        with_restored_stops(registry.runs, operations, count)[place] == registry.runs[place],
        with_restored_stops(registry.runs, operations, count).len() == registry.runs.len(),
    decreases count,
{
    if count > 0 {
        lemma_no_restore_defect_at(registry, operations, count, count - 1);
        lemma_other_runs_keep_their_stops(registry, operations, count - 1, place);
        let id = operations[count - 1].run_id;
        let other = choose|i: int|
            0 <= i < registry.runs.len() && (#[trigger] registry.runs[i]).facts.id == id;
        lemma_place_of(registry, id, other);
        assert(other != place);
    }
}

/// A Stop that was handed over stands with its Run again, with its key and what
/// it came to. A Run without one is as it was.
pub proof fn law_a_handed_over_stop_stands_with_its_run(
    registry: &mut RunRegistry,
    operations: Vec<HandoffStopOperation>,
    place: int,
)
    requires
        old(registry)@.valid(),
        call_ensures(
            RunRegistry::restore_handoff_stop_operations,
            (registry, operations),
            Ok(()),
        ),
        0 <= place < old(registry)@.runs.len(),
    ensures
        final(registry)@.runs.len() == old(registry)@.runs.len(),
        (forall|k: int|
            0 <= k < operations@.len() ==> (#[trigger] operations@[k]).run_id != old(
                registry,
            )@.runs[place].facts.id) ==> final(registry)@.runs[place] == old(
            registry,
        )@.runs[place],
        forall|k: int|
            0 <= k < operations@.len() && (#[trigger] operations@[k]).run_id == old(
                registry,
            )@.runs[place].facts.id ==> (final(registry)@.runs[place].stop matches Some(record)
                && record.key == operations@[k].operation_key && record.settled == Some(
                match operations@[k].outcome {
                    HandoffStopOutcome::Accepted { disposition } => Ok(
                        ControlReceipt::Stop { disposition },
                    ),
                    HandoffStopOutcome::Unknown { failure } => Err(failure),
                },
            )),
        final(registry)@.reservations == old(registry)@.reservations,
{
    let before = old(registry)@;
    let count = operations@.len() as int;
    lemma_restored_runs_len(before, operations@, count);
    if forall|k: int|
        0 <= k < operations@.len() ==> (#[trigger] operations@[k]).run_id
            != before.runs[place].facts.id {
        lemma_other_runs_keep_their_stops(before, operations@, count, place);
    }
    assert forall|k: int|
        0 <= k < operations@.len() && (#[trigger] operations@[k]).run_id
            == before.runs[place].facts.id implies (final(registry)@.runs[place].stop matches Some(
        record,
    ) && record.key == operations@[k].operation_key && record.settled == Some(
        match operations@[k].outcome {
            HandoffStopOutcome::Accepted { disposition } => Ok(ControlReceipt::Stop { disposition }),
            HandoffStopOutcome::Unknown { failure } => Err(failure),
        },
    )) by {
        lemma_place_of(before, operations@[k].run_id, place);
        lemma_restored_stop_stays(before, operations@, count, k);
    }
}

/// Stops that cannot be restored change nothing.
pub proof fn law_unsound_stops_are_not_restored(
    registry: &mut RunRegistry,
    operations: Vec<HandoffStopOperation>,
    r: Result<(), ProtocolError>,
    k: int,
)
    requires
        call_ensures(RunRegistry::restore_handoff_stop_operations, (registry, operations), r),
        0 <= k < operations@.len(),
        operations@[k].operation_key.defect is Some || (forall|i: int|
            0 <= i < old(registry)@.runs.len() ==> (#[trigger] old(registry)@.runs[i]).facts.id
                != operations@[k].run_id),
    ensures
        r matches Err(error) && error.code == ErrorCode::InvalidRequest,
        final(registry)@ == old(registry)@,
{
    let count = operations@.len() as int;
    if restores_defect(old(registry)@, operations@, count) is None {
        lemma_no_restore_defect_at(old(registry)@, operations@, count, k);
    }
}

/// The bytes that some Inputs bring.
pub open spec fn bytes_brought(operations: Seq<HandoffInputOperation>) -> int
    decreases operations.len(),
{
    if operations.len() == 0 {
        0
    } else {
        bytes_brought(operations.drop_last()) + operations.last().data@.len()
    }
}

/// The bytes of Input that some Runs hand over.
pub open spec fn bytes_handed_over(runs: Seq<HandoffRun>) -> int
    decreases runs.len(),
{
    if runs.len() == 0 {
        0
    } else {
        bytes_handed_over(runs.drop_last()) + bytes_brought(
            runs.last().input_state.operations@,
        )
    }
}

/// The bytes of the diagnostics of some Stops.
pub open spec fn diagnostics_handed_over(stops: Seq<HandoffStopOperation>) -> int
    decreases stops.len(),
{
    if stops.len() == 0 {
        0
    } else {
        diagnostics_handed_over(stops.drop_last()) + (match stops.last().outcome {
            HandoffStopOutcome::Unknown { failure } => encode_utf8(
                failure.error.message@,
            ).len() as usize as int,
            _ => 0,
        })
    }
}

proof fn lemma_inputs_are_counted(operations: Seq<HandoffInputOperation>)
    ensures
        bytes_brought(operations) == operation_bytes(operations),
    decreases operations.len(),
{
    if operations.len() > 0 {
        lemma_inputs_are_counted(operations.drop_last());
    }
}

proof fn lemma_runs_are_counted(runs: Seq<HandoffRun>)
    ensures
        bytes_handed_over(runs) == input_total(runs),
    decreases runs.len(),
{
    if runs.len() > 0 {
        lemma_runs_are_counted(runs.drop_last());
        lemma_inputs_are_counted(runs.last().input_state.operations@);
    }
}

proof fn lemma_stops_are_counted(stops: Seq<HandoffStopOperation>)
    ensures
        diagnostics_handed_over(stops) == stop_total(stops),
    decreases stops.len(),
{
    if stops.len() > 0 {
        lemma_stops_are_counted(stops.drop_last());
    }
}

/// What is handed over is counted by its bytes.
pub proof fn law_what_is_handed_over_is_counted(
    state: HandoffInputState,
    retained: usize,
    manifest: HandoffManifest,
    inputs: usize,
    diagnostics: usize,
    empty: HandoffInputState,
)
    requires
        bytes_brought(state.operations@) <= usize::MAX,
        bytes_handed_over(manifest.runs@) <= usize::MAX,
        diagnostics_handed_over(manifest.stop_operations@) <= usize::MAX,
        call_ensures(HandoffInputState::retained_request_bytes, (&state,), retained),
        call_ensures(HandoffManifest::retained_input_request_bytes, (&manifest,), inputs),
        call_ensures(HandoffManifest::stop_diagnostic_bytes, (&manifest,), diagnostics),
        call_ensures(HandoffInputState::empty, (), empty),
    ensures
        retained == bytes_brought(state.operations@),
        inputs == bytes_handed_over(manifest.runs@),
        diagnostics == diagnostics_handed_over(manifest.stop_operations@),
        empty.applied_input_bytes == 0 && empty.input_failure is None && empty.operations@.len()
            == 0,
{
    lemma_inputs_are_counted(state.operations@);
    lemma_runs_are_counted(manifest.runs@);
    lemma_stops_are_counted(manifest.stop_operations@);
}

/// Within its budget a manifest keeps everything. Over it, Input is forgotten
/// until it fits, each Run keeps the latest of its Inputs, and nothing else of it
/// changes.
pub proof fn law_a_manifest_forgets_only_what_does_not_fit(
    manifest: &mut HandoffManifest,
    budget: usize,
    place: int,
) -> (forgotten: int)
    requires
        0 <= place < old(manifest).runs@.len(),
        call_ensures(
            HandoffManifest::shed_recoverable_input_to_budget,
            (manifest, budget),
            (),
        ),
    ensures
        bytes_handed_over(final(manifest).runs@) <= budget,
        bytes_handed_over(old(manifest).runs@) <= budget ==> final(manifest).runs@
            == old(manifest).runs@,
        final(manifest).runs@.len() == old(manifest).runs@.len(),
        final(manifest).runs@[place].run_id == old(manifest).runs@[place].run_id,
        final(manifest).runs@[place].child_pid == old(manifest).runs@[place].child_pid,
        final(manifest).runs@[place].master_fd == old(manifest).runs@[place].master_fd,
        final(manifest).runs@[place].input_state.applied_input_bytes
            == old(manifest).runs@[place].input_state.applied_input_bytes,
        0 <= forgotten <= old(manifest).runs@[place].input_state.operations@.len(),
        final(manifest).runs@[place].input_state.operations@
            == old(manifest).runs@[place].input_state.operations@.skip(forgotten),
        final(manifest).stop_operations@ == old(manifest).stop_operations@,
        final(manifest).epoch@ == old(manifest).epoch@,
        final(manifest).listener_fd == old(manifest).listener_fd,
        final(manifest).state_lock_fd == old(manifest).state_lock_fd,
{
    let before = old(manifest).runs@;
    lemma_runs_are_counted(before);
    lemma_runs_are_counted(final(manifest).runs@);
    assert(same_but_operations(final(manifest).runs@[place], before[place]));
    lemma_some_end_is_kept(
        before[place].input_state.operations@,
        total_after_runs(before, input_total(before), budget as int, place),
        budget as int,
    )
}

proof fn lemma_some_end_is_kept(
    operations: Seq<HandoffInputOperation>,
    total: int,
    budget: int,
) -> (forgotten: int)
    ensures
        0 <= forgotten <= operations.len(),
        shed_operations(operations, total, budget) == operations.skip(forgotten),
    decreases operations.len(),
{
    if total <= budget || operations.len() == 0 {
        assert(operations.skip(0) =~= operations);
        0
    } else {
        let rest = operations.drop_first();
        let forgotten = lemma_some_end_is_kept(
            rest,
            total - operations[0].data@.len(),
            budget,
        );
        assert(rest.skip(forgotten) =~= operations.skip(forgotten + 1));
        forgotten + 1
    }
}

/// Of the Stops a manifest keeps the latest, all of them within the budget.
pub proof fn law_a_manifest_keeps_the_latest_stops(
    manifest: &mut HandoffManifest,
    budget: usize,
) -> (forgotten: int)
    requires
        call_ensures(
            HandoffManifest::shed_stop_diagnostics_to_budget,
            (manifest, budget),
            (),
        ),
    ensures
        0 <= forgotten <= old(manifest).stop_operations@.len(),
        final(manifest).stop_operations@ == old(manifest).stop_operations@.skip(forgotten),
        diagnostics_handed_over(final(manifest).stop_operations@) <= budget,
        diagnostics_handed_over(old(manifest).stop_operations@) <= budget ==> forgotten == 0,
        final(manifest).runs@ == old(manifest).runs@,
{
    let before = old(manifest).stop_operations@;
    lemma_stops_are_counted(before);
    lemma_stops_are_counted(final(manifest).stop_operations@);
    let kept = crate::daemon::handoff::law_shed_stops_fit_the_budget(before, budget as int);
    lemma_stops_are_shed_from_the_front(before, stop_total(before), budget as int)
}

/// Stops are handed over unless one of them cannot be: it is undecided, its Run
/// is leaving, or it is not one that crosses an exec.
pub proof fn law_stops_are_handed_over_unless_one_cannot_be(
    registry: RunRegistry,
    message: String,
)
    requires
        call_ensures(RunRegistry::handoff_stop_operations, (&registry,), Err(message)),
    ensures
        exists|i: int|
            0 <= i < registry@.runs.len() && ((#[trigger] registry@.runs[i]).stop matches Some(
                record,
            ) && (registry@.runs[i].residency != Residency::Retained || record.key.defect is Some
                || match record.settled {
                None => true,
                Some(Ok(receipt)) => !(receipt is Stop),
                Some(Err(failure)) => failure.disposition != CommandDisposition::Unknown
                    || encode_utf8(failure.error.message@).len() as usize > 4096,
            })),
{
    let runs = registry@.runs;
    let i = choose|i: int|
        0 <= i < runs.len() && (#[trigger] runs[i]).stop is Some
            && crate::daemon::ledger::exported_stop(runs[i]) == Err::<
            HandoffStopOperation,
            Seq<char>,
        >(message@);
    assert(runs[i].stop is Some);
}

/// Whether a Stop can be restored: its Run is retained here and has none.
pub open spec fn has_its_run(
    registry: RegistryView,
    operations: Seq<HandoffStopOperation>,
    k: int,
) -> bool {
    exists|i: int|
        0 <= i < registry.runs.len() && (#[trigger] registry.runs[i]).facts.id
            == operations[k].run_id && registry.runs[i].stop is None
}

proof fn lemma_sound_stops_can_be_restored(
    registry: RegistryView,
    operations: Seq<HandoffStopOperation>,
    count: int,
)
    requires
        registry.valid(),
        0 <= count <= operations.len(),
        forall|k: int| 0 <= k < count ==> #[trigger] stop_is_sound(operations, k),
        forall|k: int| 0 <= k < count ==> #[trigger] has_its_run(registry, operations, k),
    ensures
        restores_defect(registry, operations, count) is None,
    decreases count,
{
    if count > 0 {
        lemma_sound_stops_can_be_restored(registry, operations, count - 1);
        assert(stop_is_sound(operations, count - 1));
        assert(has_its_run(registry, operations, count - 1));
        let i = choose|i: int|
            0 <= i < registry.runs.len() && (#[trigger] registry.runs[i]).facts.id
                == operations[count - 1].run_id && registry.runs[i].stop is None;
        lemma_place_of(registry, operations[count - 1].run_id, i);
    }
}

/// Stops that are sound and whose Runs are here without one are all restored.
pub proof fn law_sound_stops_are_restored(
    registry: &mut RunRegistry,
    operations: Vec<HandoffStopOperation>,
    r: Result<(), ProtocolError>,
)
    requires
        old(registry)@.valid(),
        forall|k: int| 0 <= k < operations@.len() ==> #[trigger] stop_is_sound(operations@, k),
        forall|k: int|
            0 <= k < operations@.len() ==> #[trigger] has_its_run(
                old(registry)@,
                operations@,
                k,
            ),
        call_ensures(RunRegistry::restore_handoff_stop_operations, (registry, operations), r),
    ensures
        r is Ok,
{
    lemma_sound_stops_can_be_restored(
        old(registry)@,
        operations@,
        operations@.len() as int,
    );
}

} // verus!
