//! What happens to a Run between its start and its end.

use vstd::prelude::*;

use crate::daemon::owners::{TerminalOrdinal, TerminalPublicationOwner};
use crate::daemon::registry::RunFacts;
use crate::daemon::run::{
    DurableWork, OwnerCursors, PersistenceBinding, PersistenceMode, RecoveredRun, Run, RunControl,
    RunEffects, RunView,
};
use crate::daemon::tmux_control::{ItemStep, StreamEvent, TmuxObservation};
use crate::identity::RunId;
use crate::output::chunk_views;
use crate::promises::creation::{executes, law_the_content_is_the_whole_specification};
use crate::protocol::{
    CommandDisposition, ControlFailure, ErrorCode, InterruptionReason, ProtocolError, RunBackend,
    RunCapabilities, RunEvent, RunInfo, RunLineage, RunSpec, RunState, TerminalSize, TmuxPaneInfo,
};

verus! {

/// A new native Run is the one that was asked for and has neither output nor
/// readers. It takes every command and can be forked.
pub proof fn law_a_new_native_run_is_what_was_asked_for(
    id: RunId,
    spec: RunSpec,
    lineage: Option<RunLineage>,
    pid: Option<u32>,
    mode: PersistenceMode,
    run: Run,
)
    requires
        call_ensures(Run::new_native, (id, spec, lineage, pid, mode), run),
    ensures
        run@.id == id,
        run@.spec matches Some(content) && executes(spec, content),
        run@.lineage == lineage,
        run@.pid == pid,
        run@.mode == mode,
        run@.state is Running,
        run@.backend is Native,
        run@.control == Some(RunControl::Native),
        run@.output.chunks.len() == 0 && run@.output.latest == 0 && run@.output.gap is None,
        run@.attachments == 0 && !run@.live_ring && run@.ordinal is None,
        run@.binding == (if mode == PersistenceMode::MemoryOnly {
            PersistenceBinding::Disabled
        } else {
            PersistenceBinding::Pending { terminal: None }
        }),
        run@.capabilities.input && run@.capabilities.resize && run@.capabilities.stop,
        run@.capabilities.fork_level_a && run@.capabilities.fork_level_b,
{
    law_the_content_is_the_whole_specification(spec);
}

/// A Run that observes a pane names exactly that pane, takes no command, and
/// says that what was printed before is missing.
pub proof fn law_an_imported_run_names_its_pane(id: RunId, target: TmuxPaneInfo, run: Run)
    requires
        call_ensures(Run::new_tmux, (id, &target), run),
    ensures
        run@.id == id,
        run@.spec is None && run@.lineage is None,
        run@.pid == Some(target.pane_pid),
        run@.backend matches RunBackend::Tmux {
            socket_path,
            server_pid,
            server_started_at,
            session_id,
            window_id,
            pane_id,
            tmux_version,
        } && socket_path@ == target.socket_path@ && server_pid == target.server_pid
            && server_started_at == target.server_started_at && session_id@ == target.session_id@
            && window_id@ == target.window_id@ && pane_id@ == target.pane_id@ && tmux_version@
            == target.tmux_version@,
        run@.control == Some(RunControl::Tmux),
        run@.state is Running,
        run@.mode == PersistenceMode::MemoryOnly && run@.binding is Disabled,
        run@.output.chunks.len() == 0 && run@.output.latest == 0 && run@.output.gap == Some(0u64),
        run@.attachments == 0 && run@.ordinal is None,
        !run@.capabilities.input && !run@.capabilities.resize && !run@.capabilities.stop,
        !run@.capabilities.fork_level_a && !run@.capabilities.fork_level_b,
{
}

/// A Run of an earlier incarnation comes back as its record has it. It has
/// ended: what was running then was interrupted by the restart. It takes the
/// next place in the order of endings.
pub proof fn law_a_recovered_run_is_as_recorded(
    recovered: RecoveredRun,
    publications: &mut TerminalPublicationOwner,
    run: Run,
)
    requires
        call_ensures(Run::recover, (recovered, publications), run),
    ensures
        run@.id == recovered.info.id,
        recovered.info.spec is Some == run@.spec is Some,
        recovered.info.spec matches Some(spec) ==> executes(spec, run@.spec->Some_0),
        run@.lineage == recovered.info.lineage,
        run@.backend == recovered.info.backend,
        run@.capabilities == recovered.info.capabilities,
        run@.pid == recovered.info.pid,
        run@.state == (if recovered.info.state is Running {
            RunState::Interrupted { reason: InterruptionReason::DaemonRestart }
        } else {
            recovered.info.state
        }),
        run@.output.chunks == chunk_views(recovered.replay.chunks@),
        run@.output.latest == recovered.replay.latest_output_bytes,
        run@.control is None,
        run@.mode == PersistenceMode::PersistentCapable && run@.binding is Active,
        run@.attachments == 0,
        final(publications)@ == old(publications)@ + 1,
        run@.ordinal == Some(TerminalOrdinal { number: final(publications)@ }),
{
    if let Some(spec) = recovered.info.spec {
        law_the_content_is_the_whole_specification(spec);
    }
}

/// A Run whose child outlived an upgrade goes on as its record has it, with
/// native control of that child.
pub proof fn law_a_readopted_run_goes_on(recovered: RecoveredRun, child_pid: u32, run: Run)
    requires
        call_ensures(Run::readopt, (recovered, child_pid), run),
    ensures
        run@.id == recovered.info.id,
        recovered.info.spec is Some == run@.spec is Some,
        recovered.info.spec matches Some(spec) ==> executes(spec, run@.spec->Some_0),
        run@.lineage == recovered.info.lineage,
        run@.backend == recovered.info.backend,
        run@.capabilities == recovered.info.capabilities,
        run@.pid == Some(child_pid),
        run@.state == recovered.info.state,
        run@.output.chunks == chunk_views(recovered.replay.chunks@),
        run@.output.latest == recovered.replay.latest_output_bytes,
        run@.control == Some(RunControl::Native),
        run@.mode == PersistenceMode::PersistentCapable && run@.binding is Active,
        run@.attachments == 0 && run@.ordinal is None,
{
    if let Some(spec) = recovered.info.spec {
        law_the_content_is_the_whole_specification(spec);
    }
}

/// A Run is described as it is. Input that was applied is told of native Runs
/// only, durable output only of those whose record was committed.
pub proof fn law_a_run_is_described_as_it_is(run: Run, cursors: OwnerCursors, info: RunInfo)
    requires
        call_ensures(Run::info, (&run, cursors), info),
    ensures
        info.id == run@.id,
        info.spec is Some == run@.spec is Some,
        info.spec matches Some(spec) ==> executes(spec, run@.spec->Some_0),
        info.lineage == run@.lineage,
        info.backend == run@.backend,
        info.capabilities == run@.capabilities,
        info.pid == run@.pid,
        info.state == run@.state,
        info.latest_output_bytes == run@.output.latest,
        info.attachments == run@.attachments,
        info.first_available_byte == (if run@.output.chunks.len() > 0 {
            run@.output.chunks[0].start_byte
        } else {
            0
        }),
        match run@.control {
            Some(RunControl::Native) => info.applied_input_bytes == Some(
                cursors.applied_input_bytes,
            ),
            _ => info.applied_input_bytes is None,
        },
        match run@.binding {
            PersistenceBinding::CommittedPendingActivation { .. } | PersistenceBinding::Active =>
                info.durable_output_bytes == Some(cursors.durable_output_bytes),
            _ => info.durable_output_bytes is None,
        },
{
    if let Some(spec) = info.spec {
        law_the_content_is_the_whole_specification(spec);
    }
}

/// The readers of a Run are counted. The first opens the ring of live events,
/// the last takes it away, and a reader that comes and goes changes nothing.
pub proof fn law_readers_are_counted(run: &mut Run, opened: bool)
    requires
        call_ensures(Run::subscribe, (run,), opened),
    ensures
        final(run)@ == (RunView {
            attachments: old(run)@.attachments + 1,
            live_ring: true,
            ..old(run)@
        }),
        opened == !old(run)@.live_ring,
{
}

/// A reader that leaves is counted off; the last one takes the ring away.
pub proof fn law_a_leaving_reader_is_counted_off(run: &mut Run, dropped: bool)
    requires
        old(run)@.attachments > 0,
        call_ensures(Run::release, (run,), dropped),
    ensures
        final(run)@ == (RunView {
            attachments: (old(run)@.attachments - 1) as nat,
            live_ring: old(run)@.attachments > 1,
            ..old(run)@
        }),
        dropped <==> final(run)@.attachments == 0,
{
}

/// An event reaches live readers unchanged, and nobody where there are none.
pub proof fn law_events_reach_live_readers(run: Run, event: RunEvent, r: Option<RunEvent>)
    requires
        call_ensures(Run::publish_event, (&run, event), r),
    ensures
        run@.attachments > 0 ==> r == Some(event),
        run@.attachments == 0 ==> r is None,
{
}

/// The end of a Run without a durable record, or with an active one, becomes
/// visible: its state is that end, it takes the next place in the order of
/// endings, and live readers are told. An active record is finalized with all
/// retained output and that end.
pub proof fn law_an_end_becomes_visible(
    run: &mut Run,
    terminal: RunState,
    publications: &mut TerminalPublicationOwner,
    effects: RunEffects,
)
    requires
        old(publications)@ < u64::MAX,
        old(run)@.binding is Disabled || old(run)@.binding is Active,
        call_ensures(Run::publish_terminal, (run, terminal, publications), effects),
    ensures
        final(publications)@ == old(publications)@ + 1,
        final(run)@ == (RunView {
            state: terminal,
            ordinal: Some(TerminalOrdinal { number: final(publications)@ }),
            ..old(run)@
        }),
        effects.event == (if old(run)@.attachments > 0 {
            Some(RunEvent::Exited { state: terminal })
        } else {
            None
        }),
        old(run)@.binding is Disabled ==> effects.durable is None,
        old(run)@.binding is Active ==> (effects.durable matches Some(
            DurableWork::Finalize { pid, replay, state },
        ) && state == terminal && old(run)@.pid == Some(pid) && old(run)@.output.replays(
            0,
            replay,
        )),
{
}

/// An end that comes before the durable record is active is held: nothing of
/// it is seen, it takes no place, and nobody is told yet.
pub proof fn law_an_early_end_is_held(
    run: &mut Run,
    terminal: RunState,
    publications: &mut TerminalPublicationOwner,
    effects: RunEffects,
)
    requires
        !(old(run)@.binding is Disabled),
        !(old(run)@.binding is Active),
        call_ensures(Run::publish_terminal, (run, terminal, publications), effects),
    ensures
        final(publications)@ == old(publications)@,
        effects.durable is None && effects.event is None,
        final(run)@ == (RunView { binding: final(run)@.binding, ..old(run)@ }),
        match old(run)@.binding {
            PersistenceBinding::Pending { .. } => final(run)@.binding
                == (PersistenceBinding::Pending { terminal: Some(terminal) }),
            _ => final(run)@.binding == (PersistenceBinding::CommittedPendingActivation {
                terminal: Some(terminal),
            }),
        },
{
}

/// A Run whose backend was lost is interrupted for that reason, takes the next
/// place in the order of endings, and its live readers are told.
pub proof fn law_a_lost_backend_interrupts_the_run(
    run: &mut Run,
    reason: InterruptionReason,
    publications: &mut TerminalPublicationOwner,
    event: Option<RunEvent>,
)
    requires
        call_ensures(Run::publish_interrupted, (run, reason, publications), event),
    ensures
        final(publications)@ == old(publications)@ + 1,
        final(run)@ == (RunView {
            state: RunState::Interrupted { reason },
            ordinal: Some(TerminalOrdinal { number: final(publications)@ }),
            ..old(run)@
        }),
        event == (if old(run)@.attachments > 0 {
            Some(RunEvent::Interrupted { reason })
        } else {
            None
        }),
{
}

/// Binding a committed record keeps the end that is held and changes nothing
/// else.
pub proof fn law_a_commit_keeps_what_is_held(run: &mut Run)
    requires
        old(run)@.binding is Pending,
        call_ensures(Run::install_committed_persistence, (run,), ()),
    ensures
        final(run)@ == (RunView {
            binding: PersistenceBinding::CommittedPendingActivation {
                terminal: old(run)@.binding->Pending_terminal,
            },
            ..old(run)@
        }),
{
}

/// With its activation a record gets all output so far, and an end that was
/// held becomes visible: the record is finalized with it and readers are told.
pub proof fn law_activation_brings_what_was_held(
    run: &mut Run,
    publications: &mut TerminalPublicationOwner,
    effects: RunEffects,
)
    requires
        old(publications)@ < u64::MAX,
        old(run)@.binding is CommittedPendingActivation,
        call_ensures(
            Run::activate_persistence_after_publication,
            (run, publications),
            effects,
        ),
    ensures
        match old(run)@.binding->CommittedPendingActivation_terminal {
            None => {
                &&& final(run)@ == (RunView { binding: PersistenceBinding::Active, ..old(run)@ })
                &&& final(publications)@ == old(publications)@
                &&& effects.event is None
                &&& effects.durable matches Some(DurableWork::Append { replay }) && old(
                    run,
                )@.output.replays(0, replay)
            },
            Some(terminal) => {
                &&& final(run)@ == (RunView {
                    binding: PersistenceBinding::Active,
                    state: terminal,
                    ordinal: Some(TerminalOrdinal { number: final(publications)@ }),
                    ..old(run)@
                })
                &&& final(publications)@ == old(publications)@ + 1
                &&& effects.event == (if old(run)@.attachments > 0 {
                    Some(RunEvent::Exited { state: terminal })
                } else {
                    None
                })
                &&& effects.durable matches Some(DurableWork::Finalize { pid, replay, state })
                    && state == terminal && old(run)@.pid == Some(pid) && old(
                    run,
                )@.output.replays(0, replay)
            },
        },
{
}

/// Only a Run with native control takes a command; a tmux Run does not support
/// it, and a Run of an earlier incarnation is past it. A refused command was
/// not applied.
pub proof fn law_only_native_control_takes_commands(
    run: Run,
    control: Result<(), ProtocolError>,
    begun: Result<(), ControlFailure>,
)
    requires
        call_ensures(Run::native_control, (&run,), control),
        call_ensures(Run::begin_control, (&run,), begun),
    ensures
        control is Ok <==> run@.control == Some(RunControl::Native),
        begun is Ok <==> run@.control == Some(RunControl::Native),
        control matches Err(error) ==> error.code == (if run@.control is Some {
            ErrorCode::UnsupportedCapability
        } else {
            ErrorCode::InvalidRunState
        }),
        begun matches Err(failure) ==> failure.disposition == CommandDisposition::NotApplied
            && failure.error.code == (if run@.control is Some {
            ErrorCode::UnsupportedCapability
        } else {
            ErrorCode::InvalidRunState
        }),
{
}

/// A Resize needs a size and native control; the size is judged first.
pub proof fn law_a_resize_needs_a_size_and_control(
    run: Run,
    size: TerminalSize,
    begun: Result<(), ControlFailure>,
)
    requires
        call_ensures(Run::begin_resize, (&run, size), begun),
    ensures
        begun is Ok <==> size.cols > 0 && size.rows > 0 && run@.control == Some(RunControl::Native),
        begun matches Err(failure) ==> failure.disposition == CommandDisposition::NotApplied && (
        size.cols == 0 || size.rows == 0 ==> failure.error.code == ErrorCode::InvalidRequest),
{
}

/// Only a native Run whose control goes on outlives an upgrade.
pub proof fn law_only_native_control_outlives_an_upgrade(run: Run, continues: bool, r: bool)
    requires
        call_ensures(Run::has_continuation_authority, (&run, continues), r),
    ensures
        r <==> run@.control == Some(RunControl::Native) && continues,
{
}

/// A Run may be collected only once it ended, nobody reads it and its backend
/// is quiescent; then by its place in the order of endings. A durable Run of an
/// earlier incarnation has no backend left to wait for.
pub proof fn law_only_an_ended_unread_run_is_collected(
    run: Run,
    quiescent: bool,
    place: Option<TerminalOrdinal>,
)
    requires
        run.wf(),
        call_ensures(Run::collection_ordinal, (&run, quiescent), place),
    ensures
        place is Some ==> !(run@.state is Running) && run@.attachments == 0 && place
            == run@.ordinal,
        place is Some && run@.control is Some ==> quiescent,
        place is Some && run@.control is None ==> run@.mode == PersistenceMode::PersistentCapable,
        run@.attachments == 0 && run@.ordinal is Some && run@.control is Some && quiescent
            ==> place == run@.ordinal,
        run@.attachments == 0 && run@.ordinal is Some && run@.control is None && run@.mode
            == PersistenceMode::PersistentCapable ==> place == run@.ordinal,
{
    run.lemma_wf_is_valid();
}

/// Descriptors are given up by native Runs only, and only where the backend is
/// quiescent; a Run without record or backend has nobody to collect it.
pub proof fn law_only_a_quiescent_backend_is_detached(
    run: Run,
    backend: Result<(), String>,
    r: Result<bool, String>,
)
    requires
        call_ensures(Run::detach_collection_descriptors, (&run, backend), r),
    ensures
        run@.control is Some && backend is Err ==> (r matches Err(reason) && reason
            == backend->Err_0),
        run@.control is Some && backend is Ok ==> (r matches Ok(native) && (native <==> run@.control
            == Some(RunControl::Native))),
        run@.control is None ==> (r is Ok <==> run@.mode == PersistenceMode::PersistentCapable),
        run@.control is None ==> (r matches Ok(native) ==> !native),
{
}

/// An unpublished native Run is gone exactly where its control says so and
/// nothing else refers to it.
pub proof fn law_an_unpublished_run_is_gone_without_owners(
    run: Run,
    control: Result<(), String>,
    owners: u64,
    r: Result<(), String>,
)
    requires
        call_ensures(Run::unpublished_cleanup_result, (&run, control, owners), r),
    ensures
        r is Ok <==> run@.control == Some(RunControl::Native) && control is Ok && owners == 1,
        run@.control == Some(RunControl::Native) && control is Err ==> r->Err_0
            == control->Err_0,
{
}

/// An unpublished import is gone exactly where its tmux control says so.
pub proof fn law_an_unpublished_import_is_gone_with_its_control(
    run: Run,
    control: Result<(), String>,
    r: Result<(), String>,
)
    requires
        call_ensures(Run::tmux_unpublished_cleanup_result, (&run, control), r),
    ensures
        run@.control == Some(RunControl::Tmux) ==> r == control,
        run@.control != Some(RunControl::Tmux) ==> r is Err,
{
}

/// What the registry knows of a Run is what the Run is.
pub proof fn law_the_registry_knows_the_run(
    run: Run,
    shared: bool,
    quiescent: bool,
    wait_failure: Option<String>,
    facts: RunFacts,
    place: Option<TerminalOrdinal>,
)
    requires
        run.wf(),
        call_ensures(Run::facts, (&run, shared, quiescent, wait_failure), facts),
        call_ensures(Run::collection_ordinal, (&run, quiescent), place),
    ensures
        facts.id == run@.id,
        facts.spec is Some == run@.spec is Some,
        facts.spec matches Some(spec) ==> executes(spec, run@.spec->Some_0),
        facts.lineage == run@.lineage,
        facts.running == run@.state is Running,
        facts.shared == shared,
        facts.tmux_controlled <==> run@.control == Some(RunControl::Tmux),
        run@.control == Some(RunControl::Native) ==> facts.wait_failure == wait_failure,
        run@.control != Some(RunControl::Native) ==> facts.wait_failure is None,
        facts.ordinal == place,
        facts.ordinal is Some ==> facts.ordinal == run@.ordinal && !facts.running
            && run@.attachments == 0,
{
    run.lemma_wf_is_valid();
    if let Some(spec) = facts.spec {
        law_the_content_is_the_whole_specification(spec);
    }
}

/// What a tmux client prints changes nothing of its Run but the output.
pub proof fn law_observing_changes_only_the_output(
    run: &mut Run,
    observation: &mut TmuxObservation,
    seen: StreamEvent,
    probe_command: String,
    step: ItemStep,
)
    requires
        call_ensures(Run::observe_tmux, (run, observation, seen, probe_command), step),
    ensures
        final(run)@ == (RunView { output: final(run)@.output, ..old(run)@ }),
        !(seen is Item) ==> final(run)@ == old(run)@ && final(observation)@ == old(observation)@
            && step.events@.len() == 0,
{
}

/// A lost stretch of output is marked at the end of what there is.
pub proof fn law_a_gap_is_marked_at_the_end(run: &mut Run, latest: u64)
    requires
        call_ensures(Run::mark_output_source_gap, (run,), latest),
    ensures
        latest == old(run)@.output.latest,
        final(run)@.output.gap == Some(latest),
        final(run)@.output.chunks == old(run)@.output.chunks,
        final(run)@.output.latest == old(run)@.output.latest,
        final(run)@ == (RunView { output: final(run)@.output, ..old(run)@ }),
{
}

/// A Run tells its identity, its capabilities and its specification as they are.
pub proof fn law_a_run_tells_what_it_is(
    run: Run,
    id: RunId,
    capabilities: RunCapabilities,
    spec: Option<RunSpec>,
)
    requires
        call_ensures(Run::id, (&run,), id),
        call_ensures(Run::capabilities, (&run,), capabilities),
        call_ensures(Run::spec, (&run,), spec),
    ensures
        id == run@.id,
        capabilities == run@.capabilities,
        spec is Some == run@.spec is Some,
        spec matches Some(told) ==> executes(told, run@.spec->Some_0),
{
    if let Some(told) = spec {
        law_the_content_is_the_whole_specification(told);
    }
}

} // verus!
