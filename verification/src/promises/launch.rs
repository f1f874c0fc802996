//! How Runs are started, imported and adopted again.

use vstd::prelude::*;

use crate::daemon::launch::{
    exit_state, failed_import_cleanup_timeout, finish_tmux_import, import_tmux, judge_readiness,
    readopt, reject_child, spawn_with_hooks, FailedImport, ImportOutcome, ImportStage, ImportStep,
    LaunchStage, LaunchStep, NativeLaunch, Readiness, ReadoptStage, ReadoptStep, ReapRecord,
    StageOutcome,
};
use crate::daemon::run::{PersistenceMode, RunControl};
use crate::identity::RunId;
use crate::promises::creation::{executes, law_the_content_is_the_whole_specification};
use crate::protocol::{ErrorCode, ProtocolError, RunLineage, RunSpec, RunState};

verus! {

/// A launch is of what was given, begins by opening the terminal and is refused
/// exactly where the program is empty or the terminal has no size.
pub proof fn law_a_launch_is_of_what_was_given(
    id: RunId,
    spec: RunSpec,
    lineage: Option<RunLineage>,
    mode: PersistenceMode,
    r: Result<NativeLaunch, ProtocolError>,
)
    requires
        call_ensures(NativeLaunch::new, (id, spec, lineage, mode), r),
    ensures
        r is Ok <==> spec.program@.len() > 0 && spec.size.cols > 0 && spec.size.rows > 0,
        r matches Ok(launch) ==> launch.id == id && launch.spec == spec && launch.lineage == lineage
            && launch.mode == mode && launch.pid is None && launch.stage is OpenPty,
        r matches Err(error) ==> error.code == ErrorCode::InvalidRequest,
{
}

/// The stages of a launch come in one order, and nothing of what is launched
/// changes on the way; the identity of the child is the one that was found.
pub proof fn law_launch_stages_come_in_order(
    launch: NativeLaunch,
    outcome: StageOutcome,
    next: NativeLaunch,
)
    requires
        call_ensures(spawn_with_hooks, (launch, outcome), LaunchStep::Perform(next)),
    ensures
        outcome is Done || outcome is Child,
        next.id == launch.id,
        next.spec == launch.spec,
        next.lineage == launch.lineage,
        next.mode == launch.mode,
        next.pid == (match outcome {
            StageOutcome::Child(pid) => Some(pid),
            _ => launch.pid,
        }),
        match launch.stage {
            LaunchStage::OpenPty => next.stage is SetupCloneReader,
            LaunchStage::SetupCloneReader => next.stage is IdentifyReader,
            LaunchStage::IdentifyReader => next.stage is CloneReader,
            LaunchStage::CloneReader => next.stage is SetupTakeWriter,
            LaunchStage::SetupTakeWriter => next.stage is TakeWriter,
            LaunchStage::TakeWriter => next.stage is SpawnChild,
            LaunchStage::SpawnChild => next.stage is IdentifyChild,
            LaunchStage::IdentifyChild => next.stage is IdentifySession,
            LaunchStage::IdentifySession => next.stage is SetupRegisterWaitOwner,
            LaunchStage::SetupRegisterWaitOwner => next.stage is SetupRegisterOutputOwner,
            LaunchStage::SetupRegisterOutputOwner => next.stage is RegisterOwner,
            LaunchStage::RegisterOwner => false,
            LaunchStage::Launched => false,
        },
{
}

/// A launched Run is the one that was to be launched: running, native, without
/// output, with its child's identity, executing its specification. It comes
/// only out of the registration of its owner.
pub proof fn law_a_launched_run_is_what_was_launched(
    launch: NativeLaunch,
    outcome: StageOutcome,
    run: crate::daemon::run::Run,
)
    requires
        call_ensures(spawn_with_hooks, (launch, outcome), LaunchStep::Launched(run)),
        outcome is Done,
        !(launch.stage is Launched),
    ensures
        launch.stage is RegisterOwner,
        run@.id == launch.id,
        run@.spec matches Some(content) && executes(launch.spec, content),
        run@.lineage == launch.lineage,
        run@.pid == launch.pid,
        run@.state is Running,
        run@.backend is Native,
        run@.control == Some(RunControl::Native),
        run@.mode == launch.mode,
        run@.binding is Disabled <==> launch.mode == PersistenceMode::MemoryOnly,
        run@.binding is Pending <==> launch.mode == PersistenceMode::PersistentCapable,
        run@.output.chunks.len() == 0 && run@.output.latest == 0 && run@.output.gap is None,
        run@.attachments == 0 && run@.ordinal is None,
        run@.capabilities.input && run@.capabilities.resize && run@.capabilities.stop,
        run@.capabilities.fork_level_a && run@.capabilities.fork_level_b,
{
    law_the_content_is_the_whole_specification(launch.spec);
}

/// A stage that failed ends the launch. A child is killed and reaped exactly
/// where one was started and is not registered yet; its control is told of it
/// exactly where there is one.
pub proof fn law_a_failed_stage_takes_its_child_down(
    launch: NativeLaunch,
    outcome: StageOutcome,
    step: LaunchStep,
)
    requires
        !(outcome is Done),
        !(outcome is Child),
        call_ensures(spawn_with_hooks, (launch, outcome), step),
    ensures
        step matches LaunchStep::Failed { error, disposal } && {
            &&& disposal.reap <==> launch.stage is IdentifyChild || launch.stage is IdentifySession
                || launch.stage is SetupRegisterWaitOwner || launch.stage
                is SetupRegisterOutputOwner || launch.stage is RegisterOwner
            &&& disposal.record <==> launch.stage is SetupRegisterWaitOwner || launch.stage
                is SetupRegisterOutputOwner || launch.stage is RegisterOwner
            &&& disposal.close_control <==> launch.stage is SetupRegisterWaitOwner || launch.stage
                is SetupRegisterOutputOwner
            &&& outcome matches StageOutcome::Rejected(given) ==> error == given
            &&& !(outcome is Rejected) ==> error.code == ErrorCode::SpawnFailed
        },
{
}

/// What a stage does not fail at goes on.
pub proof fn law_a_stage_that_is_done_goes_on(
    launch: NativeLaunch,
    outcome: StageOutcome,
    step: LaunchStep,
)
    requires
        outcome is Done || outcome is Child,
        call_ensures(spawn_with_hooks, (launch, outcome), step),
    ensures
        !(step is Failed),
        step is Launched <==> launch.stage is RegisterOwner || launch.stage is Launched,
{
}

/// A rejected child's end is recorded last, and whether it could be killed
/// before it; nothing is recorded as reaped that was not.
pub proof fn law_a_rejected_child_is_recorded_as_it_went(
    killed: Result<(), String>,
    waited: Result<(), String>,
    records: Vec<ReapRecord>,
)
    requires
        call_ensures(reject_child, (killed, waited), records),
    ensures
        records@.len() == (if killed is Err {
            2int
        } else {
            1int
        }),
        killed is Err ==> records@[0] is CleanupError,
        records@.last() is Reaped <==> waited is Ok,
        records@.last() is WaitError <==> waited is Err,
{
}

/// A re-adoption takes its stages in one order and ends with the registration.
/// Only a failed registration takes the child down.
pub proof fn law_a_readoption_comes_in_order(
    stage: ReadoptStage,
    outcome: Result<(), String>,
    step: ReadoptStep,
)
    requires
        call_ensures(readopt, (stage, outcome), step),
    ensures
        outcome is Ok ==> match stage {
            ReadoptStage::CloneReader => step == ReadoptStep::Perform(ReadoptStage::CloneWriter),
            ReadoptStage::CloneWriter => step == ReadoptStep::Perform(ReadoptStage::AdoptChild),
            ReadoptStage::AdoptChild => step == ReadoptStep::Perform(
                ReadoptStage::IdentifySession,
            ),
            ReadoptStage::IdentifySession => step == ReadoptStep::Perform(
                ReadoptStage::RegisterOwner,
            ),
            ReadoptStage::RegisterOwner => step is Adopted,
        },
        outcome is Err ==> (step matches ReadoptStep::Failed { error, reap } && error.code
            == ErrorCode::SpawnFailed && (reap <==> stage is RegisterOwner)),
{
}

/// An import takes its stages in one order. A failed one gives up the pending
/// publication wherever there is one, and reaps the child where it came back.
pub proof fn law_an_import_comes_in_order(
    stage: ImportStage,
    outcome: ImportOutcome,
    step: ImportStep,
)
    requires
        call_ensures(import_tmux, (stage, outcome), step),
    ensures
        outcome is Done ==> match stage {
            ImportStage::SpawnControl => step == ImportStep::Perform(ImportStage::StartReader),
            ImportStage::StartReader => step == ImportStep::Perform(ImportStage::StartWaiter),
            ImportStage::StartWaiter => step == ImportStep::Perform(ImportStage::HandOffChild),
            _ => step == ImportStep::Perform(ImportStage::AwaitReadiness),
        },
        outcome matches ImportOutcome::Refused(given) ==> (step matches ImportStep::Failed {
            error,
            reap,
            abandon,
        } && error == given && !reap && !abandon),
        outcome is Failed ==> (step matches ImportStep::Failed { error, reap, abandon }
            && error.code == ErrorCode::BackendUnavailable && !reap && abandon),
        outcome is ChildReturned ==> (step matches ImportStep::Failed { error, reap, abandon }
            && error.code == ErrorCode::BackendUnavailable && reap && abandon),
{
}

/// An import is ready exactly where the pane was seen in time; a refusal is
/// returned as it is.
pub proof fn law_an_import_is_ready_in_time_only(
    readiness: Readiness,
    r: Result<(), ProtocolError>,
)
    requires
        call_ensures(judge_readiness, (readiness,), r),
    ensures
        r is Ok <==> readiness == (Readiness::Ready { in_time: true }),
        readiness matches Readiness::Refused(given) ==> (r matches Err(error) && error == given),
        readiness is Ready || readiness is Lost ==> (r matches Err(error) ==> error.code
            == ErrorCode::BackendUnavailable),
{
}

/// The cleanup of a failed import never takes longer than what is left for the
/// import, nor than two seconds, and otherwise as long as it may.
pub proof fn law_a_failed_import_is_cleaned_up_in_time(left: u64, allowed: u64)
    requires
        call_ensures(failed_import_cleanup_timeout, (left,), allowed),
    ensures
        allowed <= left,
        allowed <= 2000,
        allowed == left || allowed == 2000,
{
}

/// A failed import is answered with the category of its failure, and with that
/// failure alone where the cleanup succeeded.
pub proof fn law_a_failed_import_is_answered_with_its_failure(
    failure: ProtocolError,
    cleanup: Result<(), String>,
    r: FailedImport,
)
    requires
        call_ensures(finish_tmux_import, (failure, cleanup), r),
    ensures
        r.error.code == failure.code,
        cleanup is Ok ==> r.error == failure && r.transfer_reason@
            == "tmux import cleanup completed; waiting for worker-owned Run references to settle"@,
        cleanup matches Err(reason) ==> r.transfer_reason@ == "tmux import cleanup failed: "@
            + reason@,
        cleanup matches Err(reason) ==> {
            let text = r.error.message@;
            let first = failure.message@.len() as int;
            &&& text.len() > first + reason@.len()
            &&& text.take(first) == failure.message@
            &&& text.skip(text.len() - reason@.len()) == reason@
        },
{
    if let Err(reason) = cleanup {
        let text = r.error.message@;
        let first = failure.message@.len() as int;
        reveal_strlit("; cleanup failed: ");
        assert(text.take(first) =~= failure.message@);
        assert(text.skip(text.len() - reason@.len()) =~= reason@);
    }
}

/// A child that exited leaves its Run exited, with its code and its signal.
pub proof fn law_an_exited_child_keeps_its_code(code: u32, signal: Option<String>, state: RunState)
    requires
        call_ensures(exit_state, (code, signal), state),
    ensures
        state == (RunState::Exited { code, signal }),
{
}

} // verus!
