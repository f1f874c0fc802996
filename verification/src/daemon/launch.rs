//! Starting, importing and re-adopting Runs: the order of the steps, what each
//! failure says, and what has to be undone when one fails.

use vstd::prelude::*;

use crate::daemon::run::{PersistenceMode, Run, RunView};
use crate::daemon::tmux_control::{
    backend_protocol_error, failed_to, failed_to_text, TMUX_FAILED_IMPORT_CLEANUP_TIMEOUT,
};
use crate::identity::RunId;
use crate::protocol::{
    protocol_error, ErrorCode, ProtocolError, RunLineage, RunSpec, RunState,
};
use crate::run_spec::{spec_defect, validate_run_spec};
use crate::text::{joined, joined3, owned};

verus! {

/// A failure to start a Run.
pub fn spawn_error(action: &str, error: &str) -> (r: ProtocolError)
    ensures
        r.says(ErrorCode::SpawnFailed, failed_to(action@, error@)),
{
    ProtocolError { code: ErrorCode::SpawnFailed, message: failed_to_text(action, error) }
}

/// The state of a Run whose child exited.
pub fn exit_state(code: u32, signal: Option<String>) -> (r: RunState)
    ensures
        r == (RunState::Exited { code, signal }),
{
    RunState::Exited { code, signal }
}

/// One step of a native launch. The `Setup` steps do nothing of their own: at
/// each of them the launch may be rejected from outside.
#[derive(Debug, Clone, Copy, PartialEq, Eq, Structural)]
pub enum LaunchStage {
    OpenPty,
    SetupCloneReader,
    IdentifyReader,
    CloneReader,
    SetupTakeWriter,
    TakeWriter,
    SpawnChild,
    IdentifyChild,
    IdentifySession,
    SetupRegisterWaitOwner,
    SetupRegisterOutputOwner,
    RegisterOwner,
    Launched,
}

impl LaunchStage {
    /// The stage after this one.
    pub open spec fn following(&self) -> LaunchStage {
        match *self {
            LaunchStage::OpenPty => LaunchStage::SetupCloneReader,
            LaunchStage::SetupCloneReader => LaunchStage::IdentifyReader,
            LaunchStage::IdentifyReader => LaunchStage::CloneReader,
            LaunchStage::CloneReader => LaunchStage::SetupTakeWriter,
            LaunchStage::SetupTakeWriter => LaunchStage::TakeWriter,
            LaunchStage::TakeWriter => LaunchStage::SpawnChild,
            LaunchStage::SpawnChild => LaunchStage::IdentifyChild,
            LaunchStage::IdentifyChild => LaunchStage::IdentifySession,
            LaunchStage::IdentifySession => LaunchStage::SetupRegisterWaitOwner,
            LaunchStage::SetupRegisterWaitOwner => LaunchStage::SetupRegisterOutputOwner,
            LaunchStage::SetupRegisterOutputOwner => LaunchStage::RegisterOwner,
            LaunchStage::RegisterOwner => LaunchStage::Launched,
            LaunchStage::Launched => LaunchStage::Launched,
        }
    }

    /// How many stages are left.
    pub open spec fn remaining(&self) -> nat {
        match *self {
            LaunchStage::OpenPty => 12,
            LaunchStage::SetupCloneReader => 11,
            LaunchStage::IdentifyReader => 10,
            LaunchStage::CloneReader => 9,
            LaunchStage::SetupTakeWriter => 8,
            LaunchStage::TakeWriter => 7,
            LaunchStage::SpawnChild => 6,
            LaunchStage::IdentifyChild => 5,
            LaunchStage::IdentifySession => 4,
            LaunchStage::SetupRegisterWaitOwner => 3,
            LaunchStage::SetupRegisterOutputOwner => 2,
            LaunchStage::RegisterOwner => 1,
            LaunchStage::Launched => 0,
        }
    }

    /// Whether the launch itself owns a child at this stage.
    pub open spec fn owns_child(&self) -> bool {
        0 < self.remaining() < LaunchStage::SpawnChild.remaining()
    }

    /// Whether the native control exists at this stage.
    pub open spec fn has_control(&self) -> bool {
        0 < self.remaining() < LaunchStage::IdentifySession.remaining()
    }

    /// What the daemon does at this stage.
    pub open spec fn action(&self) -> Seq<char> {
        match *self {
            LaunchStage::OpenPty => "open PTY"@,
            LaunchStage::IdentifyReader => "identify PTY reader"@,
            LaunchStage::CloneReader => "clone PTY reader"@,
            LaunchStage::TakeWriter => "take PTY writer"@,
            LaunchStage::SpawnChild => "spawn child"@,
            LaunchStage::IdentifyChild => "identify native session"@,
            LaunchStage::IdentifySession => "identify native session"@,
            LaunchStage::RegisterOwner => "register native Run owner"@,
            _ => ""@,
        }
    }

    /// Whether this stage only gives others the chance to reject the launch.
    pub open spec fn is_setup(&self) -> bool {
        self is SetupCloneReader || self is SetupTakeWriter || self is SetupRegisterWaitOwner
            || self is SetupRegisterOutputOwner
    }
}

/// How a stage came out.
#[derive(Debug, PartialEq, Eq)]
pub enum StageOutcome {
    Done,
    /// The child has this process identity.
    Child(u32),
    /// What the stage looks for does not exist.
    Missing,
    /// The work of the stage failed with this error.
    Failed(String),
    /// The launch was rejected at a setup stage.
    Rejected(ProtocolError),
}

/// Whether a stage can come out this way.
pub open spec fn outcome_possible(stage: LaunchStage, outcome: StageOutcome) -> bool {
    match outcome {
        StageOutcome::Done => !(stage is IdentifyChild),
        StageOutcome::Child(_) => stage is IdentifyChild,
        StageOutcome::Missing => stage is IdentifyReader || stage is IdentifyChild,
        StageOutcome::Failed(_) => !(stage is IdentifyReader) && !(stage is IdentifyChild)
            && !stage.is_setup(),
        StageOutcome::Rejected(_) => stage.is_setup(),
    }
}

/// What a native launch starts from, and how far it is.
#[derive(Debug, PartialEq, Eq)]
pub struct NativeLaunch {
    pub stage: LaunchStage,
    pub id: RunId,
    pub spec: RunSpec,
    pub lineage: Option<RunLineage>,
    pub mode: PersistenceMode,
    pub pid: Option<u32>,
}

impl NativeLaunch {
    /// A launch before its first stage. A specification that cannot be
    /// executed is refused before anything is opened.
    pub fn new(
        id: RunId,
        spec: RunSpec,
        lineage: Option<RunLineage>,
        mode: PersistenceMode,
    ) -> (r: Result<NativeLaunch, ProtocolError>)
        ensures
            match spec_defect(spec@) {
                Some(defect) => r matches Err(e) && e.says(ErrorCode::InvalidRequest, defect),
                None => r matches Ok(launch) && launch.valid() && launch == (NativeLaunch {
                    stage: LaunchStage::OpenPty,
                    id,
                    spec,
                    lineage,
                    mode,
                    pid: None,
                }),
            },
    {
        if let Err(message) = validate_run_spec(&spec) {
            return Err(ProtocolError { code: ErrorCode::InvalidRequest, message });
        }
        Ok(NativeLaunch { stage: LaunchStage::OpenPty, id, spec, lineage, mode, pid: None })
    }

    /// The identity of the child is known once it was looked up.
    pub open spec fn valid(&self) -> bool {
        &&& !(self.stage is Launched)
        &&& self.stage.remaining() <= LaunchStage::IdentifySession.remaining() ==> self.pid is Some
    }
}

/// What has to happen to the child of a launch that failed.
#[derive(Debug, Clone, Copy, PartialEq, Eq, Structural)]
pub struct ChildDisposal {
    /// Mark the native control closed first.
    pub close_control: bool,
    /// Kill and reap the child.
    pub reap: bool,
    /// Record the outcome at the native control.
    pub record: bool,
}

/// What comes after one stage of a launch.
pub enum LaunchStep {
    /// Perform the stage that the launch has reached.
    Perform(NativeLaunch),
    /// The child belongs to its registered owner, and this is its Run.
    Launched(Run),
    /// Give up, after this disposal.
    Failed { error: ProtocolError, disposal: ChildDisposal },
}

/// What a native launch does after the outcome of one stage.
pub open spec fn launch_next(launch: NativeLaunch, outcome: StageOutcome, step: LaunchStep)
 -> bool {
    let stage = launch.stage;
    let pid = match outcome {
        StageOutcome::Child(pid) => Some(pid),
        _ => launch.pid,
    };
    if outcome is Done || outcome is Child {
        if stage.following() is Launched {
            step matches LaunchStep::Launched(run) && run.wf() && RunView::launched(
                launch.id,
                launch.spec,
                launch.lineage,
                pid,
                launch.mode,
                run@,
            )
        } else {
            step == LaunchStep::Perform(NativeLaunch { stage: stage.following(), pid, ..launch })
        }
    } else {
        step matches LaunchStep::Failed { error, disposal } && disposal == (ChildDisposal {
            close_control: stage is SetupRegisterWaitOwner || stage is SetupRegisterOutputOwner,
            reap: stage.owns_child(),
            record: stage.has_control(),
        }) && match outcome {
            StageOutcome::Rejected(given) => error == given,
            StageOutcome::Failed(message) => error.says(
                ErrorCode::SpawnFailed,
                failed_to(stage.action(), message@),
            ),
            _ => error.says(
                ErrorCode::SpawnFailed,
                failed_to(
                    stage.action(),
                    if stage is IdentifyReader {
                        "native PTY master does not expose a raw descriptor"@
                    } else {
                        "child PID is unavailable"@
                    },
                ),
            ),
        }
    }
}

fn launch_action(stage: LaunchStage) -> (r: &'static str)
    ensures
        r@ == stage.action(),
{
    match stage {
        LaunchStage::OpenPty => "open PTY",
        LaunchStage::IdentifyReader => "identify PTY reader",
        LaunchStage::CloneReader => "clone PTY reader",
        LaunchStage::TakeWriter => "take PTY writer",
        LaunchStage::SpawnChild => "spawn child",
        LaunchStage::IdentifyChild => "identify native session",
        LaunchStage::IdentifySession => "identify native session",
        LaunchStage::RegisterOwner => "register native Run owner",
        _ => "",
    }
}

fn next_stage(stage: LaunchStage) -> (r: LaunchStage)
    ensures
        r == stage.following(),
{
    match stage {
        LaunchStage::OpenPty => LaunchStage::SetupCloneReader,
        LaunchStage::SetupCloneReader => LaunchStage::IdentifyReader,
        LaunchStage::IdentifyReader => LaunchStage::CloneReader,
        LaunchStage::CloneReader => LaunchStage::SetupTakeWriter,
        LaunchStage::SetupTakeWriter => LaunchStage::TakeWriter,
        LaunchStage::TakeWriter => LaunchStage::SpawnChild,
        LaunchStage::SpawnChild => LaunchStage::IdentifyChild,
        LaunchStage::IdentifyChild => LaunchStage::IdentifySession,
        LaunchStage::IdentifySession => LaunchStage::SetupRegisterWaitOwner,
        LaunchStage::SetupRegisterWaitOwner => LaunchStage::SetupRegisterOutputOwner,
        LaunchStage::SetupRegisterOutputOwner => LaunchStage::RegisterOwner,
        LaunchStage::RegisterOwner => LaunchStage::Launched,
        LaunchStage::Launched => LaunchStage::Launched,
    }
}

fn disposal_at(stage: LaunchStage) -> (r: ChildDisposal)
    ensures
        r == (ChildDisposal {
            close_control: stage is SetupRegisterWaitOwner || stage is SetupRegisterOutputOwner,
            reap: stage.owns_child(),
            record: stage.has_control(),
        }),
{
    let (close_control, reap, record) = match stage {
        LaunchStage::IdentifyChild | LaunchStage::IdentifySession => (false, true, false),
        LaunchStage::SetupRegisterWaitOwner | LaunchStage::SetupRegisterOutputOwner => (
            true,
            true,
            true,
        ),
        LaunchStage::RegisterOwner => (false, true, true),
        _ => (false, false, false),
    };
    ChildDisposal { close_control, reap, record }
}

/// Carry on with a native launch after one stage. The stages come in one
/// order; every stage before the child can fail without leaving anything, and
/// every later one takes the child down with it.
pub fn spawn_with_hooks(launch: NativeLaunch, outcome: StageOutcome) -> (r: LaunchStep)
    requires
        launch.valid(),
        outcome_possible(launch.stage, outcome),
    ensures
        launch_next(launch, outcome, r),
        r matches LaunchStep::Perform(next) ==> next.valid(),
{
    let stage = launch.stage;
    let (pid, error) = match outcome {
        StageOutcome::Done => (launch.pid, None),
        StageOutcome::Child(pid) => (Some(pid), None),
        StageOutcome::Rejected(error) => (None, Some(error)),
        StageOutcome::Failed(message) => (
            None,
            Some(spawn_error(launch_action(stage), message.as_str())),
        ),
        StageOutcome::Missing => match stage {
            LaunchStage::IdentifyReader => (
                None,
                Some(
                    spawn_error(
                        launch_action(stage),
                        "native PTY master does not expose a raw descriptor",
                    ),
                ),
            ),
            _ => (None, Some(spawn_error(launch_action(stage), "child PID is unavailable"))),
        },
    };
    if let Some(error) = error {
        return LaunchStep::Failed { error, disposal: disposal_at(stage) };
    }
    match next_stage(stage) {
        LaunchStage::Launched => LaunchStep::Launched(
            Run::new_native(launch.id, launch.spec, launch.lineage, pid, launch.mode),
        ),
        next => LaunchStep::Perform(
            NativeLaunch {
                stage: next,
                id: launch.id,
                spec: launch.spec,
                lineage: launch.lineage,
                mode: launch.mode,
                pid,
            },
        ),
    }
}

/// A launch ends, a child exists only between its start and its registration,
/// and a launch that fails while it owns a child kills and reaps that child.
/// Before the child starts there is nothing to reap, and a Run comes out only
/// once its child is registered.
pub proof fn law_a_failed_launch_leaves_no_child(
    launch: NativeLaunch,
    outcome: StageOutcome,
    step: LaunchStep,
)
    requires
        launch.valid(),
        outcome_possible(launch.stage, outcome),
        launch_next(launch, outcome, step),
    ensures
        step matches LaunchStep::Failed { disposal, .. } ==> disposal.reap
            == launch.stage.owns_child(),
        step is Launched ==> launch.stage is RegisterOwner && outcome is Done,
        step matches LaunchStep::Perform(next) ==> next.stage.remaining()
            < launch.stage.remaining() && next.stage.owns_child() == (launch.stage.owns_child()
            || launch.stage is SpawnChild),
{
}

/// What a failed launch records at the native control of its child.
#[derive(Debug, PartialEq, Eq)]
pub enum ReapRecord {
    CleanupError(String),
    Reaped,
    WaitError(String),
}

/// What is recorded once a rejected child was killed and waited for.
pub fn reject_child(killed: Result<(), String>, waited: Result<(), String>) -> (r: Vec<ReapRecord>)
    ensures
        r@.len() == (if killed is Err {
            2int
        } else {
            1
        }),
        killed matches Err(error) ==> (r@[0] matches ReapRecord::CleanupError(message) && message@
            == "failed to terminate rejected unpublished child: "@ + error@),
        match waited {
            Ok(_) => r@.last() is Reaped,
            Err(error) => r@.last() matches ReapRecord::WaitError(message) && message@
                == "failed to reap rejected unpublished child: "@ + error@,
        },
{
    let mut records: Vec<ReapRecord> = Vec::new();
    if let Err(error) = killed {
        records.push(
            ReapRecord::CleanupError(
                joined("failed to terminate rejected unpublished child: ", error.as_str()),
            ),
        );
    }
    match waited {
        Ok(_) => records.push(ReapRecord::Reaped),
        Err(error) => records.push(
            ReapRecord::WaitError(
                joined("failed to reap rejected unpublished child: ", error.as_str()),
            ),
        ),
    }
    records
}

/// One step of the re-adoption of a child that outlived an upgrade.
#[derive(Debug, Clone, Copy, PartialEq, Eq, Structural)]
pub enum ReadoptStage {
    CloneReader,
    CloneWriter,
    AdoptChild,
    IdentifySession,
    RegisterOwner,
}

impl ReadoptStage {
    /// The stage after this one.
    pub open spec fn following(&self) -> Option<ReadoptStage> {
        match *self {
            ReadoptStage::CloneReader => Some(ReadoptStage::CloneWriter),
            ReadoptStage::CloneWriter => Some(ReadoptStage::AdoptChild),
            ReadoptStage::AdoptChild => Some(ReadoptStage::IdentifySession),
            ReadoptStage::IdentifySession => Some(ReadoptStage::RegisterOwner),
            ReadoptStage::RegisterOwner => None,
        }
    }

    /// What the daemon does at this stage.
    pub open spec fn action(&self) -> Seq<char> {
        match *self {
            ReadoptStage::CloneReader => "clone re-adopted PTY reader"@,
            ReadoptStage::CloneWriter => "clone re-adopted PTY writer"@,
            ReadoptStage::AdoptChild => "adopt re-adopted child"@,
            ReadoptStage::IdentifySession => "identify re-adopted native session"@,
            ReadoptStage::RegisterOwner => "register re-adopted native Run owner"@,
        }
    }
}

/// What comes after one stage of a re-adoption.
#[derive(Debug, PartialEq, Eq)]
pub enum ReadoptStep {
    Perform(ReadoptStage),
    Adopted,
    /// Give up; `reap` says that the child has to be killed and reaped.
    Failed { error: ProtocolError, reap: bool },
}

/// Carry on with a re-adoption after one stage. The child is taken down only
/// by a failed registration: before that nobody owns it yet.
pub fn readopt(stage: ReadoptStage, outcome: Result<(), String>) -> (r: ReadoptStep)
    ensures
        match outcome {
            Ok(_) => match stage.following() {
                Some(next) => r == ReadoptStep::Perform(next),
                None => r is Adopted,
            },
            Err(message) => r matches ReadoptStep::Failed { error, reap } && error.says(
                ErrorCode::SpawnFailed,
                failed_to(stage.action(), message@),
            ) && reap == (stage is RegisterOwner),
        },
{
    match outcome {
        Ok(_) => match stage {
            ReadoptStage::CloneReader => ReadoptStep::Perform(ReadoptStage::CloneWriter),
            ReadoptStage::CloneWriter => ReadoptStep::Perform(ReadoptStage::AdoptChild),
            ReadoptStage::AdoptChild => ReadoptStep::Perform(ReadoptStage::IdentifySession),
            ReadoptStage::IdentifySession => ReadoptStep::Perform(ReadoptStage::RegisterOwner),
            ReadoptStage::RegisterOwner => ReadoptStep::Adopted,
        },
        Err(message) => {
            let action = match stage {
                ReadoptStage::CloneReader => "clone re-adopted PTY reader",
                ReadoptStage::CloneWriter => "clone re-adopted PTY writer",
                ReadoptStage::AdoptChild => "adopt re-adopted child",
                ReadoptStage::IdentifySession => "identify re-adopted native session",
                ReadoptStage::RegisterOwner => "register re-adopted native Run owner",
            };
            let reap = match stage {
                ReadoptStage::RegisterOwner => true,
                _ => false,
            };
            ReadoptStep::Failed { error: spawn_error(action, message.as_str()), reap }
        },
    }
}

/// One step of a tmux import.
#[derive(Debug, Clone, Copy, PartialEq, Eq, Structural)]
pub enum ImportStage {
    SpawnControl,
    StartReader,
    StartWaiter,
    HandOffChild,
    AwaitReadiness,
}

impl ImportStage {
    /// Whether the Run and its overlap slot are owned by a pending publication
    /// at this stage.
    pub open spec fn is_pending(&self) -> bool {
        !(self is SpawnControl)
    }
}

/// How a stage of an import came out.
#[derive(Debug, PartialEq, Eq)]
pub enum ImportOutcome {
    Done,
    /// The control client could not be started.
    Refused(ProtocolError),
    /// A worker could not be started.
    Failed(String),
    /// The waiter stopped before it took the child.
    ChildReturned,
}

/// What comes after one stage of an import.
#[derive(Debug, PartialEq, Eq)]
pub enum ImportStep {
    Perform(ImportStage),
    /// Give up. `reap` says that the child came back and has to be killed and
    /// reaped here; with `abandon` the pending publication is abandoned.
    Failed { error: ProtocolError, reap: bool, abandon: bool },
}

/// Whether an import reaches this outcome at this stage.
pub open spec fn import_outcome_possible(stage: ImportStage, outcome: ImportOutcome) -> bool {
    match outcome {
        ImportOutcome::Done => !(stage is AwaitReadiness),
        ImportOutcome::Refused(_) => stage is SpawnControl,
        ImportOutcome::Failed(_) => stage is StartReader || stage is StartWaiter,
        ImportOutcome::ChildReturned => stage is HandOffChild,
    }
}

/// What an import does after the outcome of one stage.
pub open spec fn import_next(stage: ImportStage, outcome: ImportOutcome, step: ImportStep)
 -> bool {
    match outcome {
        ImportOutcome::Done => step == ImportStep::Perform(
            match stage {
                ImportStage::SpawnControl => ImportStage::StartReader,
                ImportStage::StartReader => ImportStage::StartWaiter,
                ImportStage::StartWaiter => ImportStage::HandOffChild,
                _ => ImportStage::AwaitReadiness,
            },
        ),
        ImportOutcome::Refused(given) => step == (ImportStep::Failed {
            error: given,
            reap: false,
            abandon: false,
        }),
        ImportOutcome::Failed(message) => step matches ImportStep::Failed { error, reap, abandon }
            && !reap && abandon && error.says(
            ErrorCode::BackendUnavailable,
            failed_to(
                if stage is StartReader {
                    "start tmux output reader"@
                } else {
                    "start tmux control waiter"@
                },
                message@,
            ),
        ),
        ImportOutcome::ChildReturned => step matches ImportStep::Failed { error, reap, abandon }
            && reap && abandon && error.says(
            ErrorCode::BackendUnavailable,
            failed_to(
                "handoff tmux control child"@,
                "waiter stopped before taking ownership"@,
            ),
        ),
    }
}

/// Carry on with an import after one stage, up to the wait for readiness.
pub fn import_tmux(stage: ImportStage, outcome: ImportOutcome) -> (r: ImportStep)
    requires
        import_outcome_possible(stage, outcome),
    ensures
        import_next(stage, outcome, r),
{
    match outcome {
        ImportOutcome::Done => match stage {
            ImportStage::SpawnControl => ImportStep::Perform(ImportStage::StartReader),
            ImportStage::StartReader => ImportStep::Perform(ImportStage::StartWaiter),
            ImportStage::StartWaiter => ImportStep::Perform(ImportStage::HandOffChild),
            ImportStage::HandOffChild | ImportStage::AwaitReadiness => ImportStep::Perform(
                ImportStage::AwaitReadiness,
            ),
        },
        ImportOutcome::Refused(error) => ImportStep::Failed { error, reap: false, abandon: false },
        ImportOutcome::Failed(message) => {
            let action = match stage {
                ImportStage::StartReader => "start tmux output reader",
                _ => "start tmux control waiter",
            };
            ImportStep::Failed {
                error: backend_protocol_error(action, message.as_str()),
                reap: false,
                abandon: true,
            }
        },
        ImportOutcome::ChildReturned => ImportStep::Failed {
            error: backend_protocol_error(
                "handoff tmux control child",
                "waiter stopped before taking ownership",
            ),
            reap: true,
            abandon: true,
        },
    }
}

/// A failed import never leaves its overlap slot behind: once a pending
/// publication owns the Run, the failure abandons that publication, and before
/// that there is none.
pub proof fn law_a_failed_import_gives_up_its_run(
    stage: ImportStage,
    outcome: ImportOutcome,
    step: ImportStep,
)
    requires
        import_outcome_possible(stage, outcome),
        import_next(stage, outcome, step),
    ensures
        step matches ImportStep::Failed { abandon, .. } ==> abandon == stage.is_pending(),
        step matches ImportStep::Perform(next) ==> next.is_pending(),
{
}

/// What the wait for the readiness of an import brought.
#[derive(Debug, PartialEq, Eq)]
pub enum Readiness {
    /// The pane is observed; `in_time` tells whether the preparation deadline
    /// still lay ahead.
    Ready { in_time: bool },
    Refused(ProtocolError),
    /// The wait itself failed.
    Lost(String),
}

/// Judge the readiness of an import.
pub fn judge_readiness(readiness: Readiness) -> (r: Result<(), ProtocolError>)
    ensures
        match readiness {
            Readiness::Ready { in_time: true } => r == Ok::<(), ProtocolError>(()),
            Readiness::Ready { in_time: false } => r matches Err(error) && error.says(
                ErrorCode::BackendUnavailable,
                "tmux Control Mode readiness exceeded the import preparation deadline"@,
            ),
            Readiness::Refused(error) => r == Err::<(), ProtocolError>(error),
            Readiness::Lost(message) => r matches Err(error) && error.says(
                ErrorCode::BackendUnavailable,
                failed_to("wait for tmux Control Mode readiness"@, message@),
            ),
        },
{
    match readiness {
        Readiness::Ready { in_time } => {
            if in_time {
                Ok(())
            } else {
                Err(
                    protocol_error(
                        ErrorCode::BackendUnavailable,
                        "tmux Control Mode readiness exceeded the import preparation deadline",
                    ),
                )
            }
        },
        Readiness::Refused(error) => Err(error),
        Readiness::Lost(message) => Err(
            backend_protocol_error("wait for tmux Control Mode readiness", message.as_str()),
        ),
    }
}

/// How long a failed import may wait for its cleanup, of the milliseconds that
/// are left for the whole import.
pub fn failed_import_cleanup_timeout(total_left: u64) -> (r: u64)
    ensures
        r == (if total_left < TMUX_FAILED_IMPORT_CLEANUP_TIMEOUT {
            total_left
        } else {
            TMUX_FAILED_IMPORT_CLEANUP_TIMEOUT
        }),
{
    if total_left < TMUX_FAILED_IMPORT_CLEANUP_TIMEOUT {
        total_left
    } else {
        TMUX_FAILED_IMPORT_CLEANUP_TIMEOUT
    }
}

/// How a failed import ends: its Run is cleaned up elsewhere for this reason,
/// and the caller gets this error.
#[derive(Debug, PartialEq, Eq)]
pub struct FailedImport {
    pub transfer_reason: String,
    pub error: ProtocolError,
}

/// End an import whose readiness failed, after the wait for its cleanup.
pub fn finish_tmux_import(readiness: ProtocolError, cleanup: Result<(), String>) -> (r:
    FailedImport)
    ensures
        r.error.code == readiness.code,
        match cleanup {
            Ok(_) => {
                &&& r.error == readiness
                &&& r.transfer_reason@
                    == "tmux import cleanup completed; waiting for worker-owned Run references to settle"@
            },
            Err(failure) => {
                &&& r.error.message@ == readiness.message@ + "; cleanup failed: "@ + failure@
                &&& r.transfer_reason@ == "tmux import cleanup failed: "@ + failure@
            },
        },
{
    match cleanup {
        Ok(_) => FailedImport {
            transfer_reason: owned(
                "tmux import cleanup completed; waiting for worker-owned Run references to settle",
            ),
            error: readiness,
        },
        Err(failure) => FailedImport {
            transfer_reason: joined("tmux import cleanup failed: ", failure.as_str()),
            error: ProtocolError {
                code: readiness.code,
                message: joined3(
                    readiness.message.as_str(),
                    "; cleanup failed: ",
                    failure.as_str(),
                ),
            },
        },
    }
}

} // verus!
