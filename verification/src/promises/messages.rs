//! What refusals and failures say.

use vstd::prelude::*;

use crate::cli::{resolve_inherited_descriptors, usage, ServeOptions};
use crate::client::commands::{AttachmentState, PendingKind};
use crate::client::error::{
    control_not_applied, control_request_unknown, AttachmentUnavailableReason,
    AttachmentUnknownReason, ClientError,
};
use crate::daemon::attachment::{AttachmentServer, FrameAction};
use crate::daemon::connection::{
    execute_request, handle_connection, ConnectionPhase, ConnectionStep, RequestStep,
};
use crate::daemon::creation::{
    creation_owner_lost, materialize_creation, FlightStep, StartFault,
};
use crate::daemon::handoff::{verify_exec_target, HandoffInputState, ProbeFailure};
use crate::daemon::input::InputAdmission;
use crate::daemon::launch::{
    import_tmux, judge_readiness, readopt, reject_child, spawn_error, spawn_with_hooks,
    ImportOutcome,
    ImportStage, ImportStep, LaunchStage, LaunchStep, NativeLaunch, Readiness, ReadoptStage,
    ReadoptStep, ReapRecord, StageOutcome,
};
use crate::daemon::ledger::StopAdmission;
use crate::daemon::manager::RunManager;
use crate::daemon::manifest::manifest_line;
use crate::daemon::output_log::OutputLog;
use crate::daemon::owners::CreationFlightOwner;
use crate::daemon::pending::PendingPublication;
use crate::daemon::registry::{lemma_place_of, CandidateSelection, Residency, RunRegistry};
use crate::daemon::run::{Run, RunControl};
use crate::daemon::server::{
    record_native_wait_failure, serve_with_manager, start_service, IncarnationFailure, ServeEvent,
    ServeStep, ServerError, StartFailure, StartMode, StartStage, StartStep,
};
use crate::daemon::tmux_control::{
    backend_protocol_error, fallback_tmux_termination, tmux_control_failure, ControlItem,
    ItemOutcome, ItemStep, StreamEvent, TmuxObservation, TmuxTermination, TmuxWaitCause,
};
use crate::daemon::upgrade::{
    perform_exec_upgrade, ExecUpgrade, UpgradeAbort, UpgradeEvent, UpgradeRequestGate, UpgradeStage,
    UpgradeStep,
};
use crate::identity::RunId;
use crate::protocol::{
    control_failure_not_applied, native_capabilities, protocol_error, tmux_read_only_capabilities,
    ClientFrame, CommandDisposition, ControlFailure, ErrorCode, ForkPlan, InterruptionReason,
    OperationKey, ProtocolError, Request, Response, RunCapabilities, RunSpec, ServerFrame,
    TerminalSize,
};
use crate::run_spec::{validate_run_spec, validate_terminal_size, CreationRequest};
use crate::text::decimal;

verus! {

/// Why a frame is out of place in an attachment, or its number is.
pub proof fn law_what_a_refused_frame_is_told(
    server: &mut AttachmentServer,
    frame: ClientFrame,
    action: FrameAction,
)
    requires
        call_ensures(AttachmentServer::handle_frame, (server, Some(frame)), action),
    ensures
        frame is Hello || frame is Request ==> (action matches FrameAction::Send(step)
            && !step.done && (step.frames@[0] matches ServerFrame::Error { error }
            && error.message@ == "frame is not valid during attachment"@)),
        frame is Input || frame is Resize || frame is Stop ==> (action matches FrameAction::Send(
            step,
        ) ==> step.done && (step.frames@[0] matches ServerFrame::Error { error } && error.message@
            == "attachment command ids must start at 1 and then increase strictly"@)),
{
}

/// What a connection that cannot go on is told.
pub proof fn law_what_a_refused_connection_is_told(
    phase: ConnectionPhase,
    received: Option<ClientFrame>,
    gate: &mut UpgradeRequestGate,
    step: ConnectionStep,
)
    requires
        call_ensures(handle_connection, (phase, received, gate), step),
    ensures
        step matches ConnectionStep::Refuse(frame) ==> (frame matches ServerFrame::Error { error }
            && error.message@ == match (phase, received) {
            (ConnectionPhase::AwaitHello, Some(ClientFrame::Hello { protocol })) =>
                "client protocol "@ + decimal(protocol as nat)
                + " does not match daemon protocol "@ + decimal(13),
            (ConnectionPhase::AwaitHello, _) => "first frame must be hello"@,
            (ConnectionPhase::AwaitRequest, _) => "expected request after hello"@,
        }),
        step matches ConnectionStep::Retry(frame) ==> (frame matches ServerFrame::Error { error }
            && error.message@
            == "ctxmux daemon is draining for an exec-in-place upgrade; reconnect and retry"@),
{
}

/// What a request that cannot be started is told.
pub proof fn law_what_a_refused_request_is_told(
    manager: RunManager,
    request: Request,
    step: RequestStep,
)
    requires
        call_ensures(execute_request, (&manager, request), step),
    ensures
        step matches RequestStep::Answered(Err(error)) ==> error.message@ == match request {
            Request::Attach { .. } => "attach request reached short-lived request handler"@,
            _ => "tmux pane import is not persisted; use a memory-only ctxmux daemon"@,
        },
        request matches Request::RecoverableInput { operation } ==> (
        operation.daemon_instance_id != manager@.daemon_instance ==> (
        step matches RequestStep::Answered(Ok(Response::ControlRejected { failure }))
            && failure.error.message@
            == "recoverable native Input belongs to another daemon incarnation"@)),
{
}

/// What is said of a Run that cannot be used.
pub proof fn law_what_is_said_of_an_unavailable_run(
    manager: RunManager,
    id: RunId,
    r: Result<(), ProtocolError>,
)
    requires
        manager@.registry.valid(),
        call_ensures(RunManager::pin, (&manager, id), r),
    ensures
        r matches Err(error) ==> error.message@ == "Run "@ + id.text() + (if error.code
            == ErrorCode::RunNotFound {
            " does not exist"@
        } else {
            " is temporarily unavailable while its retained owner is being replaced or removed"@
        }),
{
}

/// Why a fork is refused.
pub proof fn law_what_a_refused_fork_is_told(
    id: RunId,
    plan: ForkPlan,
    parent: Run,
    continues: bool,
    error: ProtocolError,
)
    requires
        call_ensures(
            materialize_creation,
            (CreationRequest::Fork { parent: id, plan }, Some(&parent), continues),
            Err(error),
        ),
    ensures
        error.message@ == match plan {
            ForkPlan::LevelA => "Run "@ + id.text() + (if parent@.capabilities.fork_level_a {
                " has no portable launch specification"@
            } else {
                " backend does not support the requested fork"@
            }),
            ForkPlan::LevelB { .. } => if parent@.capabilities.fork_level_b {
                "cannot Level B fork Run "@ + id.text()
                    + " without live continuation authority"@
            } else {
                "Run "@ + id.text() + " backend does not support the requested fork"@
            },
        },
{
}

/// Why a specification or a size is refused.
pub proof fn law_what_an_unsound_specification_is_told(
    spec: RunSpec,
    judged: Result<(), String>,
    size: TerminalSize,
    sized: Result<(), String>,
)
    requires
        call_ensures(validate_run_spec, (&spec,), judged),
        call_ensures(validate_terminal_size, (size,), sized),
    ensures
        judged matches Err(text) ==> text@ == if spec.program@.len() == 0 {
            "Run program must not be empty"@
        } else {
            "terminal rows and columns must be greater than zero"@
        },
        sized matches Err(text) ==> text@ == "terminal rows and columns must be greater than zero"@,
{
}

/// Why a command of a Run is refused.
pub proof fn law_what_a_refused_control_is_told(
    run: Run,
    r: Result<(), ProtocolError>,
    unpublished: Result<(), String>,
    owners: u64,
)
    requires
        call_ensures(Run::native_control, (&run,), r),
        call_ensures(Run::unpublished_cleanup_result, (&run, Ok(()), owners), unpublished),
    ensures
        r matches Err(error) ==> error.message@ == if run@.control is Some {
            "Run "@ + run@.id.text() + " backend does not support native control"@
        } else {
            "cannot control historical Run "@ + run@.id.text()
        },
        run@.control == Some(RunControl::Native) && owners != 1 ==> (unpublished matches Err(text)
            && text@ == "unpublished Run "@ + run@.id.text() + " retains "@ + decimal(
            owners as nat,
        ) + " reader, waiter, or external owners"@),
{
}

/// Why a creation has to wait or to end.
pub proof fn law_what_a_creation_without_a_place_is_told(
    flying: &mut RunManager,
    step: FlightStep,
    reserving: &mut RunManager,
    r: Result<(), ProtocolError>,
    text: &str,
    lost: ProtocolError,
    stopped: &mut RunManager,
    not_started: ProtocolError,
)
    requires
        call_ensures(RunManager::begin_creation_flight, (flying,), step),
        call_ensures(RunManager::reserve_creation, (reserving,), r),
        call_ensures(creation_owner_lost, (text,), lost),
        call_ensures(RunManager::creation_owner_not_started, (stopped, text), not_started),
    ensures
        step matches FlightStep::Refused(error) ==> error.code == ErrorCode::BackendUnavailable
            && error.message@ == "ctxmux daemon is shutting down"@,
        r matches Err(error) ==> error.message@ == "Run publication cleanup capacity is exhausted"@,
        lost.code == ErrorCode::Internal && lost.message@
            == "Run creation owner ended without a result: "@ + text@,
        not_started.message@ == "failed to start Run creation owner: "@ + text@,
{
}

/// What is said where there is no room for a Run.
pub proof fn law_what_is_said_where_there_is_no_room(
    registry: RunRegistry,
    new_metadata: Option<u64>,
    selection: CandidateSelection,
)
    requires
        call_ensures(
            RunRegistry::select_publication_candidates,
            (&registry, new_metadata),
            selection,
        ),
    ensures
        selection.result matches Err(error) ==> (error.code == ErrorCode::RunCapacity
            && error.message@ == "retained Run capacity "@ + decimal(
            registry@.record_capacity as nat,
        ) + " has no eligible exact replacement"@) || (error.code == ErrorCode::BackendUnavailable
            && error.message@ == "persistent metadata replacement is already reserved"@),
{
}

/// What a key that is taken says.
pub proof fn law_what_a_taken_key_says(
    registry: RunRegistry,
    key: OperationKey,
    request: CreationRequest,
    error: ProtocolError,
)
    requires
        call_ensures(
            RunRegistry::resolve_creation_info,
            (&registry, &key, &request),
            Err(error),
        ),
    ensures
        error.code == ErrorCode::CreationConflict ==> error.message@
            == "Run creation operation key is already bound to a different request"@
            || error.message@ == "Run creation operation key is reserved for a different request"@,
        error.code != ErrorCode::CreationConflict ==> error.code == ErrorCode::BackendUnavailable
            && (error.message@
            == "Run creation is temporarily fenced by an unpublished Registry reservation"@
            || error.message@
            == "Run creation is temporarily unavailable while its retained owner is being replaced or removed"@),
{
}

/// What a refused Stop and a refused removal say.
pub proof fn law_what_a_refused_stop_or_removal_says(
    registry: RunRegistry,
    id: RunId,
    key: OperationKey,
    stop: Result<StopAdmission, ControlFailure>,
    removal: Result<(), ProtocolError>,
    place: int,
)
    requires
        registry@.valid(),
        0 <= place < registry@.runs.len(),
        registry@.runs[place].facts.id == id,
        call_ensures(RunRegistry::begin_recoverable_stop, (&registry, id, &key), stop),
        call_ensures(RunRegistry::validate_removable_entry, (&registry, id), removal),
    ensures
        stop matches Err(failure) ==> match failure.error.code {
            ErrorCode::StopOperationConflict => failure.error.message@
                == "native Stop operation key is already bound to another Run"@
                || failure.error.message@ == "Run already belongs to another native Stop operation"@,
            ErrorCode::BackendUnavailable => failure.error.message@ == "Run "@ + id.text()
                + " is being collected"@,
            _ => key.defect matches Some(defect) && failure.error.message@ == defect@,
        },
        removal matches Err(error) ==> error.message@ == "Run "@ + id.text() + (
        if registry@.runs[place].residency != Residency::Retained {
            " is already being replaced or removed"@
        } else if registry@.runs[place].facts.running {
            " is still running; stop it before removing"@
        } else if registry@.runs[place].facts.shared {
            " is attached or in use and cannot be removed"@
        } else {
            " has not reached collectable quiescence"@
        }),
{
    lemma_place_of(registry@, id, place);
}

/// What a refused recoverable Input says.
pub proof fn law_what_a_refused_input_says(
    state: HandoffInputState,
    key: OperationKey,
    expected_byte: u64,
    data: Vec<u8>,
    r: Result<InputAdmission, ControlFailure>,
)
    requires
        key.defect is None,
        forall|k: int|
            0 <= k < state.operations@.len() ==> (#[trigger] state.operations@[k]).key@ != key@,
        call_ensures(
            HandoffInputState::begin_recoverable_input,
            (&state, &key, expected_byte, &data),
            r,
        ),
    ensures
        r matches Err(failure) ==> match state.input_failure {
            Some(earlier) => failure.error.code == earlier.code && failure.error.message@
                == earlier.message@,
            None => failure.error.code == ErrorCode::InvalidRequest && failure.error.message@ == if
                expected_byte != state.applied_input_bytes {
                "native Input cursor is "@ + decimal(state.applied_input_bytes as nat)
            } else {
                "native Input cursor overflows"@
            },
        },
{
}

/// What a failed launch says: the action that failed, and why.
pub proof fn law_what_a_failed_launch_says(
    launch: NativeLaunch,
    outcome: StageOutcome,
    step: LaunchStep,
)
    requires
        call_ensures(spawn_with_hooks, (launch, outcome), step),
    ensures
        outcome matches StageOutcome::Failed(message) ==> (step matches LaunchStep::Failed {
            error,
            ..
        } && error.message@ == "failed to "@ + (match launch.stage {
            LaunchStage::OpenPty => "open PTY"@,
            LaunchStage::IdentifyReader => "identify PTY reader"@,
            LaunchStage::CloneReader => "clone PTY reader"@,
            LaunchStage::TakeWriter => "take PTY writer"@,
            LaunchStage::SpawnChild => "spawn child"@,
            LaunchStage::IdentifyChild => "identify native session"@,
            LaunchStage::IdentifySession => "identify native session"@,
            LaunchStage::RegisterOwner => "register native Run owner"@,
            _ => ""@,
        }) + (": "@ + message@)),
        outcome is Missing && launch.stage is IdentifyReader ==> (step matches LaunchStep::Failed {
            error,
            ..
        } && error.message@ == "failed to "@ + "identify PTY reader"@ + (": "@
            + "native PTY master does not expose a raw descriptor"@)),
        outcome is Missing && launch.stage is IdentifyChild ==> (step matches LaunchStep::Failed {
            error,
            ..
        } && error.message@ == "failed to "@ + "identify native session"@ + (": "@
            + "child PID is unavailable"@)),
{
}

/// What a failed re-adoption, a failed import and a rejected child say.
pub proof fn law_what_a_failed_adoption_or_import_says(
    stage: ReadoptStage,
    reason: String,
    adopting: ReadoptStep,
    import_stage: ImportStage,
    outcome: ImportOutcome,
    importing: ImportStep,
    readiness: Readiness,
    judged: Result<(), ProtocolError>,
    killed: Result<(), String>,
    waited: Result<(), String>,
    records: Vec<ReapRecord>,
)
    requires
        call_ensures(readopt, (stage, Err(reason)), adopting),
        call_ensures(import_tmux, (import_stage, outcome), importing),
        call_ensures(judge_readiness, (readiness,), judged),
        call_ensures(reject_child, (killed, waited), records),
    ensures
        adopting matches ReadoptStep::Failed { error, .. } && error.message@ == "failed to "@ + (
        match stage {
            ReadoptStage::CloneReader => "clone re-adopted PTY reader"@,
            ReadoptStage::CloneWriter => "clone re-adopted PTY writer"@,
            ReadoptStage::AdoptChild => "adopt re-adopted child"@,
            ReadoptStage::IdentifySession => "identify re-adopted native session"@,
            ReadoptStage::RegisterOwner => "register re-adopted native Run owner"@,
        }) + (": "@ + reason@),
        outcome matches ImportOutcome::Failed(message) ==> (importing matches ImportStep::Failed {
            error,
            ..
        } && error.message@ == "failed to "@ + (if import_stage is StartReader {
            "start tmux output reader"@
        } else {
            "start tmux control waiter"@
        }) + (": "@ + message@)),
        outcome is ChildReturned ==> (importing matches ImportStep::Failed { error, .. }
            && error.message@ == "failed to "@ + "handoff tmux control child"@ + (": "@
            + "waiter stopped before taking ownership"@)),
        readiness == (Readiness::Ready { in_time: false }) ==> judged->Err_0.message@
            == "tmux Control Mode readiness exceeded the import preparation deadline"@,
        readiness matches Readiness::Lost(message) ==> judged->Err_0.message@ == "failed to "@
            + "wait for tmux Control Mode readiness"@ + (": "@ + message@),
        killed matches Err(error) ==> (records@[0] matches ReapRecord::CleanupError(text) && text@
            == "failed to terminate rejected unpublished child: "@ + error@),
        waited matches Err(error) ==> (records@.last() matches ReapRecord::WaitError(text) && text@
            == "failed to reap rejected unpublished child: "@ + error@),
{
}

/// What the end of an observation says of its cause.
pub proof fn law_what_the_end_of_an_observation_says(
    cause: TmuxWaitCause,
    pid: u32,
    r: TmuxTermination,
)
    requires
        call_ensures(fallback_tmux_termination, (cause, pid), r),
    ensures
        r.error.message@ == match cause {
            TmuxWaitCause::ReaderTerminated =>
                "tmux output reader ended without a termination receipt"@,
            TmuxWaitCause::Interrupted(_) => "tmux Control Mode client was interrupted"@,
            TmuxWaitCause::Shutdown => "tmux Control Mode client stopped during daemon shutdown"@,
            TmuxWaitCause::CommandChannelClosed => "tmux Control Mode command channel closed"@,
            TmuxWaitCause::SocketTargetChanged => "tmux server socket identity changed"@,
            TmuxWaitCause::ProbeWriteFailed(error) => "failed to write tmux target probe: "@
                + error@,
            TmuxWaitCause::ChildExited => "tmux Control Mode client "@ + decimal(pid as nat)
                + " exited before import"@,
            TmuxWaitCause::ChildStatusFailed(error) => "failed to query tmux Control Mode client "@
                + decimal(pid as nat) + (": "@ + error@),
        },
{
}

/// What an item or a fault of the stream that ends an observation says.
pub proof fn law_what_the_end_of_a_stream_says(
    observation: &mut TmuxObservation,
    seen: StreamEvent,
    probe_command: String,
    output: &mut OutputLog,
    step: ItemStep,
)
    requires
        call_ensures(
            TmuxObservation::read_tmux_output,
            (observation, seen, probe_command, output),
            step,
        ),
    ensures
        step.outcome matches ItemOutcome::Failed(failure) ==> match seen {
            StreamEvent::Eof(Ok(_)) => failure.error.message@ == "tmux Control Mode stream closed"@,
            StreamEvent::Eof(Err(error)) => failure.error.message@ == "failed to "@
                + "finish tmux Control Mode stream"@ + (": "@ + error@),
            StreamEvent::ReadFailed(error) => failure.error.message@ == "failed to "@
                + "read tmux Control Mode stream"@ + (": "@ + error@),
            StreamEvent::ParseFailed(error) => failure.error.message@ == "failed to "@
                + "parse tmux Control Mode stream"@ + (": "@ + error@),
            StreamEvent::Item { item: ControlItem::WindowClosed { window_id }, .. } =>
                failure.error.message@ == "tmux target window "@ + window_id@ + " closed"@,
            StreamEvent::Item { item: ControlItem::Exit, .. } => failure.error.message@
                == "tmux Control Mode client reported exit"@,
            StreamEvent::Item { item: ControlItem::SessionChanged { session_id }, .. } =>
                session_id@ != old(observation)@.session_id ==> failure.error.message@
                == "tmux Control Mode client attached to a different session"@,
            _ => true,
        },
{
}

/// What an upgrade that was given up says, and where it failed.
pub proof fn law_what_a_failed_upgrade_says(
    upgrade: ExecUpgrade,
    gate: &mut UpgradeRequestGate,
    message: String,
    abort: UpgradeAbort,
)
    requires
        call_ensures(
            perform_exec_upgrade,
            (upgrade, gate, UpgradeEvent::Failed(message)),
            UpgradeStep::Aborted(abort),
        ),
    ensures
        ({
            let error = match abort {
                UpgradeAbort::BeforeExtract(error) => error,
                UpgradeAbort::AfterExtract(error) => error,
            };
            match upgrade.stage {
                UpgradeStage::VerifyTarget | UpgradeStage::Extract =>
                    error matches ServerError::Shutdown { failures } && failures@ == message@,
                _ => error matches ServerError::Io { path, source } && source@ == message@ && path@
                    == match upgrade.stage {
                    UpgradeStage::CreateFile | UpgradeStage::UnlinkFile => upgrade.identity.file@,
                    UpgradeStage::GuardFile => "<handoff file cloexec>"@,
                    UpgradeStage::FindExecutable => "<current_exe>"@,
                    UpgradeStage::WriteManifest | UpgradeStage::FinishManifest =>
                        "<handoff manifest>"@,
                    UpgradeStage::KeepDescriptors => "<handoff fd cloexec>"@,
                    UpgradeStage::KeepManifest => "<handoff-fd cloexec>"@,
                    _ => "<exec-in-place>"@,
                },
            }
        }),
{
}

/// Where a start that failed says that it did.
pub proof fn law_what_a_failed_start_says(
    path: &str,
    mode: StartMode,
    announces: bool,
    stage: StartStage,
    source: String,
    step: StartStep,
)
    requires
        call_ensures(
            start_service,
            (path, mode, announces, stage, Err(StartFailure::Io(source))),
            step,
        ),
    ensures
        step matches StartStep::Failed(ServerError::Io { path: at, source: why }) && why@
            == source@ && at@ == match stage {
            StartStage::ReadManifest => "<handoff-fd>"@,
            StartStage::ClaimMasters => "<handoff master fd>"@,
            StartStage::ClaimStateLock => "<handoff state-lock fd>"@,
            StartStage::OpenStats => "qualification stats fd"@,
            StartStage::AdoptListener => "<handoff listener fd>"@,
            StartStage::AnnounceReadiness => "<readiness-fd>"@,
            StartStage::WatchHangup => "<sighup>"@,
            _ => path@,
        },
{
}

/// What the daemon logs while it serves, and what it records when it fails.
pub proof fn law_what_the_daemon_logs(
    path: &str,
    persistent: bool,
    has_state_dir: bool,
    event: ServeEvent,
    incarnation: &mut IncarnationFailure,
    step: ServeStep,
    flights: &mut CreationFlightOwner,
    failure: &mut IncarnationFailure,
    run_id: RunId,
    error: &str,
)
    requires
        call_ensures(
            serve_with_manager,
            (path, persistent, has_state_dir, event, incarnation),
            step,
        ),
        old(failure)@ is None,
        call_ensures(record_native_wait_failure, (flights, failure, run_id, error), ()),
    ensures
        event is HungUp && !persistent ==> (step matches ServeStep::Log(line) && line@
            == "ctxmuxd: SIGHUP ignored: upgrade continuity requires --state-dir"@),
        event is HungUp && persistent && !has_state_dir ==> (step matches ServeStep::Log(line)
            && line@ == "ctxmuxd: SIGHUP ignored: no state directory recorded for re-exec"@),
        final(failure)@ == Some(
            "Run "@ + run_id.text() + " lost native child wait authority; restart is required: "@
                + error@,
        ),
{
}

/// Why an image is not accepted, and what a manifest that is too long says.
pub proof fn law_what_a_refused_image_says(
    exe: &str,
    failure: ProbeFailure,
    r: Result<(), String>,
    bytes: Vec<u8>,
    line: Result<Vec<u8>, crate::daemon::handoff::HandoffError>,
)
    requires
        call_ensures(verify_exec_target, (exe, Err(failure)), r),
        call_ensures(manifest_line, (&bytes,), line),
    ensures
        r matches Err(text) && text@ == match failure {
            ProbeFailure::NotRun(error) => "cannot run "@ + exe@ + (" --version: "@ + error@),
            ProbeFailure::NotAwaited(error) => "cannot await "@ + exe@ + (" --version: "@ + error@),
            ProbeFailure::TimedOut => exe@ + " --version did not answer within 2s"@,
            ProbeFailure::NotRead(error) => "cannot read "@ + exe@ + (" --version: "@ + error@),
        },
        line matches Err(error) ==> error.message@ == "handoff manifest exceeds its bounded size"@,
{
}

/// What the limits of an attachment's commands are called.
pub proof fn law_what_a_full_attachment_says(
    state: &mut AttachmentState,
    kind: PendingKind,
    limit: &'static str,
)
    requires
        call_ensures(
            AttachmentState::register_command,
            (state, kind),
            Err(ClientError::AttachmentBackpressure { limit }),
        ),
    ensures
        limit@ == if old(state)@.pending.len() == 64 {
            "64 unresolved commands"@
        } else if kind is Input && crate::promises::commands::waiting_inputs(
            old(state)@.pending,
        ).0 == 32 {
            "32 unresolved input commands"@
        } else {
            "1 MiB unresolved input data"@
        },
{
    crate::promises::commands::lemma_waiting_inputs(old(state)@.pending);
}

/// What the reasons of an attachment's end say.
pub proof fn law_what_the_reasons_say(
    unavailable: AttachmentUnavailableReason,
    first: &'static str,
    unknown: AttachmentUnknownReason,
    second: &'static str,
)
    requires
        call_ensures(AttachmentUnavailableReason::message, (&unavailable,), first),
        call_ensures(AttachmentUnknownReason::message, (&unknown,), second),
    ensures
        first@ == match unavailable {
            AttachmentUnavailableReason::Detaching => "clean detach is in progress"@,
            AttachmentUnavailableReason::Closed => "the attachment is closed"@,
            AttachmentUnavailableReason::CommandIdsExhausted =>
                "the attachment command-id space is exhausted"@,
        },
        second@ == match unknown {
            AttachmentUnknownReason::TransportTerminated => "the attachment transport terminated"@,
            AttachmentUnknownReason::ProtocolViolation =>
                "the daemon violated the attachment protocol"@,
            AttachmentUnknownReason::ClosedLocally => "the attachment was closed locally"@,
        },
{
}

/// What a wrong command line is told.
pub proof fn law_what_a_wrong_command_line_is_told(
    text: &'static str,
    options: ServeOptions,
    r: Result<(), &'static str>,
)
    requires
        call_ensures(usage, (), text),
        call_ensures(resolve_inherited_descriptors, (&options,), r),
    ensures
        text@
            == "usage: ctxmuxd --socket <path> [--state-dir <path>] [--readiness-fd <fd>] [--handoff-fd <fd>]\n       ctxmuxd --version"@,
        r matches Err(message) ==> message@ == "ctxmuxd: inherited descriptors must be distinct"@
            || (message@ == "ctxmuxd: --handoff-fd requires --state-dir"@ && options.handoff_fd
            is Some && options.state_dir is None),
{
}

/// A failure is made of the category and the words that it is given.
pub proof fn law_a_failure_is_what_it_is_made_of(
    code: ErrorCode,
    text: &str,
    error: ProtocolError,
    action: &str,
    reason: &str,
    backend: ProtocolError,
    spawn: ProtocolError,
    control: ControlFailure,
    interruption: InterruptionReason,
    termination: TmuxTermination,
    client: ClientError,
    unknown: ClientError,
    unsent: ClientError,
)
    requires
        call_ensures(protocol_error, (code, text), error),
        call_ensures(backend_protocol_error, (action, reason), backend),
        call_ensures(spawn_error, (action, reason), spawn),
        call_ensures(control_failure_not_applied, (error,), control),
        call_ensures(tmux_control_failure, (error, interruption), termination),
        call_ensures(ClientError::from_protocol, (error,), client),
        call_ensures(control_request_unknown, (client,), unknown),
        call_ensures(control_not_applied, (client,), unsent),
    ensures
        error.code == code && error.message@ == text@,
        backend.code == ErrorCode::BackendUnavailable && backend.message@ == "failed to "@ + action@
            + (": "@ + reason@),
        spawn.code == ErrorCode::SpawnFailed && spawn.message@ == backend.message@,
        control.error == error && control.disposition == CommandDisposition::NotApplied,
        termination.error == error && termination.reason == interruption,
        client == (ClientError::Protocol { code: error.code, message: error.message }),
        unknown matches ClientError::ControlRequestUnknown { source } && *source == client,
        unsent matches ClientError::ControlNotApplied { source } && *source == client,
{
}

/// What a Run accepts depends on its backend: a native one everything, an
/// imported one nothing.
pub proof fn law_what_a_backend_accepts(native: RunCapabilities, imported: RunCapabilities)
    requires
        call_ensures(native_capabilities, (), native),
        call_ensures(tmux_read_only_capabilities, (), imported),
    ensures
        native.input && native.resize && native.stop && native.fork_level_a && native.fork_level_b,
        !imported.input && !imported.resize && !imported.stop && !imported.fork_level_a
            && !imported.fork_level_b,
{
}

/// What a creation whose record failed is told, and what it still waits for.
pub proof fn law_what_a_failed_record_says(
    manager: &mut RunManager,
    pending: PendingPublication,
    failure: StartFault,
    error: String,
    r: ProtocolError,
)
    requires
        call_ensures(
            RunManager::finish_failed_publication,
            (manager, pending, failure, Err(error)),
            r,
        ),
    ensures
        r.message@ == failure.message@ + (if failure.commit_unknown {
            "; cleanup pending after unknown COMMIT: "@
        } else {
            "; rollback pending: exact creation key remains fenced until all unpublished native owners are quiescent: "@
        }) + error@,
{
}

} // verus!
