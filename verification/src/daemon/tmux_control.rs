//! Observation of one imported tmux pane: the Control Mode stream, the wait
//! for its client, and how both end.
//!
//! Reading, writing and waiting belong to the caller. It hands in what
//! happened and performs what is asked of it.

use vstd::prelude::*;

use crate::daemon::output_log::{LogView, OutputLog};
use crate::daemon::tmux_tracker::{
    CleanupResult, TmuxCommandKind, TmuxCommandResultKind, TmuxCommandTracker, TrackerView,
};
use crate::protocol::{
    protocol_error, ErrorCode, InterruptionReason, ProtocolError, RunEvent, TmuxPaneInfo,
    TmuxRunEvent,
};
use crate::text::{decimal, decimal_text, joined, joined3, owned, same_text};

verus! {

/// Milliseconds that discovery may take before an import.
pub const TMUX_IMPORT_DISCOVERY_TIMEOUT: u64 = 3000;

/// Milliseconds in which an import has to become ready.
pub const TMUX_IMPORT_PREPARE_TIMEOUT: u64 = 5000;

/// Milliseconds that an import may take with its cleanup.
pub const TMUX_IMPORT_TOTAL_TIMEOUT: u64 = 7000;

/// Milliseconds that the cleanup of a failed import may take.
pub const TMUX_FAILED_IMPORT_CLEANUP_TIMEOUT: u64 = 2000;

/// Milliseconds that a discovery on its own may take.
pub const TMUX_DISCOVERY_TIMEOUT: u64 = 4000;

/// Milliseconds that shutdown waits for tmux work.
pub const TMUX_SHUTDOWN_TIMEOUT: u64 = 8000;

/// Milliseconds between two checks of the observed pane.
pub const TARGET_POLL: u64 = 500;

/// Why the observation of a pane ended.
#[derive(Debug, PartialEq, Eq)]
pub struct TmuxTermination {
    pub error: ProtocolError,
    pub reason: InterruptionReason,
}

impl TmuxTermination {
    /// Whether this is the termination with this category, detail and reason.
    pub open spec fn says(
        &self,
        code: ErrorCode,
        message: Seq<char>,
        reason: InterruptionReason,
    ) -> bool {
        self.error.says(code, message) && self.reason == reason
    }
}

/// How the reader of the Control Mode stream ended.
#[derive(Debug, PartialEq, Eq)]
pub struct TmuxReaderTermination {
    pub failure: TmuxTermination,
}

/// Why the wait for the Control Mode client ended.
#[derive(Debug, PartialEq, Eq)]
pub enum TmuxWaitCause {
    ReaderTerminated,
    Interrupted(InterruptionReason),
    Shutdown,
    CommandChannelClosed,
    SocketTargetChanged,
    ProbeWriteFailed(String),
    ChildExited,
    ChildStatusFailed(String),
}

/// What the waiter is told to do.
#[derive(Debug, Clone, Copy, PartialEq, Eq, Structural)]
pub enum TmuxControlCommand {
    Interrupt(InterruptionReason),
    ReaderTerminated,
    Shutdown,
}

/// How the wait ended and whether the client was cleaned up.
#[derive(Debug, PartialEq, Eq)]
pub struct TmuxWaitOutcome {
    pub cause: TmuxWaitCause,
    pub cleanup: CleanupResult,
}

/// The detail of a failed action.
pub open spec fn failed_to(action: Seq<char>, error: Seq<char>) -> Seq<char> {
    "failed to "@ + action + (": "@ + error)
}

/// Write the detail of a failed action.
pub fn failed_to_text(action: &str, error: &str) -> (r: String)
    ensures
        r@ == failed_to(action@, error@),
{
    let what = joined("failed to ", action);
    let why = joined(": ", error);
    joined(what.as_str(), why.as_str())
}

/// The failure of a tmux action.
pub fn backend_protocol_error(action: &str, error: &str) -> (r: ProtocolError)
    ensures
        r.says(ErrorCode::BackendUnavailable, failed_to(action@, error@)),
{
    ProtocolError { code: ErrorCode::BackendUnavailable, message: failed_to_text(action, error) }
}

/// The termination with this failure and reason.
pub fn tmux_control_failure(error: ProtocolError, reason: InterruptionReason) -> (r:
    TmuxTermination)
    ensures
        r == (TmuxTermination { error, reason }),
{
    TmuxTermination { error, reason }
}

/// The category of a failure that interrupts a Run.
pub open spec fn code_of(reason: InterruptionReason) -> ErrorCode {
    match reason {
        InterruptionReason::TmuxTargetChanged => ErrorCode::TargetChanged,
        _ => ErrorCode::BackendUnavailable,
    }
}

/// The category of a failure that interrupts a Run.
pub fn interruption_error_code(reason: InterruptionReason) -> (r: ErrorCode)
    ensures
        r == code_of(reason),
{
    match reason {
        InterruptionReason::TmuxTargetChanged => ErrorCode::TargetChanged,
        _ => ErrorCode::BackendUnavailable,
    }
}

/// The detail of a cause.
pub open spec fn cause_says(cause: TmuxWaitCause, control_pid: u32) -> Seq<char> {
    match cause {
        TmuxWaitCause::ReaderTerminated =>
            "tmux output reader ended without a termination receipt"@,
        TmuxWaitCause::Interrupted(_) => "tmux Control Mode client was interrupted"@,
        TmuxWaitCause::Shutdown => "tmux Control Mode client stopped during daemon shutdown"@,
        TmuxWaitCause::CommandChannelClosed => "tmux Control Mode command channel closed"@,
        TmuxWaitCause::SocketTargetChanged => "tmux server socket identity changed"@,
        TmuxWaitCause::ProbeWriteFailed(error) => "failed to write tmux target probe: "@ + error@,
        TmuxWaitCause::ChildExited => "tmux Control Mode client "@ + decimal(control_pid as nat)
            + " exited before import"@,
        TmuxWaitCause::ChildStatusFailed(error) => "failed to query tmux Control Mode client "@
            + decimal(control_pid as nat) + (": "@ + error@),
    }
}

/// Why a Run is interrupted by a cause.
pub open spec fn cause_reason(cause: TmuxWaitCause) -> InterruptionReason {
    match cause {
        TmuxWaitCause::Interrupted(reason) => reason,
        TmuxWaitCause::SocketTargetChanged => InterruptionReason::TmuxTargetChanged,
        _ => InterruptionReason::TmuxServerUnavailable,
    }
}

/// The termination that a cause amounts to on its own.
pub fn fallback_tmux_termination(cause: TmuxWaitCause, control_pid: u32) -> (r: TmuxTermination)
    ensures
        r.says(code_of(cause_reason(cause)), cause_says(cause, control_pid), cause_reason(cause)),
{
    let (message, reason) = match cause {
        TmuxWaitCause::ReaderTerminated => (
            owned("tmux output reader ended without a termination receipt"),
            InterruptionReason::TmuxServerUnavailable,
        ),
        TmuxWaitCause::Interrupted(reason) => (
            owned("tmux Control Mode client was interrupted"),
            reason,
        ),
        TmuxWaitCause::Shutdown => (
            owned("tmux Control Mode client stopped during daemon shutdown"),
            InterruptionReason::TmuxServerUnavailable,
        ),
        TmuxWaitCause::CommandChannelClosed => (
            owned("tmux Control Mode command channel closed"),
            InterruptionReason::TmuxServerUnavailable,
        ),
        TmuxWaitCause::SocketTargetChanged => (
            owned("tmux server socket identity changed"),
            InterruptionReason::TmuxTargetChanged,
        ),
        TmuxWaitCause::ProbeWriteFailed(error) => (
            joined("failed to write tmux target probe: ", error.as_str()),
            InterruptionReason::TmuxServerUnavailable,
        ),
        TmuxWaitCause::ChildExited => {
            let pid = decimal_text(control_pid as u64);
            (
                joined3("tmux Control Mode client ", pid.as_str(), " exited before import"),
                InterruptionReason::TmuxServerUnavailable,
            )
        },
        TmuxWaitCause::ChildStatusFailed(error) => {
            let pid = decimal_text(control_pid as u64);
            let why = joined(": ", error.as_str());
            (
                joined3(
                    "failed to query tmux Control Mode client ",
                    pid.as_str(),
                    why.as_str(),
                ),
                InterruptionReason::TmuxServerUnavailable,
            )
        },
    };
    TmuxTermination {
        error: ProtocolError { code: interruption_error_code(reason), message },
        reason,
    }
}

/// Whether the end of the stream explains a cause better than the cause itself.
pub open spec fn reader_explains(cause: TmuxWaitCause) -> bool {
    cause is ReaderTerminated || cause is ChildExited
}

/// Decide why the observation ended. What the reader saw counts only where the
/// end of the stream is itself the cause: a cause of the owner is not
/// overwritten by the end that its cleanup brings about.
pub fn resolve_tmux_termination(
    cause: TmuxWaitCause,
    reader: Option<TmuxReaderTermination>,
    control_pid: u32,
) -> (r: TmuxTermination)
    ensures
        if reader_explains(cause) && reader is Some {
            r == reader->0.failure
        } else {
            r.says(
                code_of(cause_reason(cause)),
                cause_says(cause, control_pid),
                cause_reason(cause),
            )
        },
{
    let explains = match cause {
        TmuxWaitCause::ReaderTerminated => true,
        TmuxWaitCause::ChildExited => true,
        _ => false,
    };
    match reader {
        Some(termination) => if explains {
            termination.failure
        } else {
            fallback_tmux_termination(cause, control_pid)
        },
        None => fallback_tmux_termination(cause, control_pid),
    }
}

/// A further failure of a cleanup.
pub open spec fn combined(existing: CleanupResult, failure: Seq<char>) -> Seq<char> {
    match existing {
        Ok(_) => failure,
        Err(earlier) => earlier@ + "; "@ + failure,
    }
}

/// Add a failure to a cleanup result.
pub fn combine_cleanup_failure(existing: CleanupResult, failure: &str) -> (r: CleanupResult)
    ensures
        r matches Err(message) && message@ == combined(existing, failure@),
{
    match existing {
        Ok(_) => Err(owned(failure)),
        Err(earlier) => Err(joined3(earlier.as_str(), "; ", failure)),
    }
}

/// The detail of a client that could not be reaped.
pub open spec fn reap_failure(
    status_error: Option<Seq<char>>,
    kill_error: Option<Seq<char>>,
    wait_error: Seq<char>,
) -> Seq<char> {
    (match status_error {
        Some(error) => "failed to query tmux Control Mode client before termination: "@ + error
            + "; "@,
        None => seq![],
    }) + (match kill_error {
        Some(error) => "failed to terminate tmux Control Mode client: "@ + error + "; "@,
        None => seq![],
    }) + ("failed to reap tmux Control Mode client: "@ + wait_error)
}

/// The characters of an optional text.
pub open spec fn text_of(text: Option<String>) -> Option<Seq<char>> {
    match text {
        Some(text) => Some(text@),
        None => None,
    }
}

/// Whether a client has to be killed and reaped, judging by its queried status:
/// whether it has exited, or why that is not known.
pub fn needs_termination(status: &Result<bool, String>) -> (r: bool)
    ensures
        r == !(status matches Ok(exited) && *exited),
{
    match status {
        Ok(exited) => !*exited,
        Err(_) => true,
    }
}

/// Judge the termination of a client by its status before, and by the failures
/// to kill and to reap it. A client that was reaped is gone, whatever failed
/// before.
pub fn terminate_tmux_control_child(
    status: Result<bool, String>,
    kill_error: Option<String>,
    wait_error: Option<String>,
) -> (r: CleanupResult)
    ensures
        match (status, wait_error) {
            (Ok(true), _) => r is Ok,
            (_, None) => r is Ok,
            (_, Some(error)) => r matches Err(message) && message@ == reap_failure(
                (match status {
                    Ok(_) => None,
                    Err(query) => Some(query@),
                }),
                text_of(kill_error),
                error@,
            ),
        },
{
    if !needs_termination(&status) {
        return Ok(());
    }
    let wait_error = match wait_error {
        Some(error) => error,
        None => {
            return Ok(());
        },
    };
    let first = match &status {
        Ok(_) => String::new(),
        Err(error) => joined3(
            "failed to query tmux Control Mode client before termination: ",
            error.as_str(),
            "; ",
        ),
    };
    let second = match &kill_error {
        Some(error) => joined3(
            "failed to terminate tmux Control Mode client: ",
            error.as_str(),
            "; ",
        ),
        None => String::new(),
    };
    let third = joined("failed to reap tmux Control Mode client: ", wait_error.as_str());
    Err(joined3(first.as_str(), second.as_str(), third.as_str()))
}

/// What the waiter does next.
#[derive(Debug, PartialEq, Eq)]
pub enum WaitPhase {
    /// Wait for a command, for a short time.
    AwaitCommand,
    /// Check that the socket still belongs to the same server.
    CheckSocket,
    /// Write a target probe, if the session is known.
    WriteProbe,
    /// Check whether the client has exited.
    CheckChild,
    /// Stop waiting, and first end the client where `terminate` is set.
    Finish { cause: TmuxWaitCause, terminate: bool },
}

/// What happened in a phase.
#[derive(Debug, PartialEq, Eq)]
pub enum WaitEvent {
    Command(TmuxControlCommand),
    /// No command came; `poll_due` says whether the pane is to be checked.
    NoCommand { poll_due: bool },
    CommandsClosed,
    SocketMatches(bool),
    ProbeWritten(Result<(), String>),
    /// Whether the client has exited, or why that is not known.
    Child(Result<bool, String>),
}

/// What follows in the wait from what happened.
pub open spec fn wait_next(event: WaitEvent) -> WaitPhase {
    match event {
        WaitEvent::Command(TmuxControlCommand::Interrupt(reason)) => WaitPhase::Finish {
            cause: TmuxWaitCause::Interrupted(reason),
            terminate: true,
        },
        WaitEvent::Command(TmuxControlCommand::ReaderTerminated) => WaitPhase::Finish {
            cause: TmuxWaitCause::ReaderTerminated,
            terminate: true,
        },
        WaitEvent::Command(TmuxControlCommand::Shutdown) => WaitPhase::Finish {
            cause: TmuxWaitCause::Shutdown,
            terminate: true,
        },
        WaitEvent::CommandsClosed => WaitPhase::Finish {
            cause: TmuxWaitCause::CommandChannelClosed,
            terminate: true,
        },
        WaitEvent::NoCommand { poll_due } => if poll_due {
            WaitPhase::CheckSocket
        } else {
            WaitPhase::CheckChild
        },
        WaitEvent::SocketMatches(matches) => if matches {
            WaitPhase::WriteProbe
        } else {
            WaitPhase::Finish { cause: TmuxWaitCause::SocketTargetChanged, terminate: true }
        },
        WaitEvent::ProbeWritten(Ok(_)) => WaitPhase::CheckChild,
        WaitEvent::ProbeWritten(Err(error)) => WaitPhase::Finish {
            cause: TmuxWaitCause::ProbeWriteFailed(error),
            terminate: true,
        },
        WaitEvent::Child(Ok(exited)) => if exited {
            WaitPhase::Finish { cause: TmuxWaitCause::ChildExited, terminate: false }
        } else {
            WaitPhase::AwaitCommand
        },
        WaitEvent::Child(Err(error)) => WaitPhase::Finish {
            cause: TmuxWaitCause::ChildStatusFailed(error),
            terminate: true,
        },
    }
}

/// Decide what the wait for the Control Mode client does next. Only a client
/// that has exited is not ended.
pub fn wait_for_tmux_control(event: WaitEvent) -> (r: WaitPhase)
    ensures
        r == wait_next(event),
        r matches WaitPhase::Finish { cause, terminate } ==> terminate == !(cause is ChildExited),
{
    match event {
        WaitEvent::Command(TmuxControlCommand::Interrupt(reason)) => WaitPhase::Finish {
            cause: TmuxWaitCause::Interrupted(reason),
            terminate: true,
        },
        WaitEvent::Command(TmuxControlCommand::ReaderTerminated) => WaitPhase::Finish {
            cause: TmuxWaitCause::ReaderTerminated,
            terminate: true,
        },
        WaitEvent::Command(TmuxControlCommand::Shutdown) => WaitPhase::Finish {
            cause: TmuxWaitCause::Shutdown,
            terminate: true,
        },
        WaitEvent::CommandsClosed => WaitPhase::Finish {
            cause: TmuxWaitCause::CommandChannelClosed,
            terminate: true,
        },
        WaitEvent::NoCommand { poll_due } => if poll_due {
            WaitPhase::CheckSocket
        } else {
            WaitPhase::CheckChild
        },
        WaitEvent::SocketMatches(matches) => if matches {
            WaitPhase::WriteProbe
        } else {
            WaitPhase::Finish { cause: TmuxWaitCause::SocketTargetChanged, terminate: true }
        },
        WaitEvent::ProbeWritten(Ok(_)) => WaitPhase::CheckChild,
        WaitEvent::ProbeWritten(Err(error)) => WaitPhase::Finish {
            cause: TmuxWaitCause::ProbeWriteFailed(error),
            terminate: true,
        },
        WaitEvent::Child(Ok(exited)) => if exited {
            WaitPhase::Finish { cause: TmuxWaitCause::ChildExited, terminate: false }
        } else {
            WaitPhase::AwaitCommand
        },
        WaitEvent::Child(Err(error)) => WaitPhase::Finish {
            cause: TmuxWaitCause::ChildStatusFailed(error),
            terminate: true,
        },
    }
}

/// Judge the cleanup of a finished wait by how the client was ended.
pub fn wait_outcome(cause: TmuxWaitCause, terminated: CleanupResult) -> (r: TmuxWaitOutcome)
    ensures
        r.cause == cause,
        match cause {
            TmuxWaitCause::ChildExited => r.cleanup is Ok,
            TmuxWaitCause::ChildStatusFailed(error) => r.cleanup matches Err(message) && message@
                == combined(
                terminated,
                "failed to query tmux Control Mode client status: "@ + error@,
            ),
            _ => r.cleanup == terminated,
        },
{
    let cleanup = match &cause {
        TmuxWaitCause::ChildExited => Ok(()),
        TmuxWaitCause::ChildStatusFailed(error) => {
            let failure = joined(
                "failed to query tmux Control Mode client status: ",
                error.as_str(),
            );
            combine_cleanup_failure(terminated, failure.as_str())
        },
        _ => terminated,
    };
    TmuxWaitOutcome { cause, cleanup }
}

/// What became of the reader of the stream.
#[derive(Debug, PartialEq, Eq)]
pub enum ReaderReport {
    Ended(TmuxReaderTermination),
    TimedOut,
    Lost,
}

/// What a finished wait amounts to.
#[derive(Debug, PartialEq, Eq)]
pub struct CompletedControl {
    /// Why the import fails, if it was not ready yet, and why the Run is
    /// interrupted.
    pub termination: TmuxTermination,
    /// Whether everything was cleaned up.
    pub cleanup: CleanupResult,
}

/// Conclude the wait with what became of the reader.
pub fn complete_tmux_control(
    outcome: TmuxWaitOutcome,
    reader: ReaderReport,
    control_pid: u32,
) -> (r: CompletedControl)
    ensures
        match reader {
            ReaderReport::Ended(_) => r.cleanup == outcome.cleanup,
            ReaderReport::TimedOut => r.cleanup matches Err(message) && message@ == combined(
                outcome.cleanup,
                "tmux output reader did not finish during shutdown"@,
            ),
            ReaderReport::Lost => r.cleanup matches Err(message) && message@ == combined(
                outcome.cleanup,
                "tmux output reader ended without a completion receipt"@,
            ),
        },
        if reader_explains(outcome.cause) && reader is Ended {
            r.termination == reader->Ended_0.failure
        } else {
            r.termination.says(
                code_of(cause_reason(outcome.cause)),
                cause_says(outcome.cause, control_pid),
                cause_reason(outcome.cause),
            )
        },
{
    let TmuxWaitOutcome { cause, cleanup } = outcome;
    let (termination, cleanup) = match reader {
        ReaderReport::Ended(termination) => (Some(termination), cleanup),
        ReaderReport::TimedOut => (
            None,
            combine_cleanup_failure(cleanup, "tmux output reader did not finish during shutdown"),
        ),
        ReaderReport::Lost => (
            None,
            combine_cleanup_failure(
                cleanup,
                "tmux output reader ended without a completion receipt",
            ),
        ),
    };
    CompletedControl {
        termination: resolve_tmux_termination(cause, termination, control_pid),
        cleanup,
    }
}

/// One item of the Control Mode stream.
#[derive(Debug, PartialEq, Eq)]
pub enum ControlItem {
    Output { pane_id: String, data: Vec<u8> },
    SessionChanged { session_id: String },
    CommandResult { number: u64, success: bool, output: Vec<Vec<u8>> },
    SessionRenamed { session_id: String, name: String },
    WindowClosed { window_id: String },
    Paused { pane_id: String },
    Continued { pane_id: String },
    Exit,
    Notification,
}

/// A command to write to tmux, and the action that fails if it cannot be
/// written.
#[derive(Debug, PartialEq, Eq)]
pub struct TmuxWrite {
    pub kind: TmuxCommandKind,
    pub command: String,
    pub action: &'static str,
}

/// What follows from one item.
#[derive(Debug, PartialEq, Eq)]
pub enum ItemOutcome {
    /// Nothing.
    Done,
    /// Write a command, then report it with
    /// [`TmuxObservation::finish_write`].
    Write(TmuxWrite),
    /// Announce that the import is ready.
    Ready,
    /// Stop observing.
    Failed(TmuxTermination),
}

/// Events to publish in order, and what follows.
#[derive(Debug, PartialEq, Eq)]
pub struct ItemStep {
    pub events: Vec<RunEvent>,
    pub outcome: ItemOutcome,
}

/// What is known of an observed pane. `tracker` is absent once the control
/// client was closed.
pub struct ObservationView {
    pub tracker: Option<TrackerView>,
    pub ready: bool,
    pub session_id: Seq<char>,
    pub window_id: Seq<char>,
    pub pane_id: Seq<char>,
}

impl ObservationView {
    /// Why the Run is interrupted if the stream itself fails: before the
    /// import is ready that only shows that the server is unavailable.
    pub open spec fn stream_failure(&self) -> InterruptionReason {
        if self.ready {
            InterruptionReason::TmuxProtocolError
        } else {
            InterruptionReason::TmuxServerUnavailable
        }
    }

    /// Whether `outcome` is the attempt to write a command with this tracker.
    pub open spec fn attempts(
        tracker: Option<TrackerView>,
        kind: TmuxCommandKind,
        command: Seq<char>,
        action: Seq<char>,
        outcome: ItemOutcome,
    ) -> bool {
        let refused = |message: Seq<char>|
            (outcome matches ItemOutcome::Failed(failure) && failure.says(
                ErrorCode::BackendUnavailable,
                failed_to(action, message),
                InterruptionReason::TmuxServerUnavailable,
            ));
        match tracker {
            None => refused("tmux control client is closed"@),
            Some(tracker) => match tracker.enqueue(kind) {
                Err(message) => refused(message),
                Ok(false) => outcome is Done,
                Ok(true) => outcome matches ItemOutcome::Write(write) && write.kind == kind
                    && write.command@ == command && write.action@ == action,
            },
        }
    }

    /// The tracker after the session was seen.
    pub open spec fn with_session(&self) -> ObservationView {
        ObservationView {
            tracker: match self.tracker {
                Some(tracker) => Some(TrackerView { session_established: true, ..tracker }),
                None => None,
            },
            ..*self
        }
    }

    /// The state after a command result was correlated.
    pub open spec fn after_result(&self, number: u64) -> ObservationView {
        ObservationView {
            tracker: match self.tracker {
                Some(tracker) => Some(tracker.correlated(number)),
                None => None,
            },
            ..*self
        }
    }

    /// What a command result answers, or why it answers nothing.
    pub open spec fn answered(&self, number: u64) -> Result<TmuxCommandResultKind, Seq<char>> {
        match self.tracker {
            Some(tracker) => tracker.correlation(number),
            None => Err("tmux control client is closed"@),
        }
    }

    /// Whether `outcome` follows from a command result. `identity` is what the
    /// probe's line says: whether it names the same pane, or why it says
    /// nothing.
    pub open spec fn judges_result(
        &self,
        number: u64,
        success: bool,
        output: Seq<Vec<u8>>,
        identity: Result<bool, String>,
        after: ObservationView,
        outcome: ItemOutcome,
    ) -> bool {
        let fails = |code: ErrorCode, message: Seq<char>, reason: InterruptionReason|
            (outcome matches ItemOutcome::Failed(failure) && failure.says(code, message, reason)
                && after == self.after_result(number));
        match self.answered(number) {
            Err(message) => fails(
                ErrorCode::BackendUnavailable,
                failed_to("correlate tmux command result"@, message),
                self.stream_failure(),
            ),
            Ok(TmuxCommandResultKind::Bootstrap) => if success && output.len() == 0 {
                outcome is Done && after == self.after_result(number)
            } else {
                fails(
                    ErrorCode::BackendUnavailable,
                    "tmux Control Mode bootstrap returned an unexpected result"@,
                    InterruptionReason::TmuxServerUnavailable,
                )
            },
            Ok(TmuxCommandResultKind::Pending(kind)) => if !success {
                fails(
                    ErrorCode::TargetChanged,
                    "tmux pane "@ + self.pane_id + " no longer accepts adapter commands"@,
                    InterruptionReason::TmuxTargetChanged,
                )
            } else if kind == TmuxCommandKind::Continue {
                if output.len() == 0 {
                    outcome is Done && after == self.after_result(number)
                } else {
                    fails(
                        ErrorCode::BackendUnavailable,
                        "tmux continue command returned unexpected output"@,
                        InterruptionReason::TmuxProtocolError,
                    )
                }
            } else if output.len() != 1 {
                fails(
                    ErrorCode::BackendUnavailable,
                    "tmux target probe returned an unexpected output shape"@,
                    InterruptionReason::TmuxProtocolError,
                )
            } else {
                match identity {
                    Ok(true) => {
                        &&& after == (ObservationView { ready: true, ..self.after_result(number) })
                        &&& if self.ready {
                            outcome is Done
                        } else {
                            outcome is Ready
                        }
                    },
                    Ok(false) => fails(
                        ErrorCode::TargetChanged,
                        "tmux target identity changed after import"@,
                        InterruptionReason::TmuxTargetChanged,
                    ),
                    Err(error) => fails(
                        ErrorCode::BackendUnavailable,
                        failed_to("parse tmux target probe"@, error@),
                        InterruptionReason::TmuxProtocolError,
                    ),
                }
            },
        }
    }

    /// Whether `events` and `outcome` follow from an item, with the retained
    /// output `output` before and `retained` after it.
    pub open spec fn handles(
        &self,
        item: ControlItem,
        probe_command: Seq<char>,
        identity: Result<bool, String>,
        output: LogView,
        after: ObservationView,
        retained: LogView,
        events: Seq<RunEvent>,
        outcome: ItemOutcome,
    ) -> bool {
        let ignored = after == *self && retained == output && events.len() == 0 && outcome is Done;
        let fails = |code: ErrorCode, message: Seq<char>, reason: InterruptionReason|
            (outcome matches ItemOutcome::Failed(failure) && failure.says(code, message, reason)
                && after == *self && retained == output && events.len() == 0);
        match item {
            ControlItem::Output { pane_id, data } => if pane_id@ == self.pane_id && data@.len()
                > 0 {
                &&& after == *self
                &&& retained == output.pushed(data@)
                &&& events.len() == 1
                &&& events[0] matches RunEvent::Output { chunk } && chunk@
                    == output.next_chunk(data@)
                &&& outcome is Done
            } else {
                ignored
            },
            ControlItem::SessionChanged { session_id } => if session_id@ == self.session_id {
                &&& after == self.with_session()
                &&& retained == output
                &&& events.len() == 0
                &&& if self.tracker matches Some(tracker) && tracker.session_established {
                    outcome is Done
                } else {
                    ObservationView::attempts(
                        after.tracker,
                        TmuxCommandKind::TargetProbe,
                        probe_command,
                        "write initial tmux target probe"@,
                        outcome,
                    )
                }
            } else {
                fails(
                    ErrorCode::TargetChanged,
                    "tmux Control Mode client attached to a different session"@,
                    InterruptionReason::TmuxTargetChanged,
                )
            },
            ControlItem::CommandResult { number, success, output: lines } => {
                &&& retained == output
                &&& events.len() == 0
                &&& self.judges_result(number, success, lines@, identity, after, outcome)
            },
            ControlItem::SessionRenamed { session_id, name } => if session_id@ == self.session_id {
                &&& after == *self
                &&& retained == output
                &&& events == seq![RunEvent::Tmux { event: TmuxRunEvent::SessionRenamed { name } }]
                &&& outcome is Done
            } else {
                ignored
            },
            ControlItem::WindowClosed { window_id } => if window_id@ == self.window_id {
                fails(
                    ErrorCode::TargetChanged,
                    "tmux target window "@ + self.window_id + " closed"@,
                    InterruptionReason::TmuxTargetChanged,
                )
            } else {
                ignored
            },
            ControlItem::Paused { pane_id } => if pane_id@ == self.pane_id {
                &&& after == *self
                &&& retained == (LogView { gap: Some(output.latest), ..output })
                &&& events == seq![
                    RunEvent::Tmux { event: TmuxRunEvent::Paused },
                    RunEvent::Gap { latest_output_bytes: output.latest },
                ]
                &&& ObservationView::attempts(
                    self.tracker,
                    TmuxCommandKind::Continue,
                    "refresh-client -A "@ + self.pane_id + ":continue\n"@,
                    "write tmux continue command"@,
                    outcome,
                )
            } else {
                ignored
            },
            ControlItem::Continued { pane_id } => if pane_id@ == self.pane_id {
                &&& after == *self
                &&& retained == output
                &&& events == seq![RunEvent::Tmux { event: TmuxRunEvent::Continued }]
                &&& outcome is Done
            } else {
                ignored
            },
            ControlItem::Exit => fails(
                ErrorCode::BackendUnavailable,
                "tmux Control Mode client reported exit"@,
                InterruptionReason::TmuxServerUnavailable,
            ),
            ControlItem::Notification => ignored,
        }
    }

    /// Whether `events` and `outcome` follow from what the reader of the
    /// stream saw.
    pub open spec fn reads(
        &self,
        seen: StreamEvent,
        probe_command: Seq<char>,
        output: LogView,
        after: ObservationView,
        retained: LogView,
        events: Seq<RunEvent>,
        outcome: ItemOutcome,
    ) -> bool {
        let fails = |message: Seq<char>, reason: InterruptionReason|
            (outcome matches ItemOutcome::Failed(failure) && failure.says(
                ErrorCode::BackendUnavailable,
                message,
                reason,
            ));
        match seen {
            StreamEvent::Item { item, identity } => self.handles(
                item,
                probe_command,
                identity,
                output,
                after,
                retained,
                events,
                outcome,
            ),
            _ => {
                &&& after == *self
                &&& retained == output
                &&& events.len() == 0
                &&& match seen {
                    StreamEvent::Eof(Ok(_)) => fails(
                        "tmux Control Mode stream closed"@,
                        InterruptionReason::TmuxServerUnavailable,
                    ),
                    StreamEvent::Eof(Err(error)) => fails(
                        failed_to("finish tmux Control Mode stream"@, error@),
                        self.stream_failure(),
                    ),
                    StreamEvent::ReadFailed(error) => fails(
                        failed_to("read tmux Control Mode stream"@, error@),
                        self.stream_failure(),
                    ),
                    StreamEvent::ParseFailed(error) => fails(
                        failed_to("parse tmux Control Mode stream"@, error@),
                        self.stream_failure(),
                    ),
                    _ => outcome is Done,
                }
            },
        }
    }
}

/// What the reader of the stream saw.
#[derive(Debug, PartialEq, Eq)]
pub enum StreamEvent {
    /// The stream ended; the parser says whether it ended between items.
    Eof(Result<(), String>),
    /// Reading failed.
    ReadFailed(String),
    /// A line is not Control Mode.
    ParseFailed(String),
    /// A line that completes no item.
    NoItem,
    /// A complete item. `identity` is what the first line of a command result
    /// says of the observed pane.
    Item { item: ControlItem, identity: Result<bool, String> },
}

/// Observation of one imported pane.
pub struct TmuxObservation {
    tracker: Option<TmuxCommandTracker>,
    ready: bool,
    target: TmuxPaneInfo,
}

fn attempt_write(
    tracker: &Option<TmuxCommandTracker>,
    kind: TmuxCommandKind,
    command: String,
    action: &'static str,
) -> (r: ItemOutcome)
    ensures
        ObservationView::attempts(
            (match *tracker {
                Some(tracker) => Some(tracker@),
                None => None,
            }),
            kind,
            command@,
            action@,
            r,
        ),
{
    let refusal = match tracker {
        None => "tmux control client is closed",
        Some(tracker) => match tracker.prepare_enqueue(kind) {
            Ok(true) => {
                return ItemOutcome::Write(TmuxWrite { kind, command, action });
            },
            Ok(false) => {
                return ItemOutcome::Done;
            },
            Err(message) => message,
        },
    };
    ItemOutcome::Failed(
        tmux_control_failure(
            backend_protocol_error(action, refusal),
            InterruptionReason::TmuxServerUnavailable,
        ),
    )
}

fn failed(code: ErrorCode, message: &str, reason: InterruptionReason) -> (r: ItemOutcome)
    ensures
        r matches ItemOutcome::Failed(failure) && failure.says(code, message@, reason),
{
    ItemOutcome::Failed(tmux_control_failure(protocol_error(code, message), reason))
}

impl TmuxObservation {
    /// What is known of the pane.
    pub closed spec fn view(&self) -> ObservationView {
        ObservationView {
            tracker: match self.tracker {
                Some(tracker) => Some(tracker@),
                None => None,
            },
            ready: self.ready,
            session_id: self.target.session_id@,
            window_id: self.target.window_id@,
            pane_id: self.target.pane_id@,
        }
    }

    /// Whether the tracker keeps its invariant.
    pub closed spec fn wf(&self) -> bool {
        self.tracker matches Some(tracker) ==> tracker@.valid()
    }

    /// What a well-formed observation keeps.
    pub proof fn lemma_wf_is_valid(&self)
        requires
            self.wf(),
        ensures
            self@.tracker matches Some(tracker) ==> tracker.valid(),
    {
    }

    /// An observation before the first line of the stream.
    pub fn new(target: TmuxPaneInfo) -> (r: TmuxObservation)
        ensures
            r.wf(),
            r@ == (ObservationView {
                tracker: Some(TrackerView::initial()),
                ready: false,
                session_id: target.session_id@,
                window_id: target.window_id@,
                pane_id: target.pane_id@,
            }),
    {
        TmuxObservation {
            tracker: Some(TmuxCommandTracker::new()),
            ready: false,
            target,
        }
    }

    /// Close the control client. Whether it was open is returned.
    pub fn close_writer(&mut self) -> (r: bool)
        requires
            old(self).wf(),
        ensures
            final(self).wf(),
            r == (old(self)@.tracker is Some),
            final(self)@ == (ObservationView { tracker: None, ..old(self)@ }),
    {
        let was_open = self.tracker.is_some();
        self.tracker = None;
        was_open
    }

    /// Ask for a periodic probe: nothing before the session is known.
    pub fn periodic_probe(&self, probe_command: String) -> (r: ItemOutcome)
        requires
            self.wf(),
        ensures
            if self@.tracker matches Some(tracker) && !tracker.session_established {
                r is Done
            } else {
                ObservationView::attempts(
                    self@.tracker,
                    TmuxCommandKind::TargetProbe,
                    probe_command@,
                    "write tmux target probe"@,
                    r,
                )
            },
    {
        if let Some(tracker) = &self.tracker {
            if !tracker.session_established() {
                return ItemOutcome::Done;
            }
        }
        attempt_write(
            &self.tracker,
            TmuxCommandKind::TargetProbe,
            probe_command,
            "write tmux target probe",
        )
    }

    /// Conclude an attempted write. A command counts as unanswered only once it
    /// was written; one that could not be written ends the observation.
    pub fn finish_write(&mut self, write: TmuxWrite, written: Result<(), String>) -> (r: Result<
        (),
        TmuxTermination,
    >)
        requires
            old(self).wf(),
            old(self)@.tracker matches Some(tracker) && tracker.enqueue(write.kind) == Ok::<
                bool,
                Seq<char>,
            >(true),
        ensures
            final(self).wf(),
            match written {
                Ok(_) => {
                    &&& r is Ok
                    &&& final(self)@ == (ObservationView {
                        tracker: Some(old(self)@.tracker->0.enqueued(write.kind)),
                        ..old(self)@
                    })
                },
                Err(error) => {
                    &&& r matches Err(failure) && failure.says(
                        ErrorCode::BackendUnavailable,
                        failed_to(write.action@, error@),
                        InterruptionReason::TmuxServerUnavailable,
                    )
                    &&& final(self)@ == old(self)@
                },
            },
    {
        match written {
            Ok(_) => {
                if let Some(tracker) = &mut self.tracker {
                    tracker.commit_enqueue(write.kind);
                }
                Ok(())
            },
            Err(error) => Err(
                tmux_control_failure(
                    backend_protocol_error(write.action, error.as_str()),
                    InterruptionReason::TmuxServerUnavailable,
                ),
            ),
        }
    }

    fn stream_failure(&self) -> (r: InterruptionReason)
        ensures
            r == self@.stream_failure(),
    {
        if self.ready {
            InterruptionReason::TmuxProtocolError
        } else {
            InterruptionReason::TmuxServerUnavailable
        }
    }

    /// Act on a command result of the stream.
    pub fn handle_tmux_command_result(
        &mut self,
        number: u64,
        success: bool,
        output: Vec<Vec<u8>>,
        identity: Result<bool, String>,
    ) -> (r: ItemOutcome)
        requires
            old(self).wf(),
        ensures
            final(self).wf(),
            old(self)@.judges_result(number, success, output@, identity, final(self)@, r),
    {
        let correlated = match &mut self.tracker {
            Some(tracker) => tracker.correlate_result(number),
            None => Err("tmux control client is closed"),
        };
        let kind = match correlated {
            Ok(kind) => kind,
            Err(message) => {
                return ItemOutcome::Failed(
                    tmux_control_failure(
                        backend_protocol_error("correlate tmux command result", message),
                        self.stream_failure(),
                    ),
                );
            },
        };
        match kind {
            TmuxCommandResultKind::Bootstrap => {
                if success && output.len() == 0 {
                    ItemOutcome::Done
                } else {
                    failed(
                        ErrorCode::BackendUnavailable,
                        "tmux Control Mode bootstrap returned an unexpected result",
                        InterruptionReason::TmuxServerUnavailable,
                    )
                }
            },
            TmuxCommandResultKind::Pending(kind) => {
                if !success {
                    let message = joined3(
                        "tmux pane ",
                        self.target.pane_id.as_str(),
                        " no longer accepts adapter commands",
                    );
                    return failed(
                        ErrorCode::TargetChanged,
                        message.as_str(),
                        InterruptionReason::TmuxTargetChanged,
                    );
                }
                match kind {
                    TmuxCommandKind::Continue => {
                        if output.len() == 0 {
                            ItemOutcome::Done
                        } else {
                            failed(
                                ErrorCode::BackendUnavailable,
                                "tmux continue command returned unexpected output",
                                InterruptionReason::TmuxProtocolError,
                            )
                        }
                    },
                    TmuxCommandKind::TargetProbe => {
                        if output.len() != 1 {
                            return failed(
                                ErrorCode::BackendUnavailable,
                                "tmux target probe returned an unexpected output shape",
                                InterruptionReason::TmuxProtocolError,
                            );
                        }
                        match identity {
                            Ok(true) => {
                                if self.ready {
                                    ItemOutcome::Done
                                } else {
                                    self.ready = true;
                                    ItemOutcome::Ready
                                }
                            },
                            Ok(false) => failed(
                                ErrorCode::TargetChanged,
                                "tmux target identity changed after import",
                                InterruptionReason::TmuxTargetChanged,
                            ),
                            Err(error) => ItemOutcome::Failed(
                                tmux_control_failure(
                                    backend_protocol_error(
                                        "parse tmux target probe",
                                        error.as_str(),
                                    ),
                                    InterruptionReason::TmuxProtocolError,
                                ),
                            ),
                        }
                    },
                }
            },
        }
    }

    /// Act on one item of the stream.
    pub fn handle_tmux_control_item(
        &mut self,
        item: ControlItem,
        probe_command: String,
        identity: Result<bool, String>,
        output: &mut OutputLog,
    ) -> (r: ItemStep)
        requires
            old(self).wf(),
            old(output).wf(),
            item matches ControlItem::Output { data, .. } ==> old(output)@.has_cursor_space(data@),
        ensures
            final(self).wf(),
            final(output).wf(),
            old(self)@.handles(
                item,
                probe_command@,
                identity,
                old(output)@,
                final(self)@,
                final(output)@,
                r.events@,
                r.outcome,
            ),
    {
        let mut events: Vec<RunEvent> = Vec::new();
        match item {
            ControlItem::Output { pane_id, data } => {
                if same_text(&pane_id, &self.target.pane_id) && data.len() > 0 {
                    let chunk = output.push(data);
                    events.push(RunEvent::Output { chunk });
                }
                ItemStep { events, outcome: ItemOutcome::Done }
            },
            ControlItem::SessionChanged { session_id } => {
                if !same_text(&session_id, &self.target.session_id) {
                    return ItemStep {
                        events,
                        outcome: failed(
                            ErrorCode::TargetChanged,
                            "tmux Control Mode client attached to a different session",
                            InterruptionReason::TmuxTargetChanged,
                        ),
                    };
                }
                if let Some(tracker) = &mut self.tracker {
                    if !tracker.observe_session() {
                        return ItemStep { events, outcome: ItemOutcome::Done };
                    }
                }
                let outcome = attempt_write(
                    &self.tracker,
                    TmuxCommandKind::TargetProbe,
                    probe_command,
                    "write initial tmux target probe",
                );
                ItemStep { events, outcome }
            },
            ControlItem::CommandResult { number, success, output: lines } => {
                let outcome = self.handle_tmux_command_result(number, success, lines, identity);
                ItemStep { events, outcome }
            },
            ControlItem::SessionRenamed { session_id, name } => {
                if same_text(&session_id, &self.target.session_id) {
                    let ghost renamed = RunEvent::Tmux {
                        event: TmuxRunEvent::SessionRenamed { name },
                    };
                    events.push(RunEvent::Tmux { event: TmuxRunEvent::SessionRenamed { name } });
                    assert(events@ =~= seq![renamed]);
                }
                ItemStep { events, outcome: ItemOutcome::Done }
            },
            ControlItem::WindowClosed { window_id } => {
                if same_text(&window_id, &self.target.window_id) {
                    let message = joined3("tmux target window ", window_id.as_str(), " closed");
                    return ItemStep {
                        events,
                        outcome: failed(
                            ErrorCode::TargetChanged,
                            message.as_str(),
                            InterruptionReason::TmuxTargetChanged,
                        ),
                    };
                }
                ItemStep { events, outcome: ItemOutcome::Done }
            },
            ControlItem::Paused { pane_id } => {
                if !same_text(&pane_id, &self.target.pane_id) {
                    return ItemStep { events, outcome: ItemOutcome::Done };
                }
                let latest_output_bytes: u64 = output.mark_source_gap();
                events.push(RunEvent::Tmux { event: TmuxRunEvent::Paused });
                events.push(RunEvent::Gap { latest_output_bytes });
                assert(events@ =~= seq![
                    RunEvent::Tmux { event: TmuxRunEvent::Paused },
                    RunEvent::Gap { latest_output_bytes },
                ]);
                let command = joined3("refresh-client -A ", pane_id.as_str(), ":continue\n");
                let outcome = attempt_write(
                    &self.tracker,
                    TmuxCommandKind::Continue,
                    command,
                    "write tmux continue command",
                );
                ItemStep { events, outcome }
            },
            ControlItem::Continued { pane_id } => {
                if same_text(&pane_id, &self.target.pane_id) {
                    events.push(RunEvent::Tmux { event: TmuxRunEvent::Continued });
                    assert(events@ =~= seq![RunEvent::Tmux { event: TmuxRunEvent::Continued }]);
                }
                ItemStep { events, outcome: ItemOutcome::Done }
            },
            ControlItem::Exit => ItemStep {
                events,
                outcome: failed(
                    ErrorCode::BackendUnavailable,
                    "tmux Control Mode client reported exit",
                    InterruptionReason::TmuxServerUnavailable,
                ),
            },
            ControlItem::Notification => ItemStep { events, outcome: ItemOutcome::Done },
        }
    }

    /// Act on what the reader of the stream saw.
    pub fn read_tmux_output(
        &mut self,
        seen: StreamEvent,
        probe_command: String,
        output: &mut OutputLog,
    ) -> (r: ItemStep)
        requires
            old(self).wf(),
            old(output).wf(),
            seen matches StreamEvent::Item { item: ControlItem::Output { data, .. }, .. }
                ==> old(output)@.has_cursor_space(data@),
        ensures
            final(self).wf(),
            final(output).wf(),
            old(self)@.reads(
                seen,
                probe_command@,
                old(output)@,
                final(self)@,
                final(output)@,
                r.events@,
                r.outcome,
            ),
    {
        let (action, error) = match seen {
            StreamEvent::Item { item, identity } => {
                return self.handle_tmux_control_item(item, probe_command, identity, output);
            },
            StreamEvent::NoItem => {
                return ItemStep { events: Vec::new(), outcome: ItemOutcome::Done };
            },
            StreamEvent::Eof(Ok(_)) => {
                return ItemStep {
                    events: Vec::new(),
                    outcome: failed(
                        ErrorCode::BackendUnavailable,
                        "tmux Control Mode stream closed",
                        InterruptionReason::TmuxServerUnavailable,
                    ),
                };
            },
            StreamEvent::Eof(Err(error)) => ("finish tmux Control Mode stream", error),
            StreamEvent::ReadFailed(error) => ("read tmux Control Mode stream", error),
            StreamEvent::ParseFailed(error) => ("parse tmux Control Mode stream", error),
        };
        ItemStep {
            events: Vec::new(),
            outcome: ItemOutcome::Failed(
                tmux_control_failure(
                    backend_protocol_error(action, error.as_str()),
                    self.stream_failure(),
                ),
            ),
        }
    }
}

/// A cause of the owner decides alone: what the reader saw while the owner
/// cleaned up does not change the reason of the interruption.
pub proof fn law_owner_causes_are_not_overwritten(
    cause: TmuxWaitCause,
    reader: Option<TmuxReaderTermination>,
    control_pid: u32,
    resolved: TmuxTermination,
)
    requires
        !reader_explains(cause),
        if reader_explains(cause) && reader is Some {
            resolved == reader->0.failure
        } else {
            resolved.says(
                code_of(cause_reason(cause)),
                cause_says(cause, control_pid),
                cause_reason(cause),
            )
        },
    ensures
        resolved.reason == cause_reason(cause),
        resolved.error.code == code_of(cause_reason(cause)),
        resolved.error.message@ == cause_says(cause, control_pid),
{
}

/// An import becomes ready at most once.
pub proof fn law_readiness_is_announced_once(
    before: ObservationView,
    item: ControlItem,
    probe_command: Seq<char>,
    identity: Result<bool, String>,
    output: LogView,
    after: ObservationView,
    retained: LogView,
    events: Seq<RunEvent>,
    outcome: ItemOutcome,
)
    requires
        before.handles(
            item,
            probe_command,
            identity,
            output,
            after,
            retained,
            events,
            outcome,
        ),
    ensures
        outcome is Ready ==> !before.ready && after.ready,
        before.ready ==> after.ready,
{
}

/// While the observation goes on, the last retained cursor never moves back
/// and every published output follows the retained output without a hole.
pub proof fn law_observation_publishes_output_in_order(
    before: ObservationView,
    item: ControlItem,
    probe_command: Seq<char>,
    identity: Result<bool, String>,
    output: LogView,
    after: ObservationView,
    retained: LogView,
    events: Seq<RunEvent>,
    outcome: ItemOutcome,
)
    requires
        before.handles(
            item,
            probe_command,
            identity,
            output,
            after,
            retained,
            events,
            outcome,
        ),
        item matches ControlItem::Output { data, .. } ==> output.has_cursor_space(data@),
    ensures
        retained.latest >= output.latest,
        forall|i: int|
            0 <= i < events.len() ==> (#[trigger] events[i] matches RunEvent::Output { chunk }
                ==> chunk@.start_byte == output.latest && chunk@.end_byte == retained.latest),
{
}

} // verus!
