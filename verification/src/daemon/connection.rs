//! One client connection: the greeting, the one request that it carries, and
//! the answer to it.

use vstd::prelude::*;

use crate::daemon::attachment::invalid_request;
use crate::daemon::manager::{pin_refusal, ManagerView, RunManager};
use crate::daemon::upgrade::{
    upgrade_retry_error, GateView, UpgradeRequestAdmission, UpgradeRequestGate,
};
use crate::identity::RunId;
use crate::protocol::{
    control_failure_not_applied, protocol_error, AppliedInputRange, ClientFrame,
    CommandDisposition, ControlFailure, ControlResult, ErrorCode, OperationKey, ProtocolError,
    RecoverableInput, Request, Response, RunInfo, RunSignal, ServerFrame, TerminalSize,
    TmuxPaneInfo, PROTOCOL_VERSION,
};
use crate::run_spec::CreationRequest;
use crate::text::{decimal, decimal_text, joined, joined3};

verus! {

/// What a connection waits for.
#[derive(Debug, Clone, Copy, PartialEq, Eq, Structural)]
pub enum ConnectionPhase {
    AwaitHello,
    AwaitRequest,
}

/// What a connection does next. `Execute` and `Attach` hold a permit of the
/// upgrade barrier until the answer is written; so does `Retry`, until its frame
/// is.
#[derive(Debug, PartialEq, Eq)]
pub enum ConnectionStep {
    /// Show who this daemon is and wait for the request.
    Greet,
    /// Send this and close.
    Refuse(ServerFrame),
    Retry(ServerFrame),
    Close,
    Attach { id: RunId, after_byte: u64 },
    Execute(Request),
}

/// Whether a frame is an error with this code and detail.
pub open spec fn is_error(frame: ServerFrame, code: ErrorCode, message: Seq<char>) -> bool {
    frame matches ServerFrame::Error { error } && error.says(code, message)
}

/// What a connection does with what it received; `None` is the end of the
/// stream.
pub open spec fn connection_next(
    phase: ConnectionPhase,
    received: Option<ClientFrame>,
    gate: GateView,
    step: ConnectionStep,
    after: GateView,
) -> bool {
    match phase {
        ConnectionPhase::AwaitHello => {
            &&& after == gate
            &&& match received {
                Some(ClientFrame::Hello { protocol }) => if protocol == PROTOCOL_VERSION {
                    step is Greet
                } else {
                    step matches ConnectionStep::Refuse(frame) && is_error(
                        frame,
                        ErrorCode::VersionMismatch,
                        "client protocol "@ + decimal(protocol as nat)
                            + " does not match daemon protocol "@ + decimal(
                            PROTOCOL_VERSION as nat,
                        ),
                    )
                },
                _ => step matches ConnectionStep::Refuse(frame) && is_error(
                    frame,
                    ErrorCode::InvalidRequest,
                    "first frame must be hello"@,
                ),
            }
        },
        ConnectionPhase::AwaitRequest => match received {
            None => step is Close && after == gate,
            Some(ClientFrame::Request { request }) => {
                &&& after == gate.admitted()
                &&& match gate.admission() {
                    UpgradeRequestAdmission::Execute => match request {
                        Request::Attach { id, after_byte } => step == (ConnectionStep::Attach {
                            id,
                            after_byte,
                        }),
                        _ => step == ConnectionStep::Execute(request),
                    },
                    UpgradeRequestAdmission::Retry => step matches ConnectionStep::Retry(frame)
                        && is_error(
                        frame,
                        ErrorCode::BackendUnavailable,
                        "ctxmux daemon is draining for an exec-in-place upgrade; reconnect and retry"@,
                    ),
                    UpgradeRequestAdmission::Sealed => step is Close,
                }
            },
            Some(_) => {
                &&& after == gate
                &&& step matches ConnectionStep::Refuse(frame) && is_error(
                    frame,
                    ErrorCode::InvalidRequest,
                    "expected request after hello"@,
                )
            },
        },
    }
}

/// Decide what a connection does with what it received.
pub fn handle_connection(
    phase: ConnectionPhase,
    received: Option<ClientFrame>,
    gate: &mut UpgradeRequestGate,
) -> (r: ConnectionStep)
    requires
        old(gate)@.valid(),
        old(gate)@.active < usize::MAX,
    ensures
        final(gate)@.valid(),
        connection_next(phase, received, old(gate)@, r, final(gate)@),
{
    match phase {
        ConnectionPhase::AwaitHello => match received {
            Some(ClientFrame::Hello { protocol }) => {
                if protocol == PROTOCOL_VERSION {
                    return ConnectionStep::Greet;
                }
                let theirs = decimal_text(protocol as u64);
                let mine = decimal_text(PROTOCOL_VERSION as u64);
                let subject = joined3(
                    "client protocol ",
                    theirs.as_str(),
                    " does not match daemon protocol ",
                );
                ConnectionStep::Refuse(
                    ServerFrame::Error {
                        error: ProtocolError {
                            code: ErrorCode::VersionMismatch,
                            message: joined(subject.as_str(), mine.as_str()),
                        },
                    },
                )
            },
            _ => ConnectionStep::Refuse(invalid_request("first frame must be hello")),
        },
        ConnectionPhase::AwaitRequest => match received {
            None => ConnectionStep::Close,
            Some(ClientFrame::Request { request }) => match gate.admit_request() {
                UpgradeRequestAdmission::Execute => match request {
                    Request::Attach { id, after_byte } => ConnectionStep::Attach {
                        id,
                        after_byte,
                    },
                    request => ConnectionStep::Execute(request),
                },
                UpgradeRequestAdmission::Retry => ConnectionStep::Retry(
                    ServerFrame::Error { error: upgrade_retry_error() },
                ),
                UpgradeRequestAdmission::Sealed => ConnectionStep::Close,
            },
            Some(_) => ConnectionStep::Refuse(invalid_request("expected request after hello")),
        },
    }
}

/// No request is executed or attached while the barrier is not open, and every
/// connection that takes a permit answers.
pub proof fn law_no_request_runs_during_a_drain(
    phase: ConnectionPhase,
    received: Option<ClientFrame>,
    gate: GateView,
    step: ConnectionStep,
    after: GateView,
)
    requires
        connection_next(phase, received, gate, step, after),
    ensures
        step is Execute || step is Attach ==> gate.phase is Open,
        step is Execute || step is Attach || step is Retry <==> after.active == gate.active + 1,
        !(step is Execute || step is Attach || step is Retry) ==> after == gate,
{
}

/// What a short control command does to a Run.
#[derive(Debug, PartialEq, Eq)]
pub enum ControlWork {
    Input { data: Vec<u8> },
    Resize { size: TerminalSize },
    Signal { signal: RunSignal },
    Stop,
}

/// What a request needs done.
#[derive(Debug, PartialEq, Eq)]
pub enum RequestStep {
    /// Create a Run; `forked` tells how to answer.
    Create { operation_key: OperationKey, request: CreationRequest, forked: bool },
    DiscoverTmux { socket_path: String },
    /// Import a pane, with a creation flight.
    ImportTmux { socket_path: String, pane_id: String },
    List,
    Status { id: RunId },
    /// The Run is there: give it the command.
    Control { id: RunId, work: ControlWork },
    RecoverableInput { operation: RecoverableInput },
    /// Nothing has to be done.
    Answered(Result<Response, ProtocolError>),
}

/// Whether a step answers that a command was not applied, for this reason.
pub open spec fn rejects_control(step: RequestStep, code: ErrorCode, message: Seq<char>) -> bool {
    step matches RequestStep::Answered(Ok(Response::ControlRejected { failure }))
        && failure.disposition == CommandDisposition::NotApplied && failure.error.says(
        code,
        message,
    )
}

/// Whether a step is this control work on a Run, or the reason why the Run
/// cannot take it.
pub open spec fn controls(
    manager: ManagerView,
    id: RunId,
    work: ControlWork,
    step: RequestStep,
) -> bool {
    match pin_refusal(manager, id) {
        Some(refusal) => rejects_control(step, refusal.0, refusal.1),
        None => step == (RequestStep::Control { id, work }),
    }
}

/// What a request needs done.
pub open spec fn request_next(manager: ManagerView, request: Request, step: RequestStep) -> bool {
    match request {
        Request::Start { operation_key, spec } => step == (RequestStep::Create {
            operation_key,
            request: CreationRequest::Start { spec },
            forked: false,
        }),
        Request::Fork { operation_key, parent, plan } => step == (RequestStep::Create {
            operation_key,
            request: CreationRequest::Fork { parent, plan },
            forked: true,
        }),
        Request::DiscoverTmux { socket_path } => step == (RequestStep::DiscoverTmux {
            socket_path,
        }),
        Request::ImportTmux { socket_path, pane_id } => if manager.persistent {
            step matches RequestStep::Answered(Err(e)) && e.says(
                ErrorCode::UnsupportedCapability,
                "tmux pane import is not persisted; use a memory-only ctxmux daemon"@,
            )
        } else {
            step == (RequestStep::ImportTmux { socket_path, pane_id })
        },
        Request::List => step is List,
        Request::Status { id } => step == (RequestStep::Status { id }),
        Request::Input { id, data } => controls(manager, id, ControlWork::Input { data }, step),
        Request::Resize { id, size } => controls(manager, id, ControlWork::Resize { size }, step),
        Request::Signal { id, signal } => controls(
            manager,
            id,
            ControlWork::Signal { signal },
            step,
        ),
        Request::Stop { id } => controls(manager, id, ControlWork::Stop, step),
        Request::RecoverableInput { operation } => if operation.daemon_instance_id
            != manager.daemon_instance {
            rejects_control(
                step,
                ErrorCode::DaemonInstanceMismatch,
                "recoverable native Input belongs to another daemon incarnation"@,
            )
        } else {
            match pin_refusal(manager, operation.id) {
                Some(refusal) => rejects_control(step, refusal.0, refusal.1),
                None => step == (RequestStep::RecoverableInput { operation }),
            }
        },
        Request::Attach { .. } => step matches RequestStep::Answered(Err(e)) && e.says(
            ErrorCode::Internal,
            "attach request reached short-lived request handler"@,
        ),
    }
}

fn rejected(error: ProtocolError) -> (r: RequestStep)
    ensures
        rejects_control(r, error.code, error.message@),
{
    RequestStep::Answered(
        Ok(Response::ControlRejected { failure: control_failure_not_applied(error) }),
    )
}

fn control_step(manager: &RunManager, id: RunId, work: ControlWork) -> (r: RequestStep)
    requires
        manager@.valid(),
    ensures
        controls(manager@, id, work, r),
{
    match manager.pin(id) {
        Ok(_) => RequestStep::Control { id, work },
        Err(error) => rejected(error),
    }
}

/// Decide what a request needs done.
pub fn execute_request(manager: &RunManager, request: Request) -> (r: RequestStep)
    requires
        manager@.valid(),
    ensures
        request_next(manager@, request, r),
{
    match request {
        Request::Start { operation_key, spec } => RequestStep::Create {
            operation_key,
            request: CreationRequest::Start { spec },
            forked: false,
        },
        Request::Fork { operation_key, parent, plan } => RequestStep::Create {
            operation_key,
            request: CreationRequest::Fork { parent, plan },
            forked: true,
        },
        Request::DiscoverTmux { socket_path } => RequestStep::DiscoverTmux { socket_path },
        Request::ImportTmux { socket_path, pane_id } => match manager.ensure_tmux_import_supported() {
            Ok(_) => RequestStep::ImportTmux { socket_path, pane_id },
            Err(error) => RequestStep::Answered(Err(error)),
        },
        Request::List => RequestStep::List,
        Request::Status { id } => RequestStep::Status { id },
        Request::Input { id, data } => control_step(manager, id, ControlWork::Input { data }),
        Request::Resize { id, size } => control_step(manager, id, ControlWork::Resize { size }),
        Request::Signal { id, signal } => control_step(
            manager,
            id,
            ControlWork::Signal { signal },
        ),
        Request::Stop { id } => control_step(manager, id, ControlWork::Stop),
        Request::RecoverableInput { operation } => {
            if operation.daemon_instance_id != manager.daemon_instance {
                return rejected(
                    protocol_error(
                        ErrorCode::DaemonInstanceMismatch,
                        "recoverable native Input belongs to another daemon incarnation",
                    ),
                );
            }
            match manager.pin(operation.id) {
                Ok(_) => RequestStep::RecoverableInput { operation },
                Err(error) => rejected(error),
            }
        },
        Request::Attach { .. } => RequestStep::Answered(
            Err(
                protocol_error(
                    ErrorCode::Internal,
                    "attach request reached short-lived request handler",
                ),
            ),
        ),
    }
}

/// What came out of the work for a request.
#[allow(inconsistent_fields)]
#[derive(Debug, PartialEq, Eq)]
pub enum WorkOutcome {
    Created { run: Result<RunInfo, ProtocolError>, forked: bool },
    Discovered(Result<(String, Vec<TmuxPaneInfo>), ProtocolError>),
    Imported(Result<RunInfo, ProtocolError>),
    /// The worker of a tmux operation was lost.
    WorkerLost(String),
    Listed(Vec<RunInfo>),
    Status(Result<RunInfo, ProtocolError>),
    Control { run: RunInfo, result: ControlResult },
    InputApplied { run: RunInfo, result: Result<AppliedInputRange, ControlFailure> },
}

/// The answer to a short control command.
pub fn short_control_response(run: RunInfo, result: ControlResult) -> (r: Response)
    ensures
        r == (match result {
            Ok(receipt) => Response::ControlAccepted { run, receipt },
            Err(failure) => Response::ControlRejected { failure },
        }),
{
    match result {
        Ok(receipt) => Response::ControlAccepted { run, receipt },
        Err(failure) => Response::ControlRejected { failure },
    }
}

/// The answer to an Input that can be retried.
pub fn recoverable_input_response(
    run: RunInfo,
    result: Result<AppliedInputRange, ControlFailure>,
) -> (r: Response)
    ensures
        r == (match result {
            Ok(range) => Response::InputApplied { run, range },
            Err(failure) => Response::ControlRejected { failure },
        }),
{
    match result {
        Ok(range) => Response::InputApplied { run, range },
        Err(failure) => Response::ControlRejected { failure },
    }
}

/// Whether `r` answers with what came out of the work.
pub open spec fn answers(outcome: WorkOutcome, r: Result<Response, ProtocolError>) -> bool {
    match outcome {
        WorkOutcome::Created { run: Ok(run), forked } => r == Ok::<Response, ProtocolError>(
            if forked {
                Response::Forked { run }
            } else {
                Response::Started { run }
            },
        ),
        WorkOutcome::Created { run: Err(error), .. } => r == Err::<Response, ProtocolError>(error),
        WorkOutcome::Discovered(Ok(found)) => r == Ok::<Response, ProtocolError>(
            Response::TmuxPanes { tmux_version: found.0, panes: found.1 },
        ),
        WorkOutcome::Discovered(Err(error)) => r == Err::<Response, ProtocolError>(error),
        WorkOutcome::Imported(Ok(run)) => r == Ok::<Response, ProtocolError>(
            Response::Imported { run },
        ),
        WorkOutcome::Imported(Err(error)) => r == Err::<Response, ProtocolError>(error),
        WorkOutcome::WorkerLost(message) => r matches Err(e) && e.says(
            ErrorCode::BackendUnavailable,
            "tmux operation worker failed: "@ + message@,
        ),
        WorkOutcome::Listed(runs) => r == Ok::<Response, ProtocolError>(Response::Runs { runs }),
        WorkOutcome::Status(Ok(run)) => r == Ok::<Response, ProtocolError>(
            Response::Status { run },
        ),
        WorkOutcome::Status(Err(error)) => r == Err::<Response, ProtocolError>(error),
        WorkOutcome::Control { run, result: Ok(receipt) } => r == Ok::<Response, ProtocolError>(
            Response::ControlAccepted { run, receipt },
        ),
        WorkOutcome::Control { result: Err(failure), .. } => r == Ok::<Response, ProtocolError>(
            Response::ControlRejected { failure },
        ),
        WorkOutcome::InputApplied { run, result: Ok(range) } => r == Ok::<Response, ProtocolError>(
            Response::InputApplied { run, range },
        ),
        WorkOutcome::InputApplied { result: Err(failure), .. } => r
            == Ok::<Response, ProtocolError>(Response::ControlRejected { failure }),
    }
}

/// The answer to a request after its work.
pub fn answer_request(outcome: WorkOutcome) -> (r: Result<Response, ProtocolError>)
    ensures
        answers(outcome, r),
{
    match outcome {
        WorkOutcome::Created { run, forked } => match run {
            Ok(run) => {
                if forked {
                    Ok(Response::Forked { run })
                } else {
                    Ok(Response::Started { run })
                }
            },
            Err(error) => Err(error),
        },
        WorkOutcome::Discovered(found) => match found {
            Ok((tmux_version, panes)) => Ok(Response::TmuxPanes { tmux_version, panes }),
            Err(error) => Err(error),
        },
        WorkOutcome::Imported(run) => match run {
            Ok(run) => Ok(Response::Imported { run }),
            Err(error) => Err(error),
        },
        WorkOutcome::WorkerLost(message) => Err(
            ProtocolError {
                code: ErrorCode::BackendUnavailable,
                message: joined("tmux operation worker failed: ", message.as_str()),
            },
        ),
        WorkOutcome::Listed(runs) => Ok(Response::Runs { runs }),
        WorkOutcome::Status(run) => match run {
            Ok(run) => Ok(Response::Status { run }),
            Err(error) => Err(error),
        },
        WorkOutcome::Control { run, result } => Ok(short_control_response(run, result)),
        WorkOutcome::InputApplied { run, result } => Ok(recoverable_input_response(run, result)),
    }
}

/// The frame that carries an answer.
pub fn response_frame(answer: Result<Response, ProtocolError>) -> (r: ServerFrame)
    ensures
        r == (match answer {
            Ok(response) => ServerFrame::Response { response },
            Err(error) => ServerFrame::Error { error },
        }),
{
    match answer {
        Ok(response) => ServerFrame::Response { response },
        Err(error) => ServerFrame::Error { error },
    }
}

/// The Run that a control request is about.
pub open spec fn controlled_run(request: Request) -> Option<RunId> {
    match request {
        Request::Input { id, .. } => Some(id),
        Request::Resize { id, .. } => Some(id),
        Request::Signal { id, .. } => Some(id),
        Request::Stop { id } => Some(id),
        Request::RecoverableInput { operation } => Some(operation.id),
        _ => None,
    }
}

/// A control request for a Run that does not exist or is fenced is always
/// answered, as a rejection that had no effect.
pub proof fn law_a_refused_control_had_no_effect(
    manager: ManagerView,
    request: Request,
    step: RequestStep,
    id: RunId,
)
    requires
        request_next(manager, request, step),
        controlled_run(request) == Some(id),
        pin_refusal(manager, id) is Some,
    ensures
        step matches RequestStep::Answered(Ok(Response::ControlRejected { failure }))
            && failure.disposition == CommandDisposition::NotApplied,
{
}

/// Control work is only ever started on the Run that the request names, and
/// only while that Run can be held.
pub proof fn law_control_work_is_for_the_requested_run(
    manager: ManagerView,
    request: Request,
    id: RunId,
    work: ControlWork,
)
    requires
        request_next(manager, request, RequestStep::Control { id, work }),
    ensures
        controlled_run(request) == Some(id),
        pin_refusal(manager, id) is None,
{
}

} // verus!
