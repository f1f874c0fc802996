//! What becomes of a client's requests, from the call to its answer.

use vstd::prelude::*;

use crate::client::connector::{
    accept_hello, control_request, request as read_response, Client, ControlExchange, Received,
};
use crate::client::error::ClientError;
use crate::client::receipt::{
    decode_input_receipt, decode_resize_receipt, decode_signal_receipt, decode_stop_receipt,
    validate_control_failure, ControlAccepted, InputReceipt, ResizeReceipt, SignalReceipt,
    StopReceipt,
};
use crate::client::requests::{hello, ClientCall};
use crate::daemon::connection::{
    answer_request, execute_request, handle_connection, recoverable_input_response, response_frame,
    short_control_response, ConnectionPhase, ConnectionStep, ControlWork, RequestStep, WorkOutcome,
};
use crate::daemon::manager::RunManager;
use crate::daemon::registry::{lemma_place_of, Residency};
use crate::daemon::upgrade::{UpgradeRequestGate, UpgradeRequestPhase};
use crate::identity::RunId;
use crate::protocol::{
    AppliedInputRange, AttachedSnapshot, ClientFrame, CommandDisposition, ControlFailure,
    ControlReceipt, ErrorCode, ProtocolError, RecoverableInput, Request, Response, RunInfo,
    RunSignal, RuntimeIdentity, ServerFrame, TmuxPaneInfo,
};
use crate::run_spec::CreationRequest;

verus! {

/// The control work that a request starts is the one that the request names, on
/// the Run that it names: Input with exactly its bytes, a Resize to its size,
/// its signal, and a Stop only for a Stop.
pub proof fn law_control_work_is_what_was_asked(
    manager: RunManager,
    request: Request,
    id: RunId,
    work: ControlWork,
)
    requires
        call_ensures(execute_request, (&manager, request), RequestStep::Control { id, work }),
    ensures
        match work {
            ControlWork::Input { data } => request matches Request::Input { id: asked, data: sent }
                && asked == id && sent@ == data@,
            ControlWork::Resize { size } => request matches Request::Resize {
                id: asked,
                size: sent,
            } && asked == id && sent.cols == size.cols && sent.rows == size.rows,
            ControlWork::Signal { signal } => request matches Request::Signal {
                id: asked,
                signal: sent,
            } && asked == id && sent == signal,
            ControlWork::Stop => request matches Request::Stop { id: asked } && asked == id,
        },
{
}

/// A control request for a Run that is retained and not fenced is always
/// started; a recoverable Input too, if it is for this daemon incarnation, and
/// then as it was sent.
pub proof fn law_control_of_a_retained_run_is_started(
    manager: RunManager,
    place: int,
    request: Request,
    step: RequestStep,
)
    requires
        manager@.registry.valid(),
        0 <= place < manager@.registry.runs.len(),
        manager@.registry.runs[place].residency == Residency::Retained,
        call_ensures(execute_request, (&manager, request), step),
    ensures
        ({
            let run = manager@.registry.runs[place].facts.id;
            match request {
                Request::Input { id, .. } => id == run ==> step is Control,
                Request::Resize { id, .. } => id == run ==> step is Control,
                Request::Signal { id, .. } => id == run ==> step is Control,
                Request::Stop { id } => id == run ==> step is Control,
                Request::RecoverableInput { operation } => operation.id == run
                    && operation.daemon_instance_id == manager@.daemon_instance ==> step
                    == (RequestStep::RecoverableInput { operation }),
                _ => true,
            }
        }),
{
    lemma_place_of(manager@.registry, manager@.registry.runs[place].facts.id, place);
}

/// A recoverable Input is started only on the incarnation that it names, and is
/// the one that was sent.
pub proof fn law_recoverable_input_is_for_this_incarnation(
    manager: RunManager,
    request: Request,
    operation: RecoverableInput,
)
    requires
        call_ensures(
            execute_request,
            (&manager, request),
            RequestStep::RecoverableInput { operation },
        ),
    ensures
        request == (Request::RecoverableInput { operation }),
        operation.daemon_instance_id == manager@.daemon_instance,
{
}

/// A control request for a Run that is not retained, or is fenced, is answered
/// at once: it was not applied.
pub proof fn law_control_of_an_absent_run_is_not_applied(
    manager: RunManager,
    id: RunId,
    request: Request,
    step: RequestStep,
)
    requires
        forall|i: int|
            0 <= i < manager@.registry.runs.len() ==> (#[trigger] manager@.registry.runs[
                i
            ]).facts.id != id,
        match request {
            Request::Input { id: asked, .. } => asked == id,
            Request::Resize { id: asked, .. } => asked == id,
            Request::Signal { id: asked, .. } => asked == id,
            Request::Stop { id: asked } => asked == id,
            _ => false,
        },
        call_ensures(execute_request, (&manager, request), step),
    ensures
        step matches RequestStep::Answered(Ok(Response::ControlRejected { failure }))
            && failure.disposition == CommandDisposition::NotApplied && failure.error.code
            == ErrorCode::RunNotFound,
{
}

/// Every request that is no control is passed on with all that it carries; an
/// import only where Runs have no durable records.
pub proof fn law_other_requests_are_passed_on(
    manager: RunManager,
    request: Request,
    step: RequestStep,
)
    requires
        call_ensures(execute_request, (&manager, request), step),
    ensures
        match request {
            Request::Start { operation_key, spec } => step matches RequestStep::Create {
                operation_key: key,
                request: CreationRequest::Start { spec: given },
                forked,
            } && key == operation_key && given == spec && !forked,
            Request::Fork { operation_key, parent, plan } => step matches RequestStep::Create {
                operation_key: key,
                request: CreationRequest::Fork { parent: from, plan: given },
                forked,
            } && key == operation_key && from == parent && given == plan && forked,
            Request::DiscoverTmux { socket_path } => step matches RequestStep::DiscoverTmux {
                socket_path: at,
            } && at@ == socket_path@,
            Request::ImportTmux { socket_path, pane_id } => if manager@.persistent {
                step matches RequestStep::Answered(Err(error)) && error.code
                    == ErrorCode::UnsupportedCapability
            } else {
                step matches RequestStep::ImportTmux { socket_path: at, pane_id: pane } && at@
                    == socket_path@ && pane@ == pane_id@
            },
            Request::List => step is List,
            Request::Status { id } => step == (RequestStep::Status { id }),
            Request::Attach { .. } => step matches RequestStep::Answered(Err(_)),
            _ => true,
        },
{
}

/// A connection begins with a greeting of the same protocol; anything else is
/// refused. Nothing is counted as a request yet.
pub proof fn law_a_connection_begins_with_a_greeting(
    received: Option<ClientFrame>,
    gate: &mut UpgradeRequestGate,
    step: ConnectionStep,
)
    requires
        call_ensures(handle_connection, (ConnectionPhase::AwaitHello, received, gate), step),
    ensures
        final(gate)@ == old(gate)@,
        step is Greet <==> received == Some(ClientFrame::Hello { protocol: 13 }),
        !(step is Greet) ==> (step matches ConnectionStep::Refuse(ServerFrame::Error { error })
            && error.code == (if received matches Some(ClientFrame::Hello { .. }) {
            ErrorCode::VersionMismatch
        } else {
            ErrorCode::InvalidRequest
        })),
{
}

/// While the daemon serves, a request is executed as it came and an attachment
/// is for the Run and the cursor that were asked for. While an upgrade drains,
/// requests are told to come again, and once it has sealed they get nothing.
pub proof fn law_a_request_is_executed_as_it_came(
    request: Request,
    gate: &mut UpgradeRequestGate,
    step: ConnectionStep,
)
    requires
        call_ensures(
            handle_connection,
            (ConnectionPhase::AwaitRequest, Some(ClientFrame::Request { request }), gate),
            step,
        ),
    ensures
        final(gate)@.phase == old(gate)@.phase,
        match old(gate)@.phase {
            UpgradeRequestPhase::Open => {
                &&& final(gate)@.active == old(gate)@.active + 1
                &&& match request {
                    Request::Attach { id, after_byte } => step == (ConnectionStep::Attach {
                        id,
                        after_byte,
                    }),
                    _ => step == ConnectionStep::Execute(request),
                }
            },
            UpgradeRequestPhase::Draining => {
                &&& final(gate)@.active == old(gate)@.active + 1
                &&& step matches ConnectionStep::Retry(ServerFrame::Error { error })
                    && error.code == ErrorCode::BackendUnavailable
            },
            UpgradeRequestPhase::Sealed => {
                &&& final(gate)@.active == old(gate)@.active
                &&& step is Close
            },
        },
{
}

/// After the greeting only a request has a place: the end of the stream closes
/// the connection, and any other frame is refused.
pub proof fn law_only_a_request_follows_the_greeting(
    received: Option<ClientFrame>,
    gate: &mut UpgradeRequestGate,
    step: ConnectionStep,
)
    requires
        !(received matches Some(ClientFrame::Request { .. })),
        call_ensures(handle_connection, (ConnectionPhase::AwaitRequest, received, gate), step),
    ensures
        final(gate)@ == old(gate)@,
        received is None ==> step is Close,
        received is Some ==> (step matches ConnectionStep::Refuse(ServerFrame::Error { error })
            && error.code == ErrorCode::InvalidRequest),
{
}

/// The answer to a request carries what its work came to, under the name that
/// belongs to the request; a failure is answered as that failure.
pub proof fn law_an_answer_carries_what_the_work_came_to(
    outcome: WorkOutcome,
    answer: Result<Response, ProtocolError>,
)
    requires
        call_ensures(answer_request, (outcome,), answer),
    ensures
        match answer {
            Ok(Response::Started { run }) => outcome == (WorkOutcome::Created {
                run: Ok(run),
                forked: false,
            }),
            Ok(Response::Forked { run }) => outcome == (WorkOutcome::Created {
                run: Ok(run),
                forked: true,
            }),
            Ok(Response::TmuxPanes { tmux_version, panes }) => outcome == WorkOutcome::Discovered(
                Ok((tmux_version, panes)),
            ),
            Ok(Response::Imported { run }) => outcome == WorkOutcome::Imported(Ok(run)),
            Ok(Response::Runs { runs }) => outcome == WorkOutcome::Listed(runs),
            Ok(Response::Status { run }) => outcome == WorkOutcome::Status(Ok(run)),
            Ok(Response::ControlAccepted { run, receipt }) => outcome == (WorkOutcome::Control {
                run,
                result: Ok(receipt),
            }),
            Ok(Response::InputApplied { run, range }) => outcome == (WorkOutcome::InputApplied {
                run,
                result: Ok(range),
            }),
            Ok(Response::ControlRejected { failure }) => match outcome {
                WorkOutcome::Control { result, .. } => result matches Err(given) && given
                    == failure,
                WorkOutcome::InputApplied { result, .. } => result matches Err(given) && given
                    == failure,
                _ => false,
            },
            Err(error) => match outcome {
                WorkOutcome::Created { run, .. } => run matches Err(given) && given == error,
                WorkOutcome::Discovered(found) => found matches Err(given) && given == error,
                WorkOutcome::Imported(run) => run matches Err(given) && given == error,
                WorkOutcome::Status(run) => run matches Err(given) && given == error,
                WorkOutcome::WorkerLost(_) => error.code == ErrorCode::BackendUnavailable,
                _ => false,
            },
        },
{
}

/// The frame of an answer carries that answer.
pub proof fn law_a_frame_carries_its_answer(
    answer: Result<Response, ProtocolError>,
    frame: ServerFrame,
)
    requires
        call_ensures(response_frame, (answer,), frame),
    ensures
        match frame {
            ServerFrame::Response { response } => answer matches Ok(given) && given == response,
            ServerFrame::Error { error } => answer matches Err(given) && given == error,
            _ => false,
        },
{
}

/// The one business frame of a call asks for what the caller asked for, of the
/// Run that the caller named.
pub proof fn law_a_call_is_sent_as_it_was_made(
    client: Client,
    greeting: Received,
    call: ClientCall,
    frame: ClientFrame,
)
    requires
        call_ensures(Client::dispatch, (&client, greeting, call), Ok(frame)),
    ensures
        frame matches ClientFrame::Request { request } && match call {
            ClientCall::StartWithOperationKey { operation_key, spec } => request
                == (Request::Start { operation_key, spec }),
            ClientCall::DiscoverTmux { socket_path } => request == (Request::DiscoverTmux {
                socket_path,
            }),
            ClientCall::ImportTmux { socket_path, pane_id } => request == (Request::ImportTmux {
                socket_path,
                pane_id,
            }),
            ClientCall::ForkWithOperationKey { operation_key, parent, plan } => request
                == (Request::Fork { operation_key, parent, plan }),
            ClientCall::List => request is List,
            ClientCall::Status { id } => request == (Request::Status { id }),
            ClientCall::Input { id, data } => request == (Request::Input { id, data }),
            ClientCall::RecoverableInput { operation } => request == (Request::RecoverableInput {
                operation,
            }),
            ClientCall::Resize { id, size } => request == (Request::Resize { id, size }),
            ClientCall::Interrupt { id } => request == (Request::Signal {
                id,
                signal: RunSignal::Interrupt,
            }),
            ClientCall::Stop { id } => request == (Request::Stop { id }),
            ClientCall::Attach { id, after_byte } => request == (Request::Attach {
                id,
                after_byte,
            }),
        },
{
}

/// What a client asks to be done to a Run is what the daemon starts: from the
/// call to the control work nothing changes on the way.
pub proof fn law_a_control_call_does_what_it_says(
    client: Client,
    greeting: Received,
    call: ClientCall,
    request: Request,
    manager: RunManager,
    id: RunId,
    work: ControlWork,
)
    requires
        call_ensures(
            Client::dispatch,
            (&client, greeting, call),
            Ok(ClientFrame::Request { request }),
        ),
        call_ensures(execute_request, (&manager, request), RequestStep::Control { id, work }),
    ensures
        match call {
            ClientCall::Input { id: named, data } => id == named && (work matches ControlWork::Input {
                data: written,
            } && written@ == data@),
            ClientCall::Resize { id: named, size } => id == named && (
            work matches ControlWork::Resize { size: set } && set.cols == size.cols && set.rows
                == size.rows),
            ClientCall::Interrupt { id: named } => id == named && work == (ControlWork::Signal {
                signal: RunSignal::Interrupt,
            }),
            ClientCall::Stop { id: named } => id == named && work is Stop,
            _ => false,
        },
{
    law_a_call_is_sent_as_it_was_made(client, greeting, call, ClientFrame::Request { request });
    law_control_work_is_what_was_asked(manager, request, id, work);
}

/// A client greets with its protocol, which a daemon of the same protocol
/// accepts.
pub proof fn law_a_client_is_greeted(
    frame: ClientFrame,
    gate: &mut UpgradeRequestGate,
    step: ConnectionStep,
)
    requires
        call_ensures(hello, (), frame),
        call_ensures(handle_connection, (ConnectionPhase::AwaitHello, Some(frame), gate), step),
    ensures
        step is Greet,
{
}

/// A client accepts exactly a daemon of its own protocol and manifest version,
/// and then knows it by the identity that it showed. Any other failure is the
/// one that came.
pub proof fn law_a_greeting_shows_who_answers(
    received: Received,
    r: Result<RuntimeIdentity, ClientError>,
)
    requires
        call_ensures(accept_hello, (received,), r),
    ensures
        match received {
            Ok(ServerFrame::Hello { runtime, identity }) => if runtime.protocol_generation
                == 13 && runtime.capabilities.version == 1 {
                r matches Ok(shown) && shown == identity
            } else {
                r matches Err(ClientError::UnexpectedFrame(_))
            },
            Ok(ServerFrame::Error { error }) => r matches Err(
                ClientError::Protocol { code, message },
            ) && code == error.code && message == error.message,
            Ok(_) => r matches Err(ClientError::UnexpectedFrame(_)),
            Err(error) => r matches Err(given) && given == error,
        },
{
}

/// A reply is read as it came.
pub proof fn law_a_reply_is_read_as_it_came(
    received: Received,
    r: Result<Response, ClientError>,
)
    requires
        call_ensures(read_response, (received,), r),
    ensures
        match received {
            Ok(ServerFrame::Response { response }) => r matches Ok(read) && read == response,
            Ok(ServerFrame::Error { error }) => r matches Err(
                ClientError::Protocol { code, message },
            ) && code == error.code && message == error.message,
            Ok(_) => r matches Err(ClientError::UnexpectedFrame(_)),
            Err(error) => r matches Err(given) && given == error,
        },
{
}

/// The reply to a control request is read as it came. Without one, a request
/// that was never handed over was not applied, and any other may have been.
pub proof fn law_a_control_reply_is_read_as_it_came(
    exchange: ControlExchange,
    r: Result<Response, ClientError>,
)
    requires
        call_ensures(control_request, (exchange,), r),
    ensures
        match exchange {
            ControlExchange::HandedOver(Ok(ServerFrame::Response { response })) => r matches Ok(
                read,
            ) && read == response,
            ControlExchange::HandedOver(_) => r matches Err(
                ClientError::ControlRequestUnknown { .. },
            ),
            ControlExchange::NotEncoded(_) => r matches Err(ClientError::ControlNotApplied { .. }),
        },
{
}

/// A call returns the Runs that the daemon answered with, only where the answer
/// belongs to the call; a failure is returned as it is.
pub proof fn law_a_call_returns_the_run_of_its_answer(
    client: Client,
    reply: Result<Response, ClientError>,
    started: Result<RunInfo, ClientError>,
    forked: Result<RunInfo, ClientError>,
    imported: Result<RunInfo, ClientError>,
    status: Result<RunInfo, ClientError>,
    listed: Result<Vec<RunInfo>, ClientError>,
    panes: Result<(String, Vec<TmuxPaneInfo>), ClientError>,
)
    requires
        call_ensures(Client::start_with_operation_key, (&client, reply), started),
        call_ensures(Client::fork_with_operation_key, (&client, reply), forked),
        call_ensures(Client::import_tmux, (&client, reply), imported),
        call_ensures(Client::status, (&client, reply), status),
        call_ensures(Client::list, (&client, reply), listed),
        call_ensures(Client::discover_tmux, (&client, reply), panes),
    ensures
        started matches Ok(run) ==> reply == Ok::<Response, ClientError>(Response::Started { run }),
        forked matches Ok(run) ==> reply == Ok::<Response, ClientError>(Response::Forked { run }),
        imported matches Ok(run) ==> reply == Ok::<Response, ClientError>(
            Response::Imported { run },
        ),
        status matches Ok(run) ==> reply == Ok::<Response, ClientError>(Response::Status { run }),
        listed matches Ok(runs) ==> reply == Ok::<Response, ClientError>(Response::Runs { runs }),
        panes matches Ok(found) ==> reply == Ok::<Response, ClientError>(
            Response::TmuxPanes { tmux_version: found.0, panes: found.1 },
        ),
        reply matches Ok(Response::Started { .. }) ==> started is Ok,
        reply matches Ok(Response::Forked { .. }) ==> forked is Ok,
        reply matches Ok(Response::Imported { .. }) ==> imported is Ok,
        reply matches Ok(Response::Status { .. }) ==> status is Ok,
        reply matches Ok(Response::Runs { .. }) ==> listed is Ok,
        reply matches Ok(Response::TmuxPanes { .. }) ==> panes is Ok,
        reply is Ok && started is Err ==> started->Err_0 is UnexpectedFrame,
        reply is Ok && forked is Err ==> forked->Err_0 is UnexpectedFrame,
        reply is Ok && imported is Err ==> imported->Err_0 is UnexpectedFrame,
        reply is Ok && status is Err ==> status->Err_0 is UnexpectedFrame,
        reply is Ok && listed is Err ==> listed->Err_0 is UnexpectedFrame,
        reply is Ok && panes is Err ==> panes->Err_0 is UnexpectedFrame,
        reply matches Err(error) ==> started == Err::<RunInfo, ClientError>(error) && forked
            == Err::<RunInfo, ClientError>(error) && imported == Err::<RunInfo, ClientError>(error)
            && status == Err::<RunInfo, ClientError>(error) && listed == Err::<
            Vec<RunInfo>,
            ClientError,
        >(error),
{
}

/// The short forms of a start and a fork read their answers as the long forms
/// do.
pub proof fn law_short_forms_read_alike(
    client: Client,
    reply: Result<Response, ClientError>,
    started: Result<RunInfo, ClientError>,
    forked: Result<RunInfo, ClientError>,
)
    requires
        call_ensures(Client::start, (&client, reply), started),
        call_ensures(Client::fork, (&client, reply), forked),
    ensures
        started matches Ok(run) ==> reply == Ok::<Response, ClientError>(Response::Started { run }),
        forked matches Ok(run) ==> reply == Ok::<Response, ClientError>(Response::Forked { run }),
        reply matches Ok(Response::Started { .. }) ==> started is Ok,
        reply matches Ok(Response::Forked { .. }) ==> forked is Ok,
{
}

/// A control call succeeds exactly where the daemon accepted a command of its
/// kind with a receipt that proves it: all bytes of an Input, a size that is
/// not empty, the signal that was asked for, the end of a Stop. The receipt and
/// the Run are those of the answer.
pub proof fn law_a_control_call_returns_its_receipt(
    client: Client,
    run: RunInfo,
    receipt: ControlReceipt,
    expected_bytes: usize,
    input: Result<ControlAccepted<InputReceipt>, ClientError>,
    resize: Result<ControlAccepted<ResizeReceipt>, ClientError>,
    interrupt: Result<ControlAccepted<SignalReceipt>, ClientError>,
    stop: Result<ControlAccepted<StopReceipt>, ClientError>,
)
    requires
        call_ensures(
            Client::input,
            (&client, expected_bytes, Ok(Response::ControlAccepted { run, receipt })),
            input,
        ),
        call_ensures(
            Client::resize,
            (&client, Ok(Response::ControlAccepted { run, receipt })),
            resize,
        ),
        call_ensures(
            Client::interrupt,
            (&client, Ok(Response::ControlAccepted { run, receipt })),
            interrupt,
        ),
        call_ensures(Client::stop, (&client, Ok(Response::ControlAccepted { run, receipt })), stop),
    ensures
        input is Ok <==> (receipt matches ControlReceipt::Input { written_bytes }
            && written_bytes as int == expected_bytes as int),
        input matches Ok(accepted) ==> accepted.run == run && receipt == (ControlReceipt::Input {
            written_bytes: accepted.receipt.written_bytes,
        }),
        resize is Ok <==> (receipt matches ControlReceipt::Resize { applied_size }
            && applied_size.cols > 0 && applied_size.rows > 0),
        resize matches Ok(accepted) ==> accepted.run == run && receipt == (ControlReceipt::Resize {
            applied_size: accepted.receipt.applied_size,
        }),
        interrupt is Ok <==> (receipt matches ControlReceipt::Signal { signal } && signal
            == RunSignal::Interrupt),
        interrupt matches Ok(accepted) ==> accepted.run == run && receipt
            == (ControlReceipt::Signal { signal: accepted.receipt.signal }),
        stop is Ok <==> receipt is Stop,
        stop matches Ok(accepted) ==> accepted.run == run && receipt == (ControlReceipt::Stop {
            disposition: accepted.receipt.disposition,
        }),
{
}

/// Without an accepted command a control call fails: with the failure that the
/// daemon gave, with the one that kept the reply away, or not knowing.
pub proof fn law_a_failed_control_call_says_why(
    client: Client,
    reply: Result<Response, ClientError>,
    expected_bytes: usize,
    input: Result<ControlAccepted<InputReceipt>, ClientError>,
    stop: Result<ControlAccepted<StopReceipt>, ClientError>,
    resize: Result<ControlAccepted<ResizeReceipt>, ClientError>,
    interrupt: Result<ControlAccepted<SignalReceipt>, ClientError>,
)
    requires
        !(reply matches Ok(Response::ControlAccepted { .. })),
        call_ensures(Client::interrupt, (&client, reply), interrupt),
        call_ensures(Client::input, (&client, expected_bytes, reply), input),
        call_ensures(Client::stop, (&client, reply), stop),
        call_ensures(Client::resize, (&client, reply), resize),
    ensures
        input is Err && stop is Err && resize is Err && interrupt is Err,
        reply matches Ok(response) ==> response is ControlRejected || (input->Err_0
            is ControlRequestUnknown && stop->Err_0 is ControlRequestUnknown && resize->Err_0
            is ControlRequestUnknown && interrupt->Err_0 is ControlRequestUnknown),
        reply matches Err(error) ==> input->Err_0 == error && stop->Err_0 == error
            && resize->Err_0 == error && interrupt->Err_0 == error,
        reply matches Ok(Response::ControlRejected { failure }) ==> (failure.error.code
            != ErrorCode::ControlBackpressure || failure.disposition
            == CommandDisposition::NotApplied ==> input->Err_0 == (ClientError::ControlRejected {
            failure,
        }) && stop->Err_0 == (ClientError::ControlRejected { failure }) && resize->Err_0
            == (ClientError::ControlRejected { failure })),
{
}

/// A recoverable Input succeeds exactly where the answer proves that the bytes
/// from the expected cursor on, and no others, were applied to the Run.
pub proof fn law_a_recoverable_input_is_proven(
    client: Client,
    id: RunId,
    start: u64,
    end: u64,
    run: RunInfo,
    range: AppliedInputRange,
    r: Result<ControlAccepted<AppliedInputRange>, ClientError>,
)
    requires
        call_ensures(
            Client::recoverable_input,
            (&client, id, start, end, Ok(Response::InputApplied { run, range })),
            r,
        ),
    ensures
        r is Ok <==> run.id == id && range.start_byte == start && range.end_byte == end && (
        run.applied_input_bytes matches Some(cursor) && cursor >= end),
        r matches Ok(accepted) ==> accepted.run == run && accepted.receipt == range,
        r matches Err(error) ==> error is ControlRequestUnknown,
{
}

/// The cursor that a recoverable Input expects to reach lies behind the cursor
/// where it begins by the bytes that it brings.
pub proof fn law_a_recoverable_input_ends_behind_its_bytes(
    client: Client,
    operation: RecoverableInput,
    r: Result<u64, ClientError>,
)
    requires
        call_ensures(Client::recoverable_input_end, (&client, &operation), r),
    ensures
        r is Ok <==> operation.expected_byte + operation.data@.len() <= u64::MAX,
        r matches Ok(end) ==> end == operation.expected_byte + operation.data@.len(),
        r matches Err(error) ==> error is ControlNotApplied,
{
}

/// A snapshot is announced as the daemon sent it, without its output yet.
pub proof fn law_a_snapshot_is_announced_as_sent(
    client: Client,
    received: Received,
    r: Result<AttachedSnapshot, ClientError>,
)
    requires
        call_ensures(Client::attach, (&client, received), r),
    ensures
        r is Ok <==> received matches Ok(ServerFrame::Attached { .. }),
        r matches Ok(begun) ==> (received matches Ok(ServerFrame::Attached { snapshot })
            && begun.run == snapshot.run && begun.replay.chunks@.len() == 0
            && begun.replay.first_available_byte == snapshot.replay.first_available_byte
            && begun.replay.latest_output_bytes == snapshot.replay.latest_output_bytes
            && begun.replay.truncated == snapshot.replay.truncated),
        received matches Err(error) ==> r == Err::<AttachedSnapshot, ClientError>(error),
{
}

/// The answer to a control is its receipt with the Run, or its failure; to a
/// recoverable Input its range with the Run, or its failure.
pub proof fn law_a_control_is_answered_with_its_result(
    run: RunInfo,
    result: Result<ControlReceipt, ControlFailure>,
    answer: Response,
    applied: Result<AppliedInputRange, ControlFailure>,
    input_answer: Response,
)
    requires
        call_ensures(short_control_response, (run, result), answer),
        call_ensures(recoverable_input_response, (run, applied), input_answer),
    ensures
        result matches Ok(receipt) ==> answer == (Response::ControlAccepted { run, receipt }),
        result matches Err(failure) ==> answer == (Response::ControlRejected { failure }),
        applied matches Ok(range) ==> input_answer == (Response::InputApplied { run, range }),
        applied matches Err(failure) ==> input_answer == (Response::ControlRejected { failure }),
{
}

/// A receipt is read as it is, and proves only a command of its own kind: all
/// the bytes of an Input, a size that is not empty, the signal that was asked for.
pub proof fn law_a_receipt_proves_its_own_command(
    receipt: ControlReceipt,
    expected_bytes: usize,
    input: Result<InputReceipt, ClientError>,
    resize: Result<ResizeReceipt, ClientError>,
    stop: Result<StopReceipt, ClientError>,
    expected: RunSignal,
    signal: Result<SignalReceipt, ClientError>,
)
    requires
        call_ensures(decode_input_receipt, (&receipt, expected_bytes), input),
        call_ensures(decode_resize_receipt, (&receipt,), resize),
        call_ensures(decode_stop_receipt, (&receipt,), stop),
        call_ensures(decode_signal_receipt, (&receipt, expected), signal),
    ensures
        input is Ok <==> (receipt matches ControlReceipt::Input { written_bytes }
            && written_bytes as int == expected_bytes as int),
        input matches Ok(read) ==> receipt == (ControlReceipt::Input {
            written_bytes: read.written_bytes,
        }),
        resize is Ok <==> (receipt matches ControlReceipt::Resize { applied_size }
            && applied_size.cols > 0 && applied_size.rows > 0),
        resize matches Ok(read) ==> receipt == (ControlReceipt::Resize {
            applied_size: read.applied_size,
        }),
        stop is Ok <==> receipt is Stop,
        stop matches Ok(read) ==> receipt == (ControlReceipt::Stop {
            disposition: read.disposition,
        }),
        signal is Ok <==> receipt == (ControlReceipt::Signal { signal: expected }),
        signal matches Ok(read) ==> read.signal == expected,
{
}

/// Backpressure is believed only of a command that was not applied.
pub proof fn law_backpressure_was_not_applied(
    failure: ControlFailure,
    r: Result<(), &'static str>,
)
    requires
        call_ensures(validate_control_failure, (&failure,), r),
    ensures
        r is Ok <==> failure.error.code != ErrorCode::ControlBackpressure || failure.disposition
            == CommandDisposition::NotApplied,
{
}

/// A control request for a Run that is being replaced or removed was not
/// applied, nor was a recoverable Input for another incarnation.
pub proof fn law_control_that_cannot_start_was_not_applied(
    manager: RunManager,
    place: int,
    request: Request,
    step: RequestStep,
)
    requires
        manager@.registry.valid(),
        0 <= place < manager@.registry.runs.len(),
        manager@.registry.runs[place].residency != Residency::Retained,
        call_ensures(execute_request, (&manager, request), step),
    ensures
        ({
            let run = manager@.registry.runs[place].facts.id;
            let refused = (step matches RequestStep::Answered(Ok(
                Response::ControlRejected { failure },
            )) && failure.disposition == CommandDisposition::NotApplied && failure.error.code
                == ErrorCode::BackendUnavailable);
            let foreign = (step matches RequestStep::Answered(Ok(
                Response::ControlRejected { failure },
            )) && failure.disposition == CommandDisposition::NotApplied && failure.error.code
                == ErrorCode::DaemonInstanceMismatch);
            match request {
                Request::Input { id, .. } => id == run ==> refused,
                Request::Resize { id, .. } => id == run ==> refused,
                Request::Signal { id, .. } => id == run ==> refused,
                Request::Stop { id } => id == run ==> refused,
                Request::RecoverableInput { operation } => if operation.daemon_instance_id
                    != manager@.daemon_instance {
                    foreign
                } else {
                    operation.id == run ==> refused
                },
                _ => true,
            }
        }),
{
    lemma_place_of(manager@.registry, manager@.registry.runs[place].facts.id, place);
}

} // verus!
