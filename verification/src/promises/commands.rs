//! The commands of a live attachment: what is sent, what is refused, and how
//! each command gets its one result.

use vstd::prelude::*;

use crate::client::attachment::{
    Attachment, AttachmentView, CommandResult, ReaderEvent, ReaderStep, SendAttempt,
};
use crate::client::commands::{
    input_count, input_total, AttachmentEnd, AttachmentState, CommandsView, PendingCommand,
    PendingKind, PendingResolution, ValidatedReceipt,
};
use crate::client::error::{AttachmentUnavailableReason, AttachmentUnknownReason, ClientError};
use crate::client::inbox::{EventConsumerGuard, NextEvent};
use crate::client::receipt::{AttachmentControlAccepted, InputReceipt, ResizeReceipt, StopReceipt};
use crate::promises::events::left_to_tell;
use crate::protocol::{
    AttachmentCommandId, ClientFrame, CommandDisposition, ControlOutcome, ControlReceipt, ErrorCode,
    RunEvent, ServerFrame, TerminalSize,
};

verus! {

/// How many Inputs wait among some commands, and how many bytes they bring.
pub open spec fn waiting_inputs(pending: Seq<PendingCommand>) -> (int, int)
    decreases pending.len(),
{
    if pending.len() == 0 {
        (0, 0)
    } else {
        let rest = waiting_inputs(pending.drop_last());
        match pending.last().kind {
            PendingKind::Input { expected_bytes } => (rest.0 + 1, rest.1 + expected_bytes),
            _ => rest,
        }
    }
}

/// The commands are bounded by the Inputs that wait.
pub proof fn lemma_waiting_inputs(pending: Seq<PendingCommand>)
    ensures
        waiting_inputs(pending).0 == input_count(pending),
        waiting_inputs(pending).1 == input_total(pending),
    decreases pending.len(),
{
    if pending.len() > 0 {
        lemma_waiting_inputs(pending.drop_last());
    }
}

/// Whether a command is taken: the attachment goes on and is not fenced, fewer
/// than 64 commands wait, and of these fewer than 32 Inputs, with a mebibyte at
/// most together with the new one.
pub open spec fn is_taken(commands: CommandsView, kind: PendingKind) -> bool {
    let waiting = waiting_inputs(commands.pending);
    &&& commands.end is None
    &&& commands.fence is None
    &&& commands.pending.len() != 64
    &&& kind is Input ==> waiting.0 != 32
    &&& match kind {
        PendingKind::Input { expected_bytes } => waiting.1 + expected_bytes <= 1048576,
        _ => waiting.1 <= 1048576,
    }
}

/// Whether a command was noted last under the next number.
pub open spec fn is_noted(before: CommandsView, after: CommandsView, kind: PendingKind) -> bool {
    &&& after.pending == before.pending.push(
        PendingCommand { id: AttachmentCommandId { number: before.next_command_id }, kind },
    )
    &&& after.end == before.end && after.detaching == before.detaching
    &&& before.next_command_id < u32::MAX ==> after.next_command_id == before.next_command_id + 1
        && after.fence == before.fence
    &&& before.next_command_id == u32::MAX ==> after.fence == Some(
        AttachmentUnavailableReason::CommandIdsExhausted,
    )
}

/// An Input is sent with exactly its bytes under the next number, and its result
/// is awaited; or it is refused and nothing changes.
pub proof fn law_an_input_is_sent_as_it_was_given(
    attachment: &mut Attachment,
    data: Vec<u8>,
    r: Result<ClientFrame, ClientError>,
)
    requires
        call_ensures(Attachment::input, (attachment, data), r),
    ensures
        ({
            let kind = PendingKind::Input { expected_bytes: data@.len() as usize };
            let before = old(attachment)@;
            let after = final(attachment)@;
            &&& r is Ok <==> is_taken(before.commands, kind)
            &&& r matches Ok(frame) ==> (frame matches ClientFrame::Input {
                command_id,
                data: sent,
            } && sent@ == data@ && command_id.number == before.commands.next_command_id)
                && is_noted(before.commands, after.commands, kind) && after.events == before.events
            &&& r is Err ==> after == before
        }),
{
    lemma_waiting_inputs(old(attachment)@.commands.pending);
}

/// A Resize is sent with exactly its columns and rows under the next number; or
/// it is refused and nothing changes.
pub proof fn law_a_resize_is_sent_as_it_was_given(
    attachment: &mut Attachment,
    size: TerminalSize,
    r: Result<ClientFrame, ClientError>,
)
    requires
        call_ensures(Attachment::resize, (attachment, size), r),
    ensures
        ({
            let before = old(attachment)@;
            let after = final(attachment)@;
            &&& r is Ok <==> is_taken(before.commands, PendingKind::Resize)
            &&& r matches Ok(frame) ==> (frame matches ClientFrame::Resize {
                command_id,
                size: sent,
            } && sent.cols == size.cols && sent.rows == size.rows && command_id.number
                == before.commands.next_command_id) && is_noted(
                before.commands,
                after.commands,
                PendingKind::Resize,
            ) && after.events == before.events
            &&& r is Err ==> after == before
        }),
{
    lemma_waiting_inputs(old(attachment)@.commands.pending);
}

/// A Stop is sent as a Stop under the next number; or it is refused and nothing
/// changes.
pub proof fn law_a_stop_is_sent_as_a_stop(
    attachment: &mut Attachment,
    r: Result<ClientFrame, ClientError>,
)
    requires
        call_ensures(Attachment::stop, (attachment,), r),
    ensures
        ({
            let before = old(attachment)@;
            let after = final(attachment)@;
            &&& r is Ok <==> is_taken(before.commands, PendingKind::Stop)
            &&& r matches Ok(frame) ==> (frame matches ClientFrame::Stop { command_id }
                && command_id.number == before.commands.next_command_id) && is_noted(
                before.commands,
                after.commands,
                PendingKind::Stop,
            ) && after.events == before.events
            &&& r is Err ==> after == before
        }),
{
    lemma_waiting_inputs(old(attachment)@.commands.pending);
}

/// A refused command says why: the attachment ended or is ending, or its bounds
/// are reached.
pub proof fn law_a_refused_command_says_why(
    state: &mut AttachmentState,
    kind: PendingKind,
    r: Result<AttachmentCommandId, ClientError>,
)
    requires
        call_ensures(AttachmentState::register_command, (state, kind), r),
    ensures
        r is Ok <==> is_taken(old(state)@, kind),
        r matches Ok(id) ==> id.number == old(state)@.next_command_id && is_noted(
            old(state)@,
            final(state)@,
            kind,
        ),
        r is Err ==> final(state)@ == old(state)@,
        old(state)@.end is Some ==> r == Err::<AttachmentCommandId, ClientError>(
            ClientError::AttachmentUnavailable { reason: AttachmentUnavailableReason::Closed },
        ),
        old(state)@.end is None && old(state)@.fence is Some ==> r == Err::<
            AttachmentCommandId,
            ClientError,
        >(ClientError::AttachmentUnavailable { reason: old(state)@.fence->Some_0 }),
        old(state)@.end is None && old(state)@.fence is None && r is Err ==> r->Err_0
            is AttachmentBackpressure,
{
    lemma_waiting_inputs(old(state)@.pending);
}

/// A new attachment has no commands and numbers them from one.
pub proof fn law_a_new_attachment_waits_for_nothing(attachment: Attachment)
    requires
        call_ensures(Attachment::new, (), attachment),
    ensures
        attachment@.commands.pending.len() == 0,
        attachment@.commands.next_command_id == 1,
        attachment@.commands.fence is None && attachment@.commands.end is None
            && !attachment@.commands.detaching,
        left_to_tell(attachment@.events).len() == 0 && !attachment@.events.closed,
{
}

/// A command that was queued is awaited. One that could not be sent is taken
/// back, and its number is free again. A closed connection ends the attachment,
/// and what was sent before has an unknown result.
pub proof fn law_an_unsent_command_is_taken_back(
    attachment: &mut Attachment,
    id: AttachmentCommandId,
    attempt: SendAttempt,
    r: (Result<(), ClientError>, Vec<CommandResult>),
)
    requires
        old(attachment)@.valid(),
        old(attachment)@.commands.pending.len() > 0,
        old(attachment)@.commands.pending.last().id == id,
        old(attachment)@.commands.end is None,
        id.number < u32::MAX,
        call_ensures(Attachment::issue_command, (attachment, id, attempt), r),
    ensures
        ({
            let before = old(attachment)@.commands;
            let after = final(attachment)@.commands;
            &&& attempt is Queued ==> r.0 is Ok && r.1@.len() == 0 && final(attachment)@ == old(
                attachment,
            )@
            &&& !(attempt is Queued) ==> r.0 is Err && after.next_command_id == id.number
            &&& attempt is NotEncoded || attempt is QueueFull ==> r.1@.len() == 0 && after.pending
                == before.pending.drop_last() && after.end is None && final(attachment)@.events
                == old(attachment)@.events
            &&& attempt is QueueFull ==> r.0->Err_0 is AttachmentBackpressure
            &&& attempt is NotEncoded ==> r.0->Err_0 is ControlNotApplied
            &&& attempt is QueueClosed ==> r.0->Err_0 is ControlNotApplied && after.pending.len()
                == 0 && after.end == Some(AttachmentEnd::Terminated) && r.1@.len()
                == before.pending.len() - 1 && forall|k: int|
                0 <= k < r.1@.len() ==> (#[trigger] r.1@[k]).command_id == before.pending[k].id
                    && r.1@[k].resolution == PendingResolution::Unknown(
                    AttachmentUnknownReason::TransportTerminated,
                )
        }),
{
    let before = old(attachment)@.commands;
    let end = before.pending.len() - 1;
    assert(before.pending[end].id == id);
    let place = choose|i: int| 0 <= i < before.pending.len() && (#[trigger] before.pending[i]).id
        == id;
    if place < end {
        assert(before.pending[place].id.number < before.pending[end].id.number);
    }
    assert(before.pending.remove(end) =~= before.pending.drop_last());
}

/// What a command came to is what its resolution says: its receipt, the
/// daemon's refusal, or that nobody knows. A lost resolution is not known.
pub proof fn law_a_command_comes_to_what_was_resolved(
    id: AttachmentCommandId,
    resolution: Option<PendingResolution>,
    input: Result<AttachmentControlAccepted<InputReceipt>, ClientError>,
    resize: Result<AttachmentControlAccepted<ResizeReceipt>, ClientError>,
    stop: Result<AttachmentControlAccepted<StopReceipt>, ClientError>,
)
    requires
        call_ensures(Attachment::input_result, (id, resolution), input),
        call_ensures(Attachment::resize_result, (id, resolution), resize),
        call_ensures(Attachment::stop_result, (id, resolution), stop),
    ensures
        input matches Ok(accepted) ==> accepted.command_id == id && resolution == Some(
            PendingResolution::Accepted(ValidatedReceipt::Input(accepted.receipt)),
        ),
        resize matches Ok(accepted) ==> accepted.command_id == id && resolution == Some(
            PendingResolution::Accepted(ValidatedReceipt::Resize(accepted.receipt)),
        ),
        stop matches Ok(accepted) ==> accepted.command_id == id && resolution == Some(
            PendingResolution::Accepted(ValidatedReceipt::Stop(accepted.receipt)),
        ),
        resolution matches Some(PendingResolution::Accepted(ValidatedReceipt::Input(_)))
            ==> input is Ok,
        resolution matches Some(PendingResolution::Accepted(ValidatedReceipt::Resize(_)))
            ==> resize is Ok,
        resolution matches Some(PendingResolution::Accepted(ValidatedReceipt::Stop(_)))
            ==> stop is Ok,
        resolution matches Some(PendingResolution::Rejected(failure)) ==> input->Err_0 == (
        ClientError::ControlRejected { failure }) && resize->Err_0 == (
        ClientError::ControlRejected { failure }) && stop->Err_0 == (
        ClientError::ControlRejected { failure }),
        resolution matches Some(PendingResolution::Unknown(reason)) ==> input->Err_0 == (
        ClientError::AttachmentCommandUnknown { command_id: id, reason }) && stop->Err_0 == (
        ClientError::AttachmentCommandUnknown { command_id: id, reason }),
        resolution is None ==> input->Err_0 is AttachmentCommandUnknown && resize->Err_0
            is AttachmentCommandUnknown && stop->Err_0 is AttachmentCommandUnknown,
{
}

/// Whether a receipt proves a command: all bytes of an Input, a size that is not
/// empty, the end of a Stop.
pub open spec fn proves(kind: PendingKind, receipt: ControlReceipt) -> bool {
    match (kind, receipt) {
        (PendingKind::Input { expected_bytes }, ControlReceipt::Input { written_bytes }) =>
            written_bytes as int == expected_bytes as int,
        (PendingKind::Resize, ControlReceipt::Resize { applied_size }) => applied_size.cols > 0
            && applied_size.rows > 0,
        (PendingKind::Stop, ControlReceipt::Stop { .. }) => true,
        _ => false,
    }
}

/// A result resolves the command that it names, which then no longer waits; all
/// others wait on. It must prove that command, or be a consistent refusal; a
/// result that does not, or names no waiting command, changes nothing.
pub proof fn law_a_result_resolves_its_command(
    state: &mut AttachmentState,
    id: AttachmentCommandId,
    outcome: ControlOutcome,
    r: Result<PendingResolution, &'static str>,
    place: int,
)
    requires
        old(state)@.valid(),
        0 <= place < old(state)@.pending.len(),
        old(state)@.pending[place].id == id,
        call_ensures(AttachmentState::resolve_command, (state, id, outcome), r),
    ensures
        r is Ok <==> match outcome {
            ControlOutcome::Accepted { receipt } => proves(old(state)@.pending[place].kind, receipt),
            ControlOutcome::Rejected { failure } => failure.error.code
                == ErrorCode::ControlBackpressure ==> failure.disposition
                == CommandDisposition::NotApplied,
        },
        r matches Ok(resolution) ==> match resolution {
            PendingResolution::Accepted(ValidatedReceipt::Input(receipt)) => outcome == (
            ControlOutcome::Accepted {
                receipt: ControlReceipt::Input { written_bytes: receipt.written_bytes },
            }),
            PendingResolution::Accepted(ValidatedReceipt::Resize(receipt)) => outcome == (
            ControlOutcome::Accepted {
                receipt: ControlReceipt::Resize { applied_size: receipt.applied_size },
            }),
            PendingResolution::Accepted(ValidatedReceipt::Stop(receipt)) => outcome == (
            ControlOutcome::Accepted {
                receipt: ControlReceipt::Stop { disposition: receipt.disposition },
            }),
            PendingResolution::Rejected(failure) => outcome == (ControlOutcome::Rejected {
                failure,
            }),
            PendingResolution::Unknown(_) => false,
        },
        r is Ok ==> final(state)@ == (CommandsView {
            pending: old(state)@.pending.remove(place),
            ..old(state)@
        }),
        r is Err ==> final(state)@ == old(state)@,
{
    let commands = old(state)@;
    let found = choose|i: int|
        0 <= i < commands.pending.len() && (#[trigger] commands.pending[i]).id == id;
    if found < place {
        assert(commands.pending[found].id.number < commands.pending[place].id.number);
    } else if place < found {
        assert(commands.pending[place].id.number < commands.pending[found].id.number);
    }
}

/// A result that names no waiting command is refused and changes nothing.
pub proof fn law_a_result_of_no_command_is_refused(
    state: &mut AttachmentState,
    id: AttachmentCommandId,
    outcome: ControlOutcome,
    r: Result<PendingResolution, &'static str>,
)
    requires
        forall|i: int|
            0 <= i < old(state)@.pending.len() ==> (#[trigger] old(state)@.pending[i]).id != id,
        call_ensures(AttachmentState::resolve_command, (state, id, outcome), r),
    ensures
        r is Err,
        final(state)@ == old(state)@,
{
}

/// Whether every waiting command got an unknown result, in order, and the
/// attachment ended.
pub open spec fn is_ended(
    before: AttachmentView,
    after: AttachmentView,
    results: Seq<CommandResult>,
    reason: AttachmentUnknownReason,
) -> bool {
    &&& results.len() == before.commands.pending.len()
    &&& forall|k: int|
        0 <= k < results.len() ==> (#[trigger] results[k]).command_id
            == before.commands.pending[k].id && results[k].resolution
            == PendingResolution::Unknown(reason)
    &&& after.commands.pending.len() == 0
    &&& after.commands.end == Some(AttachmentEnd::Terminated)
    &&& after.events.closed
    &&& left_to_tell(after.events) == left_to_tell(before.events)
}

/// Closing an attachment, and a writer that fails, end it: every command that
/// waits gets one unknown result, and what was to be told is still told. An
/// attachment that has ended is as it was.
pub proof fn law_an_end_resolves_every_command(
    closed: &mut Attachment,
    closed_results: Vec<CommandResult>,
    failed: &mut Attachment,
    error: ClientError,
    failed_results: Vec<CommandResult>,
)
    requires
        call_ensures(Attachment::close, (closed,), closed_results),
        call_ensures(Attachment::writer_failed, (failed, error), failed_results),
    ensures
        old(closed)@.commands.end is None ==> is_ended(
            old(closed)@,
            final(closed)@,
            closed_results@,
            AttachmentUnknownReason::ClosedLocally,
        ),
        old(closed)@.commands.end is Some ==> final(closed)@ == old(closed)@
            && closed_results@.len() == 0,
        old(failed)@.commands.end is None ==> is_ended(
            old(failed)@,
            final(failed)@,
            failed_results@,
            AttachmentUnknownReason::TransportTerminated,
        ),
        old(failed)@.commands.end is None && !old(failed)@.events.closed
            ==> final(failed)@.events.error == Some(error),
        old(failed)@.commands.end is Some ==> final(failed)@ == old(failed)@
            && failed_results@.len() == 0,
{
}

/// A broken stream ends the attachment: every command that waits gets one
/// unknown result. A plain end of the stream is no failure once the Run ended.
pub proof fn law_a_broken_stream_ends_the_attachment(
    attachment: &mut Attachment,
    seen: ReaderEvent,
    step: ReaderStep,
)
    requires
        !(seen is Frame) || (seen matches ReaderEvent::Frame(ServerFrame::Error { .. })),
        old(attachment)@.commands.end is None,
        !old(attachment)@.events.closed,
        call_ensures(Attachment::reader_loop, (attachment, seen), step),
    ensures
        step.done,
        is_ended(
            old(attachment)@,
            final(attachment)@,
            step.results@,
            if seen is TransportFailed || seen is EndOfStream {
                AttachmentUnknownReason::TransportTerminated
            } else {
                AttachmentUnknownReason::ProtocolViolation
            },
        ),
        final(attachment)@.events.error is None <==> seen is EndOfStream
            && old(attachment)@.events.saw_terminal,
        seen matches ReaderEvent::Frame(ServerFrame::Error { error })
            ==> final(attachment)@.events.error == Some(
            ClientError::Protocol { code: error.code, message: error.message },
        ),
{
}

/// An event of the stream is taken as the inbox takes it; the commands are not
/// touched by it.
pub proof fn law_output_of_the_stream_reaches_the_inbox(
    attachment: &mut Attachment,
    event: RunEvent,
    step: ReaderStep,
)
    requires
        !old(attachment)@.events.closed,
        !old(attachment)@.events.saw_terminal,
        event is Output || event is Exited || event is Interrupted,
        call_ensures(
            Attachment::reader_loop,
            (attachment, ReaderEvent::Frame(ServerFrame::Event { event })),
            step,
        ),
    ensures
        !step.done && step.results@.len() == 0,
        final(attachment)@.commands == old(attachment)@.commands,
        event is Output && old(attachment)@.events.gap is None && old(
            attachment,
        )@.events.queue.len() < 256 && crate::promises::events::bytes_held(
            old(attachment)@.events.queue,
        ) + event->Output_chunk.data@.len() <= 1048576 ==> final(attachment)@.events.queue == old(
            attachment,
        )@.events.queue.push(event),
        !(event is Output) ==> final(attachment)@.events.saw_terminal,
        !(event is Output) && old(attachment)@.events.terminal is None ==> left_to_tell(
            final(attachment)@.events,
        ) == left_to_tell(old(attachment)@.events).push(event),
{
    crate::promises::events::lemma_bytes_held(old(attachment)@.events.queue);
    if !(event is Output) && old(attachment)@.events.terminal is None {
        assert(left_to_tell(final(attachment)@.events) =~= left_to_tell(
            old(attachment)@.events,
        ).push(event));
    }
}

/// A proven result of the stream reaches its command, and that one only.
pub proof fn law_a_result_of_the_stream_reaches_its_command(
    attachment: &mut Attachment,
    id: AttachmentCommandId,
    receipt: ControlReceipt,
    step: ReaderStep,
    place: int,
)
    requires
        old(attachment)@.valid(),
        0 <= place < old(attachment)@.commands.pending.len(),
        old(attachment)@.commands.pending[place].id == id,
        proves(old(attachment)@.commands.pending[place].kind, receipt),
        call_ensures(
            Attachment::reader_loop,
            (
                attachment,
                ReaderEvent::Frame(
                    ServerFrame::CommandResult {
                        command_id: id,
                        outcome: ControlOutcome::Accepted { receipt },
                    },
                ),
            ),
            step,
        ),
    ensures
        !step.done,
        step.results@.len() == 1,
        step.results@[0].command_id == id,
        step.results@[0].resolution matches PendingResolution::Accepted(validated)
            && match validated {
            ValidatedReceipt::Input(shown) => receipt == (ControlReceipt::Input {
                written_bytes: shown.written_bytes,
            }),
            ValidatedReceipt::Resize(shown) => receipt == (ControlReceipt::Resize {
                applied_size: shown.applied_size,
            }),
            ValidatedReceipt::Stop(shown) => receipt == (ControlReceipt::Stop {
                disposition: shown.disposition,
            }),
        },
        final(attachment)@.commands.pending == old(attachment)@.commands.pending.remove(place),
        final(attachment)@.events == old(attachment)@.events,
{
    let commands = old(attachment)@.commands;
    let found = choose|i: int|
        0 <= i < commands.pending.len() && (#[trigger] commands.pending[i]).id == id;
    if found < place {
        assert(commands.pending[found].id.number < commands.pending[place].id.number);
    } else if place < found {
        assert(commands.pending[place].id.number < commands.pending[found].id.number);
    }
}

/// A frame that has no place in an attachment ends it, as a fault of the
/// protocol.
pub proof fn law_a_misplaced_frame_ends_the_attachment(
    attachment: &mut Attachment,
    frame: ServerFrame,
    step: ReaderStep,
)
    requires
        frame is Hello || frame is Response || frame is Attached || (frame is Detached && !old(
            attachment,
        )@.commands.detaching),
        old(attachment)@.commands.end is None,
        !old(attachment)@.events.closed,
        call_ensures(Attachment::reader_loop, (attachment, ReaderEvent::Frame(frame)), step),
    ensures
        step.done,
        is_ended(
            old(attachment)@,
            final(attachment)@,
            step.results@,
            AttachmentUnknownReason::ProtocolViolation,
        ),
        final(attachment)@.events.error matches Some(error) && error is ProtocolContractViolation,
{
}

/// A detach is acknowledged only once it was asked for and nothing waits; then
/// the attachment has ended cleanly.
pub proof fn law_a_detach_ends_cleanly(
    attachment: &mut Attachment,
    step: ReaderStep,
)
    requires
        old(attachment)@.commands.detaching,
        old(attachment)@.commands.pending.len() == 0,
        call_ensures(
            Attachment::reader_loop,
            (attachment, ReaderEvent::Frame(ServerFrame::Detached)),
            step,
        ),
    ensures
        step.done,
        step.results@.len() == 0,
        final(attachment)@.commands.end == Some(AttachmentEnd::Detached),
        final(attachment)@.commands.fence == Some(AttachmentUnavailableReason::Closed),
        final(attachment)@.events.closed,
        !old(attachment)@.events.closed ==> final(attachment)@.events.error is None,
{
}

/// A detach fences new commands and is ready once none waits; an attachment
/// that has ended cannot be detached.
pub proof fn law_a_detach_waits_for_all_commands(
    attachment: &mut Attachment,
    begun: Result<(), ClientError>,
    waiting: Attachment,
    ready: Option<Result<(), ClientError>>,
    detached: Option<Result<(), ClientError>>,
    queued: bool,
    sent: Result<(), ClientError>,
)
    requires
        call_ensures(Attachment::detach, (attachment,), begun),
        call_ensures(Attachment::detach_ready, (&waiting,), ready),
        call_ensures(Attachment::detached, (&waiting,), detached),
        call_ensures(Attachment::detach_queued, (queued,), sent),
    ensures
        begun is Ok <==> old(attachment)@.commands.end is None,
        begun is Ok ==> final(attachment)@.commands == (CommandsView {
            fence: Some(AttachmentUnavailableReason::Detaching),
            detaching: true,
            ..old(attachment)@.commands
        }) && final(attachment)@.events == old(attachment)@.events,
        begun is Err ==> final(attachment)@ == old(attachment)@,
        ready is Some <==> waiting@.commands.pending.len() == 0,
        detached is None <==> waiting@.commands.end is None,
        detached matches Some(Ok(_)) <==> waiting@.commands.end == Some(AttachmentEnd::Detached),
        sent is Ok <==> queued,
{
}

/// What is known of a failed command: a refusal says it, a lost result leaves it
/// open, and what never left the client was not applied.
pub proof fn law_a_failure_tells_its_disposition(
    error: ClientError,
    r: Option<CommandDisposition>,
)
    requires
        call_ensures(ClientError::control_disposition, (&error,), r),
    ensures
        match error {
            ClientError::ControlRejected { failure } => r == Some(failure.disposition),
            ClientError::ControlRequestUnknown { .. } => r == Some(CommandDisposition::Unknown),
            ClientError::AttachmentCommandUnknown { .. } => r == Some(CommandDisposition::Unknown),
            ClientError::ControlNotApplied { .. } => r == Some(CommandDisposition::NotApplied),
            ClientError::AttachmentBackpressure { .. } => r == Some(CommandDisposition::NotApplied),
            ClientError::AttachmentUnavailable { .. } => r == Some(CommandDisposition::NotApplied),
            ClientError::UnsupportedCapability { .. } => r == Some(CommandDisposition::NotApplied),
            ClientError::RuntimeIdentityMismatch { .. } => r == Some(
                CommandDisposition::NotApplied,
            ),
            _ => r is None,
        },
{
}

/// A detach that is acknowledged must have been asked for, and nothing may wait;
/// otherwise nothing changes.
pub proof fn law_a_detach_is_acknowledged_in_its_time(
    state: &mut AttachmentState,
    r: Result<(), &'static str>,
    detaching: &mut AttachmentState,
    begun: Result<(), ClientError>,
)
    requires
        call_ensures(AttachmentState::finish_detach, (state,), r),
        call_ensures(AttachmentState::begin_detach, (detaching,), begun),
    ensures
        r is Ok <==> old(state)@.detaching && old(state)@.pending.len() == 0,
        r is Ok ==> final(state)@.end == Some(AttachmentEnd::Detached) && final(state)@.fence
            == Some(AttachmentUnavailableReason::Closed),
        r is Err ==> final(state)@ == old(state)@,
        begun is Ok <==> old(detaching)@.end is None,
        begun is Ok ==> final(detaching)@.detaching && final(detaching)@.fence == Some(
            AttachmentUnavailableReason::Detaching,
        ) && final(detaching)@.pending == old(detaching)@.pending,
{
}

/// An attachment ends once, with everything that waits handed out.
pub proof fn law_an_attachment_ends_once(
    state: &mut AttachmentState,
    r: Option<Vec<PendingCommand>>,
)
    requires
        call_ensures(AttachmentState::terminate, (state,), r),
    ensures
        r is Some <==> old(state)@.end is None,
        r matches Some(commands) ==> commands@ == old(state)@.pending
            && final(state)@.pending.len() == 0 && final(state)@.end == Some(AttachmentEnd::Terminated)
            && final(state)@.fence == Some(AttachmentUnavailableReason::Closed),
        r is None ==> final(state)@ == old(state)@,
{
}

/// The reader of an attachment gets its events in order, and touches no command.
pub proof fn law_an_attachment_hands_its_events_out_in_order(
    attachment: &mut Attachment,
    guard: EventConsumerGuard,
    next: NextEvent,
)
    requires
        call_ensures(Attachment::next_event, (attachment, &guard), next),
    ensures
        final(attachment)@.commands == old(attachment)@.commands,
        ({
            let left = left_to_tell(old(attachment)@.events);
            if left.len() > 0 {
                &&& next == NextEvent::Ready(Ok(Some(left[0])))
                &&& left_to_tell(final(attachment)@.events) == left.drop_first()
            } else if old(attachment)@.events.error is Some {
                &&& next == NextEvent::Ready(Err(old(attachment)@.events.error->Some_0))
                &&& final(attachment)@.events.error is None
            } else {
                &&& old(attachment)@.events.closed ==> next == NextEvent::Ready(Ok(None))
                &&& !old(attachment)@.events.closed ==> next is Wait
                &&& final(attachment)@ == old(attachment)@
            }
        }),
{
    let before = old(attachment)@.events;
    let after = final(attachment)@.events;
    assert(left_to_tell(before) =~= before.deliveries());
    assert(left_to_tell(after) =~= after.deliveries());
}

/// One reader reads the events of an attachment at a time.
pub proof fn law_an_attachment_has_one_reader(
    attachment: &mut Attachment,
    begun: Result<EventConsumerGuard, ClientError>,
    ending: &mut Attachment,
    guard: EventConsumerGuard,
)
    requires
        call_ensures(Attachment::begin_events, (attachment,), begun),
        call_ensures(Attachment::end_events, (ending, guard), ()),
    ensures
        begun is Ok <==> !old(attachment)@.events.reading,
        final(attachment)@.commands == old(attachment)@.commands,
        final(attachment)@.events.reading,
        left_to_tell(final(attachment)@.events) == left_to_tell(old(attachment)@.events),
        !final(ending)@.events.reading,
        final(ending)@.commands == old(ending)@.commands,
        left_to_tell(final(ending)@.events) == left_to_tell(old(ending)@.events),
{
}

} // verus!
