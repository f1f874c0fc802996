//! What an attached client sees of a Run, and what its commands do.

use vstd::prelude::*;

use crate::daemon::attachment::{
    observe_command_id, outcome, split_snapshot, terminal_event, AttachmentServer, ControlCommand,
    ControlStart, FrameAction, LiveEvent, Step,
};
use crate::protocol::{
    AttachedSnapshot, AttachedSnapshotHeader, AttachmentCommandId, ClientFrame, ControlOutcome,
    ControlResult, ErrorCode, OutputChunk, ProtocolError, RunEvent, RunState, ServerFrame,
};

verus! {

/// A command of an attached client reaches the Run as it was sent, with its
/// number: Input with the same bytes, a Resize with the same columns and rows,
/// a Stop as a Stop. Nothing but such a frame reaches the Run.
pub proof fn law_a_command_reaches_the_run_as_it_was_sent(
    server: &mut AttachmentServer,
    frame: Option<ClientFrame>,
    action: FrameAction,
)
    requires
        call_ensures(AttachmentServer::handle_frame, (server, frame), action),
    ensures
        action matches FrameAction::Control { command_id, command } ==> match command {
            ControlCommand::Input(bytes) => frame matches Some(
                ClientFrame::Input { command_id: sent, data },
            ) && sent == command_id && bytes@ == data@,
            ControlCommand::Resize(size) => frame matches Some(
                ClientFrame::Resize { command_id: sent, size: asked },
            ) && sent == command_id && size.cols == asked.cols && size.rows == asked.rows,
            ControlCommand::Stop => frame matches Some(ClientFrame::Stop { command_id: sent })
                && sent == command_id,
        },
{
}

/// The first command of an attachment has the number one, and every later one a
/// greater number than the one before it. Such a command is handed to the Run;
/// any other ends the attachment with an error and is not handed on.
pub proof fn law_commands_are_numbered(
    server: &mut AttachmentServer,
    frame: ClientFrame,
    number: AttachmentCommandId,
    action: FrameAction,
)
    requires
        call_ensures(AttachmentServer::handle_frame, (server, Some(frame)), action),
        match frame {
            ClientFrame::Input { command_id, .. } => command_id == number,
            ClientFrame::Resize { command_id, .. } => command_id == number,
            ClientFrame::Stop { command_id } => command_id == number,
            _ => false,
        },
    ensures
        ({
            let in_order = match old(server)@.last_command_id {
                None => number.number == 1,
                Some(last) => last.number < number.number,
            };
            if in_order {
                action is Control && final(server)@.last_command_id == Some(number)
            } else {
                &&& action matches FrameAction::Send(step) && step.done && step.frames@.len() == 1
                    && (step.frames@[0] matches ServerFrame::Error { error } && error.code
                    == ErrorCode::InvalidRequest)
                &&& final(server)@.last_command_id == old(server)@.last_command_id
            }
        }),
        final(server)@.sent_through_byte == old(server)@.sent_through_byte,
        final(server)@.pending_stop == old(server)@.pending_stop,
        final(server)@.held_terminal == old(server)@.held_terminal,
{
}

/// A detach is acknowledged and ends the attachment, the end of the client's
/// stream ends it without a word, and a frame that has no place there is
/// refused without ending it. None of them changes anything.
pub proof fn law_only_commands_change_an_attachment(
    server: &mut AttachmentServer,
    frame: Option<ClientFrame>,
    action: FrameAction,
)
    requires
        call_ensures(AttachmentServer::handle_frame, (server, frame), action),
        match frame {
            Some(ClientFrame::Input { .. }) => false,
            Some(ClientFrame::Resize { .. }) => false,
            Some(ClientFrame::Stop { .. }) => false,
            _ => true,
        },
    ensures
        final(server)@ == old(server)@,
        action matches FrameAction::Send(step) && match frame {
            None => step.done && step.frames@.len() == 0,
            Some(ClientFrame::Detach) => step.done && step.frames@ == seq![ServerFrame::Detached],
            Some(_) => !step.done && step.frames@.len() == 1 && (
            step.frames@[0] matches ServerFrame::Error { error } && error.code
                == ErrorCode::InvalidRequest),
        },
{
}

/// The outcome of a command tells its client exactly what the Run's owner said.
pub proof fn law_an_outcome_is_what_the_owner_said(result: ControlResult, told: ControlOutcome)
    requires
        call_ensures(outcome, (result,), told),
    ensures
        match told {
            ControlOutcome::Accepted { receipt } => result matches Ok(given) && given == receipt,
            ControlOutcome::Rejected { failure } => result matches Err(given) && given == failure,
        },
{
}

/// The result of every command is sent, under the number of that command and
/// as it came.
pub proof fn law_every_command_gets_its_result(
    server: &mut AttachmentServer,
    command_id: AttachmentCommandId,
    result: ControlOutcome,
    step: Step,
)
    requires
        call_ensures(AttachmentServer::command_result, (server, command_id, result), step),
    ensures
        step.frames@.len() > 0,
        step.frames@[0] == (ServerFrame::CommandResult { command_id, outcome: result }),
        step.frames@.len() == 1 <==> !step.done,
        step.done <==> old(server)@.pending_stop == Some(command_id)
            && old(server)@.held_terminal is Some,
        step.done ==> step.frames@ == seq![
            ServerFrame::CommandResult { command_id, outcome: result },
            ServerFrame::Event { event: old(server)@.held_terminal->0 },
        ],
        old(server)@.pending_stop != Some(command_id) ==> final(server)@ == old(server)@,
        old(server)@.pending_stop == Some(command_id) ==> final(server)@.pending_stop is None
            && final(server)@.held_terminal is None,
        final(server)@.sent_through_byte == old(server)@.sent_through_byte,
        final(server)@.last_command_id == old(server)@.last_command_id,
{
}

/// A command that is settled at once is answered at once with what it came to;
/// one that is not is answered later, and only a Stop is waited for.
pub proof fn law_a_begun_command_is_answered_or_awaited(
    server: &mut AttachmentServer,
    command_id: AttachmentCommandId,
    is_stop: bool,
    start: ControlStart,
    step: Step,
)
    requires
        call_ensures(AttachmentServer::control_started, (server, command_id, is_stop, start), step),
    ensures
        !step.done,
        match start {
            ControlStart::Settled(result) => {
                &&& step.frames@.len() == 1
                &&& step.frames@[0] matches ServerFrame::CommandResult {
                    command_id: told,
                    outcome: given,
                } && told == command_id && match result {
                    Ok(receipt) => given == (ControlOutcome::Accepted { receipt }),
                    Err(failure) => given == (ControlOutcome::Rejected { failure }),
                }
                &&& final(server)@ == old(server)@
            },
            ControlStart::Pending => {
                &&& step.frames@.len() == 0
                &&& final(server)@.pending_stop == (if is_stop {
                    Some(command_id)
                } else {
                    old(server)@.pending_stop
                })
                &&& final(server)@.held_terminal == old(server)@.held_terminal
                &&& final(server)@.sent_through_byte == old(server)@.sent_through_byte
                &&& final(server)@.last_command_id == old(server)@.last_command_id
            },
        },
{
}

/// Live output behind what was sent is passed on as it is and moves the cursor
/// to its end; output that was sent already is not sent again.
pub proof fn law_live_output_is_passed_on(
    server: &mut AttachmentServer,
    chunk: OutputChunk,
    step: Step,
)
    requires
        call_ensures(
            AttachmentServer::live_event,
            (server, LiveEvent::Event(RunEvent::Output { chunk })),
            step,
        ),
    ensures
        !step.done,
        chunk.end_byte > old(server)@.sent_through_byte ==> step.frames@ == seq![
            ServerFrame::Event { event: RunEvent::Output { chunk } },
        ] && final(server)@.sent_through_byte == chunk.end_byte,
        chunk.end_byte <= old(server)@.sent_through_byte ==> step.frames@.len() == 0
            && final(server)@.sent_through_byte == old(server)@.sent_through_byte,
        final(server)@.last_command_id == old(server)@.last_command_id,
        final(server)@.pending_stop == old(server)@.pending_stop,
        final(server)@.held_terminal == old(server)@.held_terminal,
{
}

/// A reader that fell behind is told how far the Run has come, and goes on from
/// there.
pub proof fn law_a_lagging_reader_is_told(
    server: &mut AttachmentServer,
    latest: u64,
    step: Step,
)
    requires
        call_ensures(
            AttachmentServer::live_event,
            (server, LiveEvent::Lagged { latest_output_bytes: latest }),
            step,
        ),
    ensures
        !step.done,
        step.frames@ == seq![
            ServerFrame::Event { event: RunEvent::Gap { latest_output_bytes: latest } },
        ],
        final(server)@.sent_through_byte == latest,
        final(server)@.last_command_id == old(server)@.last_command_id,
        final(server)@.pending_stop == old(server)@.pending_stop,
        final(server)@.held_terminal == old(server)@.held_terminal,
{
}

/// Whatever else happens to a Run is passed on as it is. Its end is passed on
/// too and ends the attachment, unless a Stop still waits for its result: then
/// it is held back.
pub proof fn law_every_other_event_is_passed_on(
    server: &mut AttachmentServer,
    event: RunEvent,
    step: Step,
)
    requires
        !(event is Output),
        call_ensures(AttachmentServer::live_event, (server, LiveEvent::Event(event)), step),
    ensures
        ({
            let ends = event is Exited || event is Interrupted;
            let held = ends && old(server)@.pending_stop is Some;
            &&& !held ==> step.frames@ == seq![ServerFrame::Event { event }] && step.done == ends
                && final(server)@ == old(server)@
            &&& held ==> step.frames@.len() == 0 && !step.done && final(server)@.held_terminal
                == Some(event) && final(server)@.pending_stop == old(server)@.pending_stop
        }),
        final(server)@.sent_through_byte == old(server)@.sent_through_byte,
        final(server)@.last_command_id == old(server)@.last_command_id,
{
}

/// The end of the Run's events ends the attachment without a word.
pub proof fn law_a_closed_stream_ends_the_attachment(server: &mut AttachmentServer, step: Step)
    requires
        call_ensures(AttachmentServer::live_event, (server, LiveEvent::Closed), step),
    ensures
        step.done,
        step.frames@.len() == 0,
        final(server)@ == old(server)@,
{
}

/// An attachment begins with the Run as it is, then every chunk of the replay
/// in order, then the end of a Run that has ended; it goes on exactly while the
/// Run is running.
pub proof fn law_an_attachment_begins_with_the_whole_replay(
    snapshot: AttachedSnapshot,
    server: AttachmentServer,
    step: Step,
)
    requires
        call_ensures(AttachmentServer::handle, (Ok(snapshot),), (server, step)),
    ensures
        ({
            let chunks = snapshot.replay.chunks@;
            let frames = step.frames@;
            let running = snapshot.run.state is Running;
            &&& frames.len() == chunks.len() + (if running {
                1int
            } else {
                2
            })
            &&& frames[0] matches ServerFrame::Attached { snapshot: header } && header.run
                == snapshot.run && header.replay.first_available_byte
                == snapshot.replay.first_available_byte && header.replay.latest_output_bytes
                == snapshot.replay.latest_output_bytes && header.replay.truncated
                == snapshot.replay.truncated
            &&& forall|i: int|
                0 <= i < chunks.len() ==> #[trigger] frames[i + 1] == (ServerFrame::Event {
                    event: RunEvent::Output { chunk: chunks[i] },
                })
            &&& !running ==> (frames.last() matches ServerFrame::Event { event }
                && match snapshot.run.state {
                RunState::Interrupted { reason } => event == (RunEvent::Interrupted { reason }),
                state => event == (RunEvent::Exited { state }),
            })
            &&& step.done == !running
            &&& server@.sent_through_byte == snapshot.replay.latest_output_bytes
            &&& server@.last_command_id is None
            &&& server@.pending_stop is None
        }),
{
}

/// A Run that cannot be attached is answered with the reason, and nothing
/// follows.
pub proof fn law_a_refused_attachment_says_why(
    error: ProtocolError,
    server: AttachmentServer,
    step: Step,
)
    requires
        call_ensures(AttachmentServer::handle, (Err(error),), (server, step)),
    ensures
        step.done,
        step.frames@ == seq![ServerFrame::Error { error }],
{
}

/// The event of an end carries the state in which the Run ended.
pub proof fn law_the_event_of_an_end_carries_it(state: RunState, event: RunEvent)
    requires
        !(state is Running),
        call_ensures(terminal_event, (state,), event),
    ensures
        match event {
            RunEvent::Interrupted { reason } => state == (RunState::Interrupted { reason }),
            RunEvent::Exited { state: ended } => ended == state && state is Exited,
            _ => false,
        },
{
}

/// A snapshot is split without loss.
pub proof fn law_a_snapshot_is_split_without_loss(
    snapshot: AttachedSnapshot,
    parts: (AttachedSnapshotHeader, Vec<OutputChunk>, RunState),
)
    requires
        call_ensures(split_snapshot, (snapshot,), parts),
    ensures
        parts.0.run == snapshot.run,
        parts.0.replay.first_available_byte == snapshot.replay.first_available_byte,
        parts.0.replay.latest_output_bytes == snapshot.replay.latest_output_bytes,
        parts.0.replay.truncated == snapshot.replay.truncated,
        parts.1@ == snapshot.replay.chunks@,
        parts.2 == snapshot.run.state,
{
}

/// Two numbers that are taken one after the other increase.
pub proof fn law_taken_numbers_increase(
    last: &mut Option<AttachmentCommandId>,
    number: AttachmentCommandId,
    r: Result<(), ProtocolError>,
)
    requires
        call_ensures(observe_command_id, (last, number), r),
    ensures
        r is Ok ==> *final(last) == Some(number) && match *old(last) {
            None => number.number == 1,
            Some(earlier) => earlier.number < number.number,
        },
        r is Err ==> *final(last) == *old(last) && match *old(last) {
            None => number.number != 1,
            Some(earlier) => number.number <= earlier.number,
        },
{
}

} // verus!
