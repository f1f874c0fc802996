//! What the observation of a tmux pane does with what it sees.

use vstd::prelude::*;

use crate::daemon::output_log::OutputLog;
use crate::daemon::pty::{pty_size_from, to_pty_size, winsize_from, PtyDimensions, WindowSize};
use crate::daemon::tmux_control::{
    complete_tmux_control, interruption_error_code, needs_termination, resolve_tmux_termination,
    terminate_tmux_control_child, wait_for_tmux_control, wait_outcome, CompletedControl,
    ControlItem, ItemOutcome, ItemStep, ReaderReport, StreamEvent, TmuxControlCommand,
    TmuxObservation, TmuxReaderTermination, TmuxTermination, TmuxWaitCause, TmuxWaitOutcome,
    TmuxWrite, WaitEvent, WaitPhase,
};
use crate::daemon::tmux_tracker::{
    CleanupResult, CompletionPoll, TmuxCommandKind, TmuxCommandResultKind, TmuxCommandTracker,
    TmuxCompletion,
};
use crate::output::{bytes_of, lemma_bytes_of_concat, lemma_bytes_of_push};
use crate::promises::output::lemma_least_eviction;
use crate::protocol::{
    ErrorCode, InterruptionReason, RunEvent, TerminalSize, TmuxPaneInfo, TmuxRunEvent,
};

verus! {

/// Whether an item names a pane, a window or a session of an observation other
/// than its own, and so does not concern it. A change of the session does
/// concern it: it is judged apart.
pub open spec fn concerns_another(
    item: ControlItem,
    session_id: Seq<char>,
    window_id: Seq<char>,
    pane_id: Seq<char>,
) -> bool {
    match item {
        ControlItem::Output { pane_id: named, .. } => named@ != pane_id,
        ControlItem::Paused { pane_id: named } => named@ != pane_id,
        ControlItem::Continued { pane_id: named } => named@ != pane_id,
        ControlItem::WindowClosed { window_id: named } => named@ != window_id,
        ControlItem::SessionRenamed { session_id: named, .. } => named@ != session_id,
        ControlItem::Notification => true,
        ControlItem::SessionChanged { .. } => false,
        ControlItem::CommandResult { .. } => false,
        ControlItem::Exit => false,
    }
}

/// An item that names another pane, another window or another session leaves
/// the observation and the output as they were, publishes nothing and asks for
/// nothing.
pub proof fn law_items_of_other_panes_and_windows_are_ignored(
    observation: &mut TmuxObservation,
    item: ControlItem,
    probe_command: String,
    identity: Result<bool, String>,
    output: &mut OutputLog,
    step: ItemStep,
)
    requires
        call_ensures(
            TmuxObservation::handle_tmux_control_item,
            (observation, item, probe_command, identity, output),
            step,
        ),
        concerns_another(
            item,
            old(observation)@.session_id,
            old(observation)@.window_id,
            old(observation)@.pane_id,
        ),
    ensures
        final(observation)@ == old(observation)@,
        final(output)@ == old(output)@,
        step.events@.len() == 0,
        step.outcome is Done,
{
}

/// The same holds of the stream that brings the item.
pub proof fn law_the_stream_ignores_other_panes_and_windows(
    observation: &mut TmuxObservation,
    item: ControlItem,
    probe_command: String,
    identity: Result<bool, String>,
    output: &mut OutputLog,
    step: ItemStep,
)
    requires
        call_ensures(
            TmuxObservation::read_tmux_output,
            (observation, StreamEvent::Item { item, identity }, probe_command, output),
            step,
        ),
        concerns_another(
            item,
            old(observation)@.session_id,
            old(observation)@.window_id,
            old(observation)@.pane_id,
        ),
    ensures
        final(observation)@ == old(observation)@,
        final(output)@ == old(output)@,
        step.events@.len() == 0,
        step.outcome is Done,
{
}

/// An observation is of the pane, the window and the session that it was made
/// for, and starts out not ready, with no session seen and nothing written.
pub proof fn law_an_observation_is_of_its_target(
    target: TmuxPaneInfo,
    observation: TmuxObservation,
)
    requires
        call_ensures(TmuxObservation::new, (target,), observation),
    ensures
        observation@.pane_id == target.pane_id@,
        observation@.window_id == target.window_id@,
        observation@.session_id == target.session_id@,
        !observation@.ready,
        observation@.tracker matches Some(tracker) && !tracker.session_established
            && tracker.pending.len() == 0 && tracker.last_result_number is None
            && !tracker.bootstrap_result_seen,
{
}

/// No item changes what is observed.
pub proof fn law_the_target_never_changes(
    observation: &mut TmuxObservation,
    item: ControlItem,
    probe_command: String,
    identity: Result<bool, String>,
    output: &mut OutputLog,
    step: ItemStep,
)
    requires
        call_ensures(
            TmuxObservation::handle_tmux_control_item,
            (observation, item, probe_command, identity, output),
            step,
        ),
    ensures
        final(observation)@.pane_id == old(observation)@.pane_id,
        final(observation)@.window_id == old(observation)@.window_id,
        final(observation)@.session_id == old(observation)@.session_id,
        final(observation)@.ready != old(observation)@.ready ==> step.outcome is Ready
            && final(observation)@.ready,
        final(observation)@.tracker is Some == old(observation)@.tracker is Some,
{
}

/// What the observed pane prints is retained and published as it was printed,
/// behind what was there; nothing else is retained.
pub proof fn law_the_pane_s_output_is_retained_and_published(
    observation: &mut TmuxObservation,
    pane_id: String,
    data: Vec<u8>,
    probe_command: String,
    identity: Result<bool, String>,
    output: &mut OutputLog,
    step: ItemStep,
)
    requires
        pane_id@ == old(observation)@.pane_id,
        data@.len() > 0,
        old(output)@.latest + data@.len() <= u64::MAX,
        call_ensures(
            TmuxObservation::handle_tmux_control_item,
            (
                observation,
                ControlItem::Output { pane_id, data },
                probe_command,
                identity,
                output,
            ),
            step,
        ),
    ensures
        step.outcome is Done,
        step.events@.len() == 1,
        step.events@[0] matches RunEvent::Output { chunk } && {
            &&& chunk.data@ == data@
            &&& chunk.start_byte == old(output)@.latest
            &&& chunk.end_byte == old(output)@.latest + data@.len()
            &&& final(output)@.chunks.len() > 0
            &&& final(output)@.chunks.last() == chunk@
            &&& bytes_of(old(output)@.chunks).len() + data@.len() <= 4194304
                ==> final(output)@.chunks == old(output)@.chunks.push(chunk@)
        },
        final(output)@.latest == old(output)@.latest + data@.len(),
        final(output)@.gap == old(output)@.gap,
        final(observation)@ == old(observation)@,
{
    let chunk = step.events@[0]->Output_chunk;
    let all = old(output)@.chunks.push(chunk@);
    let removed = lemma_least_eviction(all);
    lemma_bytes_of_push(old(output)@.chunks, chunk@);
    if bytes_of(all).len() <= 4194304 && removed > 0 {
        let kept = all.skip(removed);
        let front = all.take(removed);
        assert(front + kept =~= all);
        lemma_bytes_of_concat(front, kept);
        assert(front.drop_last().push(front.last()) =~= front);
        lemma_bytes_of_push(front.drop_last(), front.last());
        assert(front.last() == all[removed - 1]);
    }
    if removed == 0 {
        assert(all.skip(0) =~= all);
    }
}

/// A pause of the pane marks all output so far as followed by a gap, tells of
/// the pause and then of the gap, and asks tmux to go on with that pane unless
/// it was asked already.
pub proof fn law_a_pause_is_told_and_ended(
    observation: &mut TmuxObservation,
    pane_id: String,
    probe_command: String,
    identity: Result<bool, String>,
    output: &mut OutputLog,
    step: ItemStep,
)
    requires
        pane_id@ == old(observation)@.pane_id,
        call_ensures(
            TmuxObservation::handle_tmux_control_item,
            (observation, ControlItem::Paused { pane_id }, probe_command, identity, output),
            step,
        ),
    ensures
        step.events@.len() == 2,
        step.events@[0] == (RunEvent::Tmux { event: TmuxRunEvent::Paused }),
        step.events@[1] == (RunEvent::Gap { latest_output_bytes: old(output)@.latest }),
        final(output)@.gap == Some(old(output)@.latest),
        final(output)@.latest == old(output)@.latest,
        final(output)@.chunks == old(output)@.chunks,
        final(observation)@ == old(observation)@,
        !(step.outcome is Ready),
        step.outcome matches ItemOutcome::Write(write) ==> write.kind == TmuxCommandKind::Continue
            && write.command@ == "refresh-client -A "@ + pane_id@ + ":continue\n"@,
        old(observation)@.tracker matches Some(tracker) && tracker.session_established
            && !tracker.pending.contains(TmuxCommandKind::Continue) && tracker.pending.len() < 2
            ==> step.outcome is Write,
        old(observation)@.tracker matches Some(tracker) && tracker.session_established
            && tracker.pending.contains(TmuxCommandKind::Continue) ==> step.outcome is Done,
        old(observation)@.tracker is None ==> step.outcome is Failed,
{
}

/// That the pane goes on, and a new name of its session, are told as they are.
pub proof fn law_changes_of_the_pane_are_told(
    observation: &mut TmuxObservation,
    item: ControlItem,
    probe_command: String,
    identity: Result<bool, String>,
    output: &mut OutputLog,
    step: ItemStep,
)
    requires
        match item {
            ControlItem::Continued { pane_id } => pane_id@ == old(observation)@.pane_id,
            ControlItem::SessionRenamed { session_id, .. } => session_id@
                == old(observation)@.session_id,
            _ => false,
        },
        call_ensures(
            TmuxObservation::handle_tmux_control_item,
            (observation, item, probe_command, identity, output),
            step,
        ),
    ensures
        final(observation)@ == old(observation)@,
        final(output)@ == old(output)@,
        step.outcome is Done,
        step.events@.len() == 1,
        match item {
            ControlItem::SessionRenamed { name, .. } => step.events@[0] == (RunEvent::Tmux {
                event: TmuxRunEvent::SessionRenamed { name },
            }),
            _ => step.events@[0] == (RunEvent::Tmux { event: TmuxRunEvent::Continued }),
        },
{
}

/// The observation ends where its target goes: its window closes, or the
/// client is moved to another session. It ends, too, where tmux goes.
pub proof fn law_a_lost_target_ends_the_observation(
    observation: &mut TmuxObservation,
    item: ControlItem,
    probe_command: String,
    identity: Result<bool, String>,
    output: &mut OutputLog,
    step: ItemStep,
)
    requires
        match item {
            ControlItem::WindowClosed { window_id } => window_id@ == old(observation)@.window_id,
            ControlItem::SessionChanged { session_id } => session_id@
                != old(observation)@.session_id,
            ControlItem::Exit => true,
            _ => false,
        },
        call_ensures(
            TmuxObservation::handle_tmux_control_item,
            (observation, item, probe_command, identity, output),
            step,
        ),
    ensures
        final(observation)@ == old(observation)@,
        final(output)@ == old(output)@,
        step.events@.len() == 0,
        step.outcome matches ItemOutcome::Failed(failure) && if item is Exit {
            failure.reason == InterruptionReason::TmuxServerUnavailable && failure.error.code
                == ErrorCode::BackendUnavailable
        } else {
            failure.reason == InterruptionReason::TmuxTargetChanged && failure.error.code
                == ErrorCode::TargetChanged
        },
{
}

/// The first sight of the right session is noted and brings the first probe of
/// the pane; every further sight brings nothing.
pub proof fn law_the_session_brings_one_probe(
    observation: &mut TmuxObservation,
    session_id: String,
    probe_command: String,
    identity: Result<bool, String>,
    output: &mut OutputLog,
    step: ItemStep,
)
    requires
        session_id@ == old(observation)@.session_id,
        old(observation)@.tracker is Some,
        call_ensures(
            TmuxObservation::handle_tmux_control_item,
            (observation, ControlItem::SessionChanged { session_id }, probe_command, identity, output),
            step,
        ),
    ensures
        ({
            let before = old(observation)@.tracker->Some_0;
            &&& final(output)@ == old(output)@
            &&& step.events@.len() == 0
            &&& final(observation)@.ready == old(observation)@.ready
            &&& final(observation)@.tracker matches Some(tracker) && tracker.session_established
                && tracker.pending == before.pending && tracker.last_result_number
                == before.last_result_number && tracker.bootstrap_result_seen
                == before.bootstrap_result_seen
            &&& before.session_established ==> step.outcome is Done
            &&& !before.session_established && before.pending.len() == 0 ==> (
            step.outcome matches ItemOutcome::Write(write) && write.kind
                == TmuxCommandKind::TargetProbe && write.command@ == probe_command@)
        }),
{
}

/// A result of the oldest unanswered probe that shows the same pane makes the
/// import ready, once. One that shows another pane, or a refused command, ends
/// the observation because its target changed. Any other shape is a fault of
/// the protocol.
pub proof fn law_a_probe_shows_the_pane(
    observation: &mut TmuxObservation,
    number: u64,
    success: bool,
    lines: Vec<Vec<u8>>,
    identity: Result<bool, String>,
    outcome: ItemOutcome,
)
    requires
        old(observation)@.tracker matches Some(tracker) && tracker.pending.len() > 0
            && tracker.pending[0] == TmuxCommandKind::TargetProbe && (
        tracker.last_result_number matches Some(last) ==> last < number),
        call_ensures(
            TmuxObservation::handle_tmux_command_result,
            (observation, number, success, lines, identity),
            outcome,
        ),
    ensures
        final(observation)@.tracker matches Some(tracker) && tracker.pending
            == old(observation)@.tracker->Some_0.pending.drop_first()
            && tracker.last_result_number == Some(number),
        if success && lines@.len() == 1 && identity == Ok::<bool, String>(true) {
            &&& final(observation)@.ready
            &&& old(observation)@.ready ==> outcome is Done
            &&& !old(observation)@.ready ==> outcome is Ready
        } else {
            &&& final(observation)@.ready == old(observation)@.ready
            &&& outcome matches ItemOutcome::Failed(failure) && failure.reason == (if !success || (
            lines@.len() == 1 && identity is Ok) {
                InterruptionReason::TmuxTargetChanged
            } else {
                InterruptionReason::TmuxProtocolError
            })
        },
{
}

/// An answered request to go on needs nothing more; a refused one shows that
/// the target changed, and one with output is a fault of the protocol.
pub proof fn law_an_answered_continue_needs_nothing(
    observation: &mut TmuxObservation,
    number: u64,
    success: bool,
    lines: Vec<Vec<u8>>,
    identity: Result<bool, String>,
    outcome: ItemOutcome,
)
    requires
        old(observation)@.tracker matches Some(tracker) && tracker.pending.len() > 0
            && tracker.pending[0] == TmuxCommandKind::Continue && (
        tracker.last_result_number matches Some(last) ==> last < number),
        call_ensures(
            TmuxObservation::handle_tmux_command_result,
            (observation, number, success, lines, identity),
            outcome,
        ),
    ensures
        final(observation)@.ready == old(observation)@.ready,
        final(observation)@.tracker matches Some(tracker) && tracker.pending
            == old(observation)@.tracker->Some_0.pending.drop_first(),
        success && lines@.len() == 0 <==> outcome is Done,
        !(outcome is Done) ==> (outcome matches ItemOutcome::Failed(failure) && failure.reason
            == (if success {
            InterruptionReason::TmuxProtocolError
        } else {
            InterruptionReason::TmuxTargetChanged
        })),
{
}

/// A result that answers nothing ends the observation: one whose number does
/// not advance, one without an open client, and one that nobody asked for
/// once the first result or the session was seen.
pub proof fn law_an_unasked_result_ends_the_observation(
    observation: &mut TmuxObservation,
    number: u64,
    success: bool,
    lines: Vec<Vec<u8>>,
    identity: Result<bool, String>,
    outcome: ItemOutcome,
)
    requires
        match old(observation)@.tracker {
            None => true,
            Some(tracker) => (tracker.last_result_number matches Some(last) && number <= last) || (
            tracker.pending.len() == 0 && (tracker.session_established
                || tracker.bootstrap_result_seen)),
        },
        call_ensures(
            TmuxObservation::handle_tmux_command_result,
            (observation, number, success, lines, identity),
            outcome,
        ),
    ensures
        final(observation)@.ready == old(observation)@.ready,
        outcome matches ItemOutcome::Failed(failure) && failure.error.code
            == ErrorCode::BackendUnavailable && failure.reason == (if old(observation)@.ready {
            InterruptionReason::TmuxProtocolError
        } else {
            InterruptionReason::TmuxServerUnavailable
        }),
{
}

/// The first result of the stream belongs to the client's own start: it is
/// taken where it succeeded without output.
pub proof fn law_the_first_result_is_the_client_s_own(
    observation: &mut TmuxObservation,
    number: u64,
    success: bool,
    lines: Vec<Vec<u8>>,
    identity: Result<bool, String>,
    outcome: ItemOutcome,
)
    requires
        old(observation)@.tracker matches Some(tracker) && tracker.pending.len() == 0
            && !tracker.session_established && !tracker.bootstrap_result_seen
            && tracker.last_result_number is None,
        call_ensures(
            TmuxObservation::handle_tmux_command_result,
            (observation, number, success, lines, identity),
            outcome,
        ),
    ensures
        final(observation)@.ready == old(observation)@.ready,
        success && lines@.len() == 0 <==> outcome is Done,
        !(outcome is Done) ==> (outcome matches ItemOutcome::Failed(failure) && failure.reason
            == InterruptionReason::TmuxServerUnavailable),
        final(observation)@.tracker matches Some(tracker) && tracker.bootstrap_result_seen
            && tracker.last_result_number == Some(number) && tracker.pending.len() == 0,
{
}

/// A probe is written between two checks only once the session is known, and
/// only where none is unanswered.
pub proof fn law_a_periodic_probe_waits_for_its_answer(
    observation: TmuxObservation,
    probe_command: String,
    outcome: ItemOutcome,
)
    requires
        call_ensures(TmuxObservation::periodic_probe, (&observation, probe_command), outcome),
    ensures
        match observation@.tracker {
            None => outcome is Failed,
            Some(tracker) => {
                &&& !tracker.session_established ==> outcome is Done
                &&& tracker.session_established && tracker.pending.contains(
                    TmuxCommandKind::TargetProbe,
                ) ==> outcome is Done
                &&& tracker.session_established && tracker.pending.len() < 2
                    && !tracker.pending.contains(TmuxCommandKind::TargetProbe) ==> (
                outcome matches ItemOutcome::Write(write) && write.kind
                    == TmuxCommandKind::TargetProbe && write.command@ == probe_command@)
            },
        },
{
}

/// A written command waits behind those that are unanswered; one that could
/// not be written does not, and ends the observation.
pub proof fn law_a_written_command_waits_for_its_answer(
    observation: &mut TmuxObservation,
    write: TmuxWrite,
    written: Result<(), String>,
    r: Result<(), TmuxTermination>,
)
    requires
        old(observation)@.tracker is Some,
        call_ensures(TmuxObservation::finish_write, (observation, write, written), r),
    ensures
        final(observation)@.ready == old(observation)@.ready,
        r is Ok <==> written is Ok,
        written is Ok ==> (final(observation)@.tracker matches Some(tracker) && tracker.pending
            == old(observation)@.tracker->Some_0.pending.push(write.kind)
            && tracker.last_result_number
            == old(observation)@.tracker->Some_0.last_result_number),
        written is Err ==> final(observation)@ == old(observation)@ && (r matches Err(failure)
            && failure.reason == InterruptionReason::TmuxServerUnavailable),
{
}

/// A closed client is closed for good, and only the first close finds it open.
pub proof fn law_a_client_is_closed_once(
    observation: &mut TmuxObservation,
    was_open: bool,
)
    requires
        call_ensures(TmuxObservation::close_writer, (observation,), was_open),
    ensures
        was_open == old(observation)@.tracker is Some,
        final(observation)@.tracker is None,
        final(observation)@.ready == old(observation)@.ready,
        final(observation)@.pane_id == old(observation)@.pane_id,
{
}

/// The end of the stream and a fault of it end the observation and change
/// nothing else; a line that completes nothing brings nothing. A fault is one
/// of the protocol only once the import is ready.
pub proof fn law_the_end_of_the_stream_ends_the_observation(
    observation: &mut TmuxObservation,
    seen: StreamEvent,
    probe_command: String,
    output: &mut OutputLog,
    step: ItemStep,
)
    requires
        !(seen is Item),
        call_ensures(
            TmuxObservation::read_tmux_output,
            (observation, seen, probe_command, output),
            step,
        ),
    ensures
        final(observation)@ == old(observation)@,
        final(output)@ == old(output)@,
        step.events@.len() == 0,
        seen is NoItem ==> step.outcome is Done,
        !(seen is NoItem) ==> (step.outcome matches ItemOutcome::Failed(failure)
            && failure.error.code == ErrorCode::BackendUnavailable && failure.reason == (if old(
            observation,
        )@.ready && !(seen matches StreamEvent::Eof(Ok(_))) {
            InterruptionReason::TmuxProtocolError
        } else {
            InterruptionReason::TmuxServerUnavailable
        })),
{
}

/// The wait for the client ends for the reason that came, and only for one:
/// a command, a lost command channel, a changed socket, a failed probe, or the
/// end of the client. Only a client that has exited is not ended.
pub proof fn law_the_wait_ends_for_what_came(event: WaitEvent, next: WaitPhase)
    requires
        call_ensures(wait_for_tmux_control, (event,), next),
    ensures
        match next {
            WaitPhase::Finish { cause, terminate } => {
                &&& terminate == !(event matches WaitEvent::Child(Ok(true)))
                &&& match cause {
                    TmuxWaitCause::Interrupted(reason) => event == WaitEvent::Command(
                        TmuxControlCommand::Interrupt(reason),
                    ),
                    TmuxWaitCause::ReaderTerminated => event == WaitEvent::Command(
                        TmuxControlCommand::ReaderTerminated,
                    ),
                    TmuxWaitCause::Shutdown => event == WaitEvent::Command(
                        TmuxControlCommand::Shutdown,
                    ),
                    TmuxWaitCause::CommandChannelClosed => event is CommandsClosed,
                    TmuxWaitCause::SocketTargetChanged => event == WaitEvent::SocketMatches(false),
                    TmuxWaitCause::ProbeWriteFailed(error) => event == WaitEvent::ProbeWritten(
                        Err(error),
                    ),
                    TmuxWaitCause::ChildExited => event matches WaitEvent::Child(Ok(true)),
                    TmuxWaitCause::ChildStatusFailed(error) => event == WaitEvent::Child(
                        Err(error),
                    ),
                }
            },
            WaitPhase::CheckSocket => event == (WaitEvent::NoCommand { poll_due: true }),
            WaitPhase::WriteProbe => event == WaitEvent::SocketMatches(true),
            WaitPhase::CheckChild => event == (WaitEvent::NoCommand { poll_due: false }) || (
            event matches WaitEvent::ProbeWritten(Ok(_))),
            WaitPhase::AwaitCommand => event matches WaitEvent::Child(Ok(false)),
        },
{
}

/// A finished wait keeps its cause. A client that exited left nothing to clean
/// up; one whose status could not be queried was not cleaned up; otherwise the
/// termination decides.
pub proof fn law_a_wait_is_clean_where_its_client_is_gone(
    cause: TmuxWaitCause,
    terminated: CleanupResult,
    r: TmuxWaitOutcome,
)
    requires
        call_ensures(wait_outcome, (cause, terminated), r),
    ensures
        r.cause == cause,
        cause is ChildExited ==> r.cleanup is Ok,
        cause is ChildStatusFailed ==> r.cleanup is Err,
        !(cause is ChildExited) && !(cause is ChildStatusFailed) ==> r.cleanup == terminated,
{
}

/// What the reader saw explains the end only where the end of the stream is the
/// cause. Every other cause speaks for itself: an interruption with its own
/// reason, a changed socket as a changed target, and the rest as a server that
/// cannot be reached.
pub proof fn law_the_cause_explains_the_end(
    cause: TmuxWaitCause,
    reader: Option<TmuxReaderTermination>,
    control_pid: u32,
    r: TmuxTermination,
)
    requires
        call_ensures(resolve_tmux_termination, (cause, reader, control_pid), r),
    ensures
        (cause is ReaderTerminated || cause is ChildExited) && reader is Some ==> r
            == reader->Some_0.failure,
        !((cause is ReaderTerminated || cause is ChildExited) && reader is Some) ==> {
            &&& r.reason == match cause {
                TmuxWaitCause::Interrupted(reason) => reason,
                TmuxWaitCause::SocketTargetChanged => InterruptionReason::TmuxTargetChanged,
                _ => InterruptionReason::TmuxServerUnavailable,
            }
            &&& r.error.code == (if r.reason == InterruptionReason::TmuxTargetChanged {
                ErrorCode::TargetChanged
            } else {
                ErrorCode::BackendUnavailable
            })
        },
{
}

/// The completed control is clean exactly where the wait was and the reader
/// ended with a receipt.
pub proof fn law_control_is_complete_with_its_reader(
    outcome: TmuxWaitOutcome,
    reader: ReaderReport,
    control_pid: u32,
    r: CompletedControl,
)
    requires
        call_ensures(complete_tmux_control, (outcome, reader, control_pid), r),
    ensures
        r.cleanup is Ok <==> outcome.cleanup is Ok && reader is Ended,
        reader is Ended ==> r.cleanup == outcome.cleanup,
        (outcome.cause is ReaderTerminated || outcome.cause is ChildExited) && reader is Ended
            ==> r.termination == reader->Ended_0.failure,
        outcome.cause matches TmuxWaitCause::Interrupted(reason) ==> r.termination.reason
            == reason,
        outcome.cause is SocketTargetChanged ==> r.termination.reason
            == InterruptionReason::TmuxTargetChanged,
        outcome.cause is Shutdown || outcome.cause is CommandChannelClosed
            || outcome.cause is ProbeWriteFailed || outcome.cause is ChildStatusFailed
            ==> r.termination.reason == InterruptionReason::TmuxServerUnavailable,
{
}

/// A client is gone exactly where it had exited or was reaped, whatever failed
/// before; it has to be ended unless it is known to have exited.
pub proof fn law_a_reaped_client_is_gone(
    status: Result<bool, String>,
    kill_error: Option<String>,
    wait_error: Option<String>,
    ended: CleanupResult,
    needed: bool,
)
    requires
        call_ensures(terminate_tmux_control_child, (status, kill_error, wait_error), ended),
        call_ensures(needs_termination, (&status,), needed),
    ensures
        ended is Ok <==> status == Ok::<bool, String>(true) || wait_error is None,
        needed == (status != Ok::<bool, String>(true)),
{
}

/// Only a changed target is reported as such.
pub proof fn law_only_a_changed_target_is_reported_as_such(
    reason: InterruptionReason,
    code: ErrorCode,
)
    requires
        call_ensures(interruption_error_code, (reason,), code),
    ensures
        code == ErrorCode::TargetChanged <==> reason == InterruptionReason::TmuxTargetChanged,
        code == ErrorCode::TargetChanged || code == ErrorCode::BackendUnavailable,
{
}

/// A command is written only in a known session, and a second of its kind only
/// once the first is answered.
pub proof fn law_a_command_of_a_kind_is_unanswered_once(
    tracker: TmuxCommandTracker,
    kind: TmuxCommandKind,
    r: Result<bool, &'static str>,
)
    requires
        tracker@.pending.len() <= 2,
        tracker@.pending.no_duplicates(),
        call_ensures(TmuxCommandTracker::prepare_enqueue, (&tracker, kind), r),
    ensures
        r is Err <==> !tracker@.session_established,
        r matches Ok(write) ==> write == !tracker@.pending.contains(kind),
{
    if tracker@.pending.len() == 2 {
        let first = tracker@.pending[0];
        let second = tracker@.pending[1];
        assert(first != second);
        assert(tracker@.pending.contains(first) && tracker@.pending.contains(second));
    }
}

/// A written command comes last, and nothing else changes.
pub proof fn law_a_command_joins_at_the_end(tracker: &mut TmuxCommandTracker, kind: TmuxCommandKind)
    requires
        call_ensures(TmuxCommandTracker::commit_enqueue, (tracker, kind), ()),
    ensures
        final(tracker)@.pending == old(tracker)@.pending.push(kind),
        final(tracker)@.session_established == old(tracker)@.session_established,
        final(tracker)@.last_result_number == old(tracker)@.last_result_number,
        final(tracker)@.bootstrap_result_seen == old(tracker)@.bootstrap_result_seen,
{
}

/// A result with a new number answers the oldest unanswered command. Without
/// one, it is the client's own first result, if neither that nor the session
/// was seen. A number that was seen answers nothing and changes nothing.
pub proof fn law_a_result_answers_the_oldest_command(
    tracker: &mut TmuxCommandTracker,
    number: u64,
    r: Result<TmuxCommandResultKind, &'static str>,
)
    requires
        call_ensures(TmuxCommandTracker::correlate_result, (tracker, number), r),
    ensures
        ({
            let before = old(tracker)@;
            let after = final(tracker)@;
            let seen = before.last_result_number matches Some(last) && number <= last;
            &&& after.session_established == before.session_established
            &&& seen ==> r is Err && after == before
            &&& !seen ==> after.last_result_number == Some(number)
            &&& !seen && before.pending.len() > 0 ==> r == Ok::<
                TmuxCommandResultKind,
                &'static str,
            >(TmuxCommandResultKind::Pending(before.pending[0])) && after.pending
                == before.pending.drop_first()
            &&& !seen && before.pending.len() == 0 ==> after.pending.len() == 0 && (r == Ok::<
                TmuxCommandResultKind,
                &'static str,
            >(TmuxCommandResultKind::Bootstrap) <==> !before.session_established
                && !before.bootstrap_result_seen)
            &&& !seen && before.pending.len() == 0 && (before.session_established
                || before.bootstrap_result_seen) ==> r is Err
        }),
{
}

/// A reported cleanup is the one that was sent; it stays. Nothing is reported
/// before, and a waiter that is gone without a word is a failure.
pub proof fn law_a_reported_cleanup_stays(
    completion: &mut TmuxCompletion,
    poll: CompletionPoll,
    r: Option<CleanupResult>,
)
    requires
        call_ensures(TmuxCompletion::observe, (completion, poll), r),
    ensures
        match (*old(completion), poll) {
            (TmuxCompletion::Complete(result), _) => r == Some(result) && *final(completion)
                == *old(completion),
            (TmuxCompletion::Pending, CompletionPoll::Received(result)) => r == Some(result)
                && *final(completion) == TmuxCompletion::Complete(result),
            (TmuxCompletion::Pending, CompletionPoll::Empty) => r is None && *final(completion)
                is Pending,
            (TmuxCompletion::Pending, CompletionPoll::Disconnected) => r matches Some(Err(error))
                && *final(completion) == TmuxCompletion::Complete(Err(error)),
        },
{
}

/// A wait succeeds exactly where a successful cleanup was reported; a client
/// is quiescent only where its writer is closed as well.
pub proof fn law_only_a_reported_success_is_quiescence(
    completion: &mut TmuxCompletion,
    writer_open: bool,
    poll: CompletionPoll,
    r: CleanupResult,
)
    requires
        call_ensures(
            TmuxCompletion::closed_quiescence_result,
            (completion, writer_open, poll),
            r,
        ),
    ensures
        r is Ok <==> !writer_open && ((*old(completion) matches TmuxCompletion::Complete(Ok(_)))
            || (*old(completion) is Pending && (poll matches CompletionPoll::Received(Ok(_))))),
        writer_open ==> *final(completion) == *old(completion),
{
}

/// A bounded wait succeeds exactly where a successful cleanup was reported.
pub proof fn law_a_bounded_wait_succeeds_on_a_report(
    completion: &mut TmuxCompletion,
    poll: CompletionPoll,
    r: CleanupResult,
)
    requires
        call_ensures(TmuxCompletion::wait, (completion, poll), r),
    ensures
        r is Ok <==> (*old(completion) matches TmuxCompletion::Complete(Ok(_))) || (
        *old(completion) is Pending && (poll matches CompletionPoll::Received(Ok(_)))),
        *old(completion) is Pending && poll is Empty ==> *final(completion) is Pending,
{
}

/// A terminal has as many rows and columns as its Run asked for.
pub proof fn law_a_terminal_has_the_size_that_was_asked_for(
    size: TerminalSize,
    dimensions: PtyDimensions,
)
    requires
        call_ensures(to_pty_size, (size,), dimensions),
    ensures
        dimensions.rows == size.rows,
        dimensions.cols == size.cols,
{
}

/// The session is noted once, and nothing else of a tracker changes with it.
pub proof fn law_the_session_is_noted_once(
    tracker: &mut TmuxCommandTracker,
    first: bool,
    looked_at: TmuxCommandTracker,
    known: bool,
    waiting: usize,
    front: Option<TmuxCommandKind>,
    fresh: TmuxCommandTracker,
)
    requires
        call_ensures(TmuxCommandTracker::observe_session, (tracker,), first),
        call_ensures(TmuxCommandTracker::session_established, (&looked_at,), known),
        call_ensures(TmuxCommandTracker::pending_len, (&looked_at,), waiting),
        call_ensures(TmuxCommandTracker::front, (&looked_at,), front),
        call_ensures(TmuxCommandTracker::new, (), fresh),
    ensures
        first <==> !old(tracker)@.session_established,
        final(tracker)@.session_established,
        final(tracker)@.pending == old(tracker)@.pending,
        final(tracker)@.last_result_number == old(tracker)@.last_result_number,
        final(tracker)@.bootstrap_result_seen == old(tracker)@.bootstrap_result_seen,
        known == looked_at@.session_established,
        waiting == looked_at@.pending.len(),
        front is Some <==> looked_at@.pending.len() > 0,
        front matches Some(kind) ==> kind == looked_at@.pending[0],
        !fresh@.session_established && fresh@.pending.len() == 0 && fresh@.last_result_number
            is None && !fresh@.bootstrap_result_seen,
{
}

/// A size goes to the kernel and comes back by its rows and its columns.
pub proof fn law_a_size_goes_to_the_kernel_and_back(
    size: PtyDimensions,
    window: WindowSize,
    back: PtyDimensions,
)
    requires
        call_ensures(winsize_from, (size,), window),
        call_ensures(pty_size_from, (window,), back),
    ensures
        window.ws_row == size.rows && window.ws_col == size.cols,
        window.ws_xpixel == size.pixel_width && window.ws_ypixel == size.pixel_height,
        back == size,
{
}

} // verus!
