use ctxmux::daemon::launch::{
    failed_import_cleanup_timeout, finish_tmux_import, import_tmux, judge_readiness,
    ImportOutcome, ImportStage, ImportStep, Readiness,
};
use ctxmux::daemon::owners::UnpublishedCleanupOwner;
use ctxmux::daemon::pending::{tmux_cleanup_result, PendingTmuxPublication};
use ctxmux::daemon::run::Run;
use ctxmux::daemon::tmux_control::{
    combine_cleanup_failure, complete_tmux_control, resolve_tmux_termination,
    terminate_tmux_control_child, wait_for_tmux_control, wait_outcome, ControlItem, ItemOutcome,
    ReaderReport, StreamEvent, TmuxControlCommand, TmuxObservation, TmuxReaderTermination,
    TmuxTermination, TmuxWaitCause, WaitEvent, WaitPhase, TMUX_DISCOVERY_TIMEOUT,
    TMUX_FAILED_IMPORT_CLEANUP_TIMEOUT, TMUX_IMPORT_DISCOVERY_TIMEOUT,
    TMUX_IMPORT_PREPARE_TIMEOUT, TMUX_IMPORT_TOTAL_TIMEOUT, TMUX_SHUTDOWN_TIMEOUT,
};
use ctxmux::daemon::tmux_tracker::{
    CompletionPoll, TmuxCommandKind, TmuxCommandResultKind, TmuxCommandTracker, TmuxCompletion,
    MAX_PENDING,
};
use ctxmux::identity::RunId;
use ctxmux::protocol::{
    ErrorCode, InterruptionReason, ProtocolError, RunEvent, TmuxPaneInfo, TmuxRunEvent,
};

fn error(code: ErrorCode, message: &str) -> ProtocolError {
    ProtocolError { code, message: message.to_owned() }
}

fn target() -> TmuxPaneInfo {
    TmuxPaneInfo {
        socket_path: "/tmp/ctxmux-test-tmux.sock".to_owned(),
        server_pid: 1,
        server_started_at: 1,
        session_id: "$1".to_owned(),
        window_id: "@1".to_owned(),
        pane_id: "%1".to_owned(),
        pane_pid: 1,
        tmux_version: "3.4".to_owned(),
    }
}

#[test]
fn tmux_import_stages_share_one_shutdown_bounded_budget() {
    assert!(TMUX_IMPORT_DISCOVERY_TIMEOUT < TMUX_IMPORT_PREPARE_TIMEOUT);
    assert_eq!(
        TMUX_IMPORT_PREPARE_TIMEOUT + TMUX_FAILED_IMPORT_CLEANUP_TIMEOUT,
        TMUX_IMPORT_TOTAL_TIMEOUT
    );
    assert!(TMUX_IMPORT_TOTAL_TIMEOUT < TMUX_SHUTDOWN_TIMEOUT);
    assert!(TMUX_DISCOVERY_TIMEOUT < TMUX_SHUTDOWN_TIMEOUT);
}

#[test]
fn tmux_completion_receipt_is_reusable_and_timeout_preserves_pending() {
    let mut observed = TmuxCompletion::Pending;
    assert_eq!(observed.observe(CompletionPoll::Empty), None);
    assert_eq!(observed.observe(CompletionPoll::Received(Ok(()))), Some(Ok(())));
    assert_eq!(observed.observe(CompletionPoll::Empty), Some(Ok(())));
    assert_eq!(observed.wait(CompletionPoll::Empty), Ok(()));

    let mut waited = TmuxCompletion::Pending;
    assert_eq!(waited.wait(CompletionPoll::Received(Ok(()))), Ok(()));
    assert_eq!(waited.wait(CompletionPoll::Empty), Ok(()));
    assert_eq!(waited.observe(CompletionPoll::Empty), Some(Ok(())));

    let mut pending = TmuxCompletion::Pending;
    assert_eq!(
        pending.wait(CompletionPoll::Empty),
        Err("timed out waiting for tmux control cleanup".to_owned())
    );
    assert_eq!(pending.observe(CompletionPoll::Empty), None);

    let explicit_failure = "tmux control failed".to_owned();
    assert_eq!(
        pending.observe(CompletionPoll::Received(Err(explicit_failure.clone()))),
        Some(Err(explicit_failure.clone()))
    );
    assert_eq!(pending.observe(CompletionPoll::Empty), Some(Err(explicit_failure.clone())));
    assert_eq!(pending.wait(CompletionPoll::Empty), Err(explicit_failure));

    let mut disconnected = TmuxCompletion::Pending;
    let expected_disconnect =
        "tmux control waiter ended without a completion receipt".to_owned();
    assert_eq!(
        disconnected.wait(CompletionPoll::Disconnected),
        Err(expected_disconnect.clone())
    );
    assert_eq!(
        disconnected.wait(CompletionPoll::Disconnected),
        Err(expected_disconnect.clone())
    );
    assert_eq!(
        disconnected.observe(CompletionPoll::Disconnected),
        Some(Err(expected_disconnect))
    );
}

#[test]
fn a_closed_control_is_quiescent_once_its_waiter_reported() {
    let mut completion = TmuxCompletion::Pending;
    assert_eq!(
        completion.closed_quiescence_result(true, CompletionPoll::Received(Ok(()))),
        Err("tmux control writer is still open".to_owned())
    );
    assert_eq!(
        completion.closed_quiescence_result(false, CompletionPoll::Empty),
        Err("tmux control cleanup is still pending".to_owned())
    );
    assert_eq!(
        completion.closed_quiescence_result(false, CompletionPoll::Received(Ok(()))),
        Ok(())
    );
}

/// The cleanup result of an unpublished import with this completion and this
/// many owners.
fn current(run: &Run, completion: &mut TmuxCompletion, poll: CompletionPoll, owners: u64)
    -> Result<(), String>
{
    let control = completion.closed_quiescence_result(false, poll);
    tmux_cleanup_result(run, control, owners)
}

#[test]
fn pending_tmux_publication_transfers_overlap_until_cleanup_is_proven() {
    let mut cleanup_owner = UnpublishedCleanupOwner::new();
    cleanup_owner.reserve().expect("reserve one tmux physical-overlap owner");
    let id = RunId { value: 1 };
    let run = Run::new_tmux(id, &target());
    let mut completion = TmuxCompletion::Pending;

    PendingTmuxPublication { run: id }.abandon(&mut cleanup_owner);
    cleanup_owner.note_cleanup(id, &current(&run, &mut completion, CompletionPoll::Empty, 2));
    assert_eq!(cleanup_owner.owned_count(), 1);
    assert_eq!(cleanup_owner.prune_and_report().len(), 1);

    let complete =
        current(&run, &mut completion, CompletionPoll::Received(Ok(())), 2);
    assert_eq!(
        complete,
        Err("tmux cleanup completion is recorded but 2 Run owners remain".to_owned())
    );
    cleanup_owner.note_cleanup(id, &complete);
    assert_eq!(cleanup_owner.prune_and_report().len(), 1);
    assert_eq!(cleanup_owner.owned_count(), 1);
    cleanup_owner.note_cleanup(id, &current(&run, &mut completion, CompletionPoll::Empty, 1));
    assert_eq!(cleanup_owner.prune_and_report().len(), 0);
    assert_eq!(cleanup_owner.owned_count(), 0);

    cleanup_owner.reserve().expect("reserve fail-stop tmux overlap owner");
    let lost = RunId { value: 2 };
    let lost_run = Run::new_tmux(lost, &target());
    let mut lost_completion = TmuxCompletion::Pending;
    PendingTmuxPublication { run: lost }.abandon(&mut cleanup_owner);
    cleanup_owner.note_cleanup(
        lost,
        &current(&lost_run, &mut lost_completion, CompletionPoll::Disconnected, 1),
    );
    let failures = cleanup_owner.prune_and_report();
    assert_eq!(failures.len(), 1);
    assert!(failures[0].contains("without a completion receipt"));
    assert!(failures[0].contains("tmux import owner unwound before publication"));

    for _ in 1..8 {
        cleanup_owner
            .reserve()
            .expect("a fail-stop owner leaves only the remaining bounded slots");
    }
    assert_eq!(
        cleanup_owner.reserve().expect_err("ninth shared overlap owner is rejected").code,
        ErrorCode::BackendUnavailable
    );
    for _ in 1..8 {
        cleanup_owner.release();
    }
    assert_eq!(cleanup_owner.owned_count(), 1);
}

#[test]
fn failed_tmux_readiness_keeps_overlap_until_worker_run_owner_settles() {
    let mut cleanup_owner = UnpublishedCleanupOwner::new();
    cleanup_owner.reserve().expect("reserve one tmux physical-overlap owner");
    let id = RunId { value: 3 };
    let run = Run::new_tmux(id, &target());
    let mut completion = TmuxCompletion::Pending;

    let readiness = judge_readiness(Readiness::Refused(error(
        ErrorCode::BackendUnavailable,
        "injected tmux readiness failure",
    )))
    .expect_err("readiness failure must reject tmux publication");
    let cleanup = completion.wait(CompletionPoll::Received(Ok(())));
    let failed = finish_tmux_import(readiness, cleanup);
    assert_eq!(failed.error.code, ErrorCode::BackendUnavailable);
    assert_eq!(failed.error.message, "injected tmux readiness failure");
    PendingTmuxPublication { run: id }.transfer(&mut cleanup_owner, failed.transfer_reason);

    cleanup_owner.note_cleanup(id, &current(&run, &mut completion, CompletionPoll::Empty, 2));
    assert_eq!(cleanup_owner.prune_and_report().len(), 1);
    assert_eq!(cleanup_owner.owned_count(), 1);

    cleanup_owner.note_cleanup(id, &current(&run, &mut completion, CompletionPoll::Empty, 1));
    assert_eq!(cleanup_owner.prune_and_report().len(), 0);
    assert_eq!(cleanup_owner.owned_count(), 0);
}

#[test]
fn an_import_is_ready_only_before_its_deadline() {
    assert_eq!(judge_readiness(Readiness::Ready { in_time: true }), Ok(()));
    assert_eq!(
        judge_readiness(Readiness::Ready { in_time: false }),
        Err(error(
            ErrorCode::BackendUnavailable,
            "tmux Control Mode readiness exceeded the import preparation deadline",
        ))
    );
    assert_eq!(
        judge_readiness(Readiness::Lost("channel closed".to_owned())),
        Err(error(
            ErrorCode::BackendUnavailable,
            "failed to wait for tmux Control Mode readiness: channel closed",
        ))
    );
    assert_eq!(failed_import_cleanup_timeout(5000), 2000);
    assert_eq!(failed_import_cleanup_timeout(150), 150);
    let failed = finish_tmux_import(
        error(ErrorCode::TargetChanged, "gone"),
        Err("still running".to_owned()),
    );
    assert_eq!(
        failed.error,
        error(ErrorCode::TargetChanged, "gone; cleanup failed: still running")
    );
    assert_eq!(failed.transfer_reason, "tmux import cleanup failed: still running");
}

#[test]
fn an_import_that_fails_after_its_client_started_is_abandoned() {
    assert_eq!(
        import_tmux(ImportStage::SpawnControl, ImportOutcome::Done),
        ImportStep::Perform(ImportStage::StartReader)
    );
    assert_eq!(
        import_tmux(
            ImportStage::SpawnControl,
            ImportOutcome::Refused(error(ErrorCode::BackendUnavailable, "no server")),
        ),
        ImportStep::Failed {
            error: error(ErrorCode::BackendUnavailable, "no server"),
            reap: false,
            abandon: false,
        }
    );
    assert_eq!(
        import_tmux(ImportStage::StartWaiter, ImportOutcome::Failed("no thread".to_owned())),
        ImportStep::Failed {
            error: error(
                ErrorCode::BackendUnavailable,
                "failed to start tmux control waiter: no thread",
            ),
            reap: false,
            abandon: true,
        }
    );
    assert_eq!(
        import_tmux(ImportStage::HandOffChild, ImportOutcome::ChildReturned),
        ImportStep::Failed {
            error: error(
                ErrorCode::BackendUnavailable,
                "failed to handoff tmux control child: waiter stopped before taking ownership",
            ),
            reap: true,
            abandon: true,
        }
    );
}

#[test]
fn tmux_control_writer_close_is_owner_bound_idempotent_and_fail_closed() {
    let mut observation = TmuxObservation::new(target());
    let mut run = Run::new_tmux(RunId { value: 4 }, &target());
    let step = run.observe_tmux(
        &mut observation,
        StreamEvent::Item {
            item: ControlItem::SessionChanged { session_id: "$1".to_owned() },
            identity: Ok(true),
        },
        "display-message\n".to_owned(),
    );
    let write = match step.outcome {
        ItemOutcome::Write(write) => write,
        other => panic!("expected a probe, got {other:?}"),
    };
    assert_eq!(write.command, "display-message\n");
    assert!(observation.finish_write(write, Ok(())).is_ok());

    assert!(observation.close_writer());
    assert!(!observation.close_writer());

    match observation.periodic_probe("display-message\n".to_owned()) {
        ItemOutcome::Failed(failure) => {
            assert!(failure.error.message.contains("tmux control client is closed"))
        }
        other => panic!("closed Control writer must reject writes, got {other:?}"),
    }
    let step = run.observe_tmux(
        &mut observation,
        StreamEvent::Item {
            item: ControlItem::CommandResult { number: 0, success: true, output: Vec::new() },
            identity: Ok(true),
        },
        String::new(),
    );
    match step.outcome {
        ItemOutcome::Failed(failure) => {
            assert!(failure.error.message.contains("tmux control client is closed"))
        }
        other => panic!("closed Control writer correlates nothing, got {other:?}"),
    }
}

#[test]
fn tmux_command_tracker_bounds_and_deduplicates_serial_commands() {
    let mut tracker = TmuxCommandTracker::new();
    assert_eq!(
        tracker.prepare_enqueue(TmuxCommandKind::Continue).unwrap_err(),
        "tmux adapter command arrived before session establishment"
    );
    assert!(tracker.observe_session());
    assert!(!tracker.observe_session());

    assert!(tracker.prepare_enqueue(TmuxCommandKind::TargetProbe).unwrap());
    tracker.commit_enqueue(TmuxCommandKind::TargetProbe);
    assert!(!tracker.prepare_enqueue(TmuxCommandKind::TargetProbe).unwrap());

    for _ in 0..64 {
        if tracker.prepare_enqueue(TmuxCommandKind::Continue).unwrap() {
            tracker.commit_enqueue(TmuxCommandKind::Continue);
        }
    }
    assert_eq!(tracker.pending_len(), MAX_PENDING);
    assert_eq!(
        tracker.correlate_result(10).unwrap(),
        TmuxCommandResultKind::Pending(TmuxCommandKind::TargetProbe)
    );
    assert_eq!(
        tracker.correlate_result(42).unwrap(),
        TmuxCommandResultKind::Pending(TmuxCommandKind::Continue)
    );
    assert_eq!(tracker.pending_len(), 0);
}

#[test]
fn tmux_command_tracker_allows_one_pre_session_bootstrap_and_monotonic_gaps() {
    let mut tracker = TmuxCommandTracker::new();
    assert_eq!(tracker.correlate_result(0).unwrap(), TmuxCommandResultKind::Bootstrap);
    assert_eq!(
        tracker.correlate_result(7).unwrap_err(),
        "tmux returned a command result without a pending adapter command"
    );

    let mut nonzero = TmuxCommandTracker::new();
    assert_eq!(nonzero.correlate_result(41).unwrap(), TmuxCommandResultKind::Bootstrap);
    assert!(nonzero.observe_session());
    assert!(nonzero.prepare_enqueue(TmuxCommandKind::TargetProbe).unwrap());
    nonzero.commit_enqueue(TmuxCommandKind::TargetProbe);
    assert_eq!(
        nonzero.correlate_result(47).unwrap(),
        TmuxCommandResultKind::Pending(TmuxCommandKind::TargetProbe)
    );
}

#[test]
fn tmux_command_tracker_rejects_duplicate_and_backward_numbers_before_pop() {
    for invalid in [7, 6] {
        let mut tracker = TmuxCommandTracker::new();
        assert_eq!(tracker.correlate_result(7).unwrap(), TmuxCommandResultKind::Bootstrap);
        assert!(tracker.observe_session());
        assert!(tracker.prepare_enqueue(TmuxCommandKind::TargetProbe).unwrap());
        tracker.commit_enqueue(TmuxCommandKind::TargetProbe);
        assert_eq!(
            tracker.correlate_result(invalid).unwrap_err(),
            "tmux command result number did not advance"
        );
        assert_eq!(tracker.front(), Some(TmuxCommandKind::TargetProbe));
    }

    let mut ready = TmuxCommandTracker::new();
    assert!(ready.observe_session());
    assert_eq!(
        ready.correlate_result(0).unwrap_err(),
        "tmux returned a command result without a pending adapter command"
    );
}

#[test]
fn tmux_child_exit_resolution_preserves_the_reader_protocol_receipt() {
    let observed = || TmuxTermination {
        error: error(
            ErrorCode::BackendUnavailable,
            "Control Mode stream ended inside a command block",
        ),
        reason: InterruptionReason::TmuxProtocolError,
    };
    for cause in [TmuxWaitCause::ReaderTerminated, TmuxWaitCause::ChildExited] {
        assert_eq!(
            resolve_tmux_termination(
                cause,
                Some(TmuxReaderTermination { failure: observed() }),
                42,
            ),
            observed(),
        );
    }
}

#[test]
fn tmux_owner_causes_are_not_overwritten_by_cleanup_eof() {
    let cleanup_eof = || TmuxReaderTermination {
        failure: TmuxTermination {
            error: error(ErrorCode::BackendUnavailable, "tmux Control Mode stream closed"),
            reason: InterruptionReason::TmuxServerUnavailable,
        },
    };
    let cases = [
        (
            TmuxWaitCause::Interrupted(InterruptionReason::TmuxTargetChanged),
            InterruptionReason::TmuxTargetChanged,
            ErrorCode::TargetChanged,
            "interrupted",
        ),
        (
            TmuxWaitCause::Shutdown,
            InterruptionReason::TmuxServerUnavailable,
            ErrorCode::BackendUnavailable,
            "shutdown",
        ),
        (
            TmuxWaitCause::CommandChannelClosed,
            InterruptionReason::TmuxServerUnavailable,
            ErrorCode::BackendUnavailable,
            "command channel closed",
        ),
        (
            TmuxWaitCause::SocketTargetChanged,
            InterruptionReason::TmuxTargetChanged,
            ErrorCode::TargetChanged,
            "socket identity changed",
        ),
        (
            TmuxWaitCause::ProbeWriteFailed("broken pipe".to_owned()),
            InterruptionReason::TmuxServerUnavailable,
            ErrorCode::BackendUnavailable,
            "broken pipe",
        ),
        (
            TmuxWaitCause::ChildStatusFailed("fixture status failure".to_owned()),
            InterruptionReason::TmuxServerUnavailable,
            ErrorCode::BackendUnavailable,
            "fixture status failure",
        ),
    ];

    for (cause, expected_reason, expected_code, expected_detail) in cases {
        let resolved = resolve_tmux_termination(cause, Some(cleanup_eof()), 42);
        assert_eq!(resolved.reason, expected_reason);
        assert_eq!(resolved.error.code, expected_code);
        assert!(
            resolved.error.message.contains(expected_detail),
            "owner detail was lost: {}",
            resolved.error.message,
        );
    }
}

#[test]
fn the_waiter_ends_its_client_unless_the_client_ended_itself() {
    assert_eq!(
        wait_for_tmux_control(WaitEvent::Command(TmuxControlCommand::Shutdown)),
        WaitPhase::Finish { cause: TmuxWaitCause::Shutdown, terminate: true }
    );
    assert_eq!(
        wait_for_tmux_control(WaitEvent::NoCommand { poll_due: true }),
        WaitPhase::CheckSocket
    );
    assert_eq!(wait_for_tmux_control(WaitEvent::SocketMatches(true)), WaitPhase::WriteProbe);
    assert_eq!(
        wait_for_tmux_control(WaitEvent::SocketMatches(false)),
        WaitPhase::Finish { cause: TmuxWaitCause::SocketTargetChanged, terminate: true }
    );
    assert_eq!(
        wait_for_tmux_control(WaitEvent::Child(Ok(true))),
        WaitPhase::Finish { cause: TmuxWaitCause::ChildExited, terminate: false }
    );
    assert_eq!(wait_for_tmux_control(WaitEvent::Child(Ok(false))), WaitPhase::AwaitCommand);
}

#[test]
fn cleanup_failures_are_combined_in_order() {
    assert_eq!(terminate_tmux_control_child(Ok(true), None, None), Ok(()));
    assert_eq!(terminate_tmux_control_child(Ok(false), Some("gone".to_owned()), None), Ok(()));
    let failure = terminate_tmux_control_child(
        Err("no status".to_owned()),
        Some("no kill".to_owned()),
        Some("no wait".to_owned()),
    );
    assert_eq!(
        failure,
        Err(
            "failed to query tmux Control Mode client before termination: no status; \
             failed to terminate tmux Control Mode client: no kill; \
             failed to reap tmux Control Mode client: no wait"
                .to_owned()
        )
    );
    assert_eq!(combine_cleanup_failure(Ok(()), "late"), Err("late".to_owned()));
    assert_eq!(
        combine_cleanup_failure(Err("early".to_owned()), "late"),
        Err("early; late".to_owned())
    );
    let completed = complete_tmux_control(
        wait_outcome(TmuxWaitCause::Shutdown, Ok(())),
        ReaderReport::TimedOut,
        42,
    );
    assert_eq!(
        completed.cleanup,
        Err("tmux output reader did not finish during shutdown".to_owned())
    );
    assert_eq!(completed.termination.reason, InterruptionReason::TmuxServerUnavailable);
}

fn item(item: ControlItem) -> StreamEvent {
    StreamEvent::Item { item, identity: Ok(true) }
}

#[test]
fn an_observed_pane_becomes_ready_and_publishes_its_output() {
    let mut observation = TmuxObservation::new(target());
    let mut run = Run::new_tmux(RunId { value: 5 }, &target());
    let probe = || "probe\n".to_owned();

    let step = run.observe_tmux(
        &mut observation,
        item(ControlItem::CommandResult { number: 1, success: true, output: Vec::new() }),
        probe(),
    );
    assert_eq!(step.outcome, ItemOutcome::Done);
    let step = run.observe_tmux(
        &mut observation,
        item(ControlItem::SessionChanged { session_id: "$1".to_owned() }),
        probe(),
    );
    let ItemOutcome::Write(write) = step.outcome else {
        panic!("the session is probed at once");
    };
    assert_eq!(write.kind, TmuxCommandKind::TargetProbe);
    assert!(observation.finish_write(write, Ok(())).is_ok());
    let step = run.observe_tmux(
        &mut observation,
        item(ControlItem::CommandResult {
            number: 2,
            success: true,
            output: vec![b"identity".to_vec()],
        }),
        probe(),
    );
    assert_eq!(step.outcome, ItemOutcome::Ready);

    let step = run.observe_tmux(
        &mut observation,
        item(ControlItem::Output { pane_id: "%1".to_owned(), data: b"hi".to_vec() }),
        probe(),
    );
    assert_eq!(step.outcome, ItemOutcome::Done);
    assert!(matches!(
        &step.events[..],
        [RunEvent::Output { chunk }] if chunk.data == b"hi" && chunk.end_byte == 2
    ));
    let step = run.observe_tmux(
        &mut observation,
        item(ControlItem::Output { pane_id: "%2".to_owned(), data: b"other".to_vec() }),
        probe(),
    );
    assert!(step.events.is_empty());

    let step = run.observe_tmux(
        &mut observation,
        item(ControlItem::Paused { pane_id: "%1".to_owned() }),
        probe(),
    );
    assert_eq!(
        step.events,
        vec![
            RunEvent::Tmux { event: TmuxRunEvent::Paused },
            RunEvent::Gap { latest_output_bytes: 2 },
        ]
    );
    let ItemOutcome::Write(write) = step.outcome else {
        panic!("a paused pane is continued");
    };
    assert_eq!(write.command, "refresh-client -A %1:continue\n");
}

#[test]
fn a_changed_target_ends_the_observation() {
    let mut observation = TmuxObservation::new(target());
    let mut run = Run::new_tmux(RunId { value: 6 }, &target());
    let step = run.observe_tmux(
        &mut observation,
        item(ControlItem::SessionChanged { session_id: "$9".to_owned() }),
        String::new(),
    );
    let ItemOutcome::Failed(failure) = step.outcome else {
        panic!("another session is another target");
    };
    assert_eq!(failure.error.code, ErrorCode::TargetChanged);
    assert_eq!(failure.reason, InterruptionReason::TmuxTargetChanged);

    let step = run.observe_tmux(
        &mut observation,
        item(ControlItem::WindowClosed { window_id: "@1".to_owned() }),
        String::new(),
    );
    let ItemOutcome::Failed(failure) = step.outcome else {
        panic!("the window of the pane is gone");
    };
    assert_eq!(failure.error.message, "tmux target window @1 closed");

    let step =
        run.observe_tmux(&mut observation, StreamEvent::Eof(Ok(())), String::new());
    let ItemOutcome::Failed(failure) = step.outcome else {
        panic!("the stream ended");
    };
    assert_eq!(failure.error.message, "tmux Control Mode stream closed");
    assert_eq!(failure.reason, InterruptionReason::TmuxServerUnavailable);
}
