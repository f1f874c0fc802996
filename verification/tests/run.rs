use ctxmux::client::replay::replay_bytes;
use ctxmux::daemon::attachment::{
    observe_command_id, AttachmentServer, FrameAction, LiveEvent,
};
use ctxmux::daemon::owners::{TerminalOrdinal, TerminalPublicationOwner};
use ctxmux::daemon::run::{
    DurableWork, OwnerCursors, PersistenceMode, RecoveredRun, Run,
};
use ctxmux::identity::RunId;
use ctxmux::protocol::{
    native_capabilities, AttachmentCommandId, ClientFrame, CommandDisposition, ErrorCode,
    InterruptionReason, OutputChunk, OutputReplay, RunBackend, RunEvent, RunInfo, RunSpec,
    RunState, ServerFrame, TerminalSize, TmuxPaneInfo,
};

fn long_running_spec() -> RunSpec {
    RunSpec {
        program: "/bin/cat".to_owned(),
        args: Vec::new(),
        cwd: None,
        env: Vec::new(),
        size: TerminalSize { cols: 80, rows: 24 },
        declared_inputs: Vec::new(),
    }
}

fn native(mode: PersistenceMode) -> Run {
    Run::new_native(RunId { value: 0x2a }, long_running_spec(), None, Some(42), mode)
}

fn cursors() -> OwnerCursors {
    OwnerCursors { applied_input_bytes: 3, durable_output_bytes: 5 }
}

fn exited(code: u32) -> RunState {
    RunState::Exited { code, signal: None }
}

fn pane() -> TmuxPaneInfo {
    TmuxPaneInfo {
        socket_path: "/tmp/s".to_owned(),
        server_pid: 1,
        server_started_at: 2,
        session_id: "$1".to_owned(),
        window_id: "@1".to_owned(),
        pane_id: "%1".to_owned(),
        pane_pid: 99,
        tmux_version: "3.4".to_owned(),
    }
}

#[test]
fn live_event_ring_exists_only_while_an_attachment_owns_it() {
    let mut run = native(PersistenceMode::MemoryOnly);
    let gap = || RunEvent::Gap { latest_output_bytes: 7 };
    assert_eq!(run.publish_event(gap()), None, "nobody reads live events yet");

    assert!(run.subscribe(), "the first reader opens the ring");
    assert!(!run.subscribe());
    assert_eq!(run.info(cursors()).attachments, 2);
    assert_eq!(run.publish_event(gap()), Some(gap()));

    assert!(!run.release(), "the ring stays for the other reader");
    assert_eq!(run.publish_event(gap()), Some(gap()));
    assert!(run.release(), "the last reader takes the ring with it");
    assert_eq!(run.info(cursors()).attachments, 0);
    assert_eq!(run.publish_event(gap()), None);
}

#[test]
fn command_ids_start_at_one_advance_and_fail_closed() {
    let id = |value| AttachmentCommandId::new(value).expect("positive command id");
    let mut last = None;

    let first_error = observe_command_id(&mut last, id(2))
        .expect_err("first attachment command must use id one");
    assert_eq!(first_error.code, ErrorCode::InvalidRequest);
    assert!(last.is_none(), "rejected id does not advance the fence");

    observe_command_id(&mut last, id(1)).expect("accept first id");
    observe_command_id(&mut last, id(7)).expect("gaps are valid");
    for invalid in [7, 6] {
        let error = observe_command_id(&mut last, id(invalid))
            .expect_err("duplicate and backward ids fail closed");
        assert_eq!(error.code, ErrorCode::InvalidRequest);
        assert_eq!(last, Some(id(7)));
    }
    observe_command_id(&mut last, id(u32::MAX)).expect("accept maximum id");
    assert_eq!(last, Some(id(u32::MAX)));
}

#[test]
fn a_native_run_describes_itself() {
    let mut run = native(PersistenceMode::MemoryOnly);
    run.record_output(b"abc".to_vec());
    let info = run.info(cursors());
    assert_eq!(info.id, RunId { value: 0x2a });
    assert_eq!(info.spec, Some(long_running_spec()));
    assert_eq!(info.backend, RunBackend::Native);
    assert_eq!(info.capabilities, native_capabilities());
    assert_eq!(info.pid, Some(42));
    assert_eq!(info.state, RunState::Running);
    assert_eq!(info.latest_output_bytes, 3);
    assert_eq!(info.durable_output_bytes, None);
    assert_eq!(info.applied_input_bytes, Some(3));

    let observed = Run::new_tmux(RunId { value: 1 }, &pane()).info(cursors());
    assert_eq!(observed.pid, Some(99));
    assert_eq!(observed.applied_input_bytes, None);
    assert!(!observed.capabilities.input && !observed.capabilities.fork_level_a);
    assert!(matches!(observed.backend, RunBackend::Tmux { server_started_at: 2, .. }));
}

#[test]
fn subscribe_snapshot_join_delivers_interleaved_output_exactly_once() {
    let mut run = native(PersistenceMode::MemoryOnly);
    run.subscribe();
    let between = run.record_output(b"between".to_vec());
    let snapshot = run.attachment_snapshot(0, cursors());
    assert_eq!(replay_bytes(&snapshot.replay.chunks), b"between");
    assert_eq!(snapshot.replay.latest_output_bytes, b"between".len() as u64);

    let (mut server, greeting) = AttachmentServer::handle(Ok(snapshot));
    assert!(!greeting.done);
    assert_eq!(greeting.frames.len(), 2, "the header and one chunk");
    // The live ring still holds the output that the snapshot brought.
    let again = server.live_event(LiveEvent::Event(between.event.unwrap()));
    assert!(again.frames.is_empty());

    let after = run.record_output(b"after".to_vec());
    let step = server.live_event(LiveEvent::Event(after.event.unwrap()));
    match &step.frames[..] {
        [ServerFrame::Event { event: RunEvent::Output { chunk } }] => {
            assert_eq!(
                (chunk.start_byte, chunk.end_byte),
                (b"between".len() as u64, b"betweenafter".len() as u64)
            );
            assert_eq!(chunk.data, b"after");
        }
        other => panic!("expected post-snapshot output, got {other:?}"),
    }
}

#[test]
fn detach_output_race_keeps_new_bytes_replayable_and_releases_the_guard() {
    let mut run = native(PersistenceMode::MemoryOnly);
    run.subscribe();
    let caller_cursor = run.attachment_snapshot(0, cursors()).replay.latest_output_bytes;
    let (mut server, _) = AttachmentServer::handle(Ok(run.attachment_snapshot(0, cursors())));
    let FrameAction::Send(step) = server.handle_frame(Some(ClientFrame::Detach)) else {
        panic!("a detach is answered");
    };
    assert_eq!(step.frames, vec![ServerFrame::Detached]);
    assert!(step.done);
    run.record_output(b"detach-race".to_vec());
    assert!(run.release());
    assert_eq!(run.info(cursors()).attachments, 0);

    let replay = run.attachment_snapshot(caller_cursor, cursors()).replay;
    assert!(!replay.truncated);
    assert_eq!(replay_bytes(&replay.chunks), b"detach-race");
}

#[test]
fn final_output_recorded_after_wait_precedes_exit_and_remains_replayable() {
    let mut publications = TerminalPublicationOwner::new();
    let mut run = native(PersistenceMode::MemoryOnly);
    run.subscribe();
    let output = run.record_output(b"FINAL-AFTER-WAIT".to_vec());
    let end = run.publish_terminal(exited(0), &mut publications);
    assert!(matches!(output.event, Some(RunEvent::Output { chunk }) if chunk.data == b"FINAL-AFTER-WAIT"));
    assert_eq!(end.event, Some(RunEvent::Exited { state: exited(0) }));
    assert_eq!(end.durable, None);

    let late = run.attachment_snapshot(0, cursors());
    assert_eq!(replay_bytes(&late.replay.chunks), b"FINAL-AFTER-WAIT");
    assert_eq!(late.run.state, exited(0));
    let (_, step) = AttachmentServer::handle(Ok(late));
    assert!(step.done, "an ended Run has no live events");
}

#[test]
fn an_end_before_publication_is_held_until_the_record_is_active() {
    let mut publications = TerminalPublicationOwner::new();
    let mut run = native(PersistenceMode::PersistentCapable);
    run.record_output(b"early".to_vec());
    let held = run.publish_terminal(exited(7), &mut publications);
    assert_eq!((held.durable, held.event), (None, None));
    assert_eq!(run.info(cursors()).state, RunState::Running);

    run.install_committed_persistence();
    assert_eq!(run.info(cursors()).state, RunState::Running);
    assert_eq!(run.info(cursors()).durable_output_bytes, Some(5));

    let effects = run.activate_persistence_after_publication(&mut publications);
    assert_eq!(run.info(cursors()).state, exited(7));
    match effects.durable {
        Some(DurableWork::Finalize { pid, replay, state }) => {
            assert_eq!(pid, 42);
            assert_eq!(replay_bytes(&replay.chunks), b"early");
            assert_eq!(state, exited(7));
        }
        other => panic!("the record is finalized at once, got {other:?}"),
    }
    assert_eq!(run.collection_ordinal(true), Some(TerminalOrdinal { number: 1 }));
    assert_eq!(run.collection_ordinal(false), None);
}

#[test]
fn an_active_record_follows_every_output_and_the_end() {
    let mut publications = TerminalPublicationOwner::new();
    let mut run = native(PersistenceMode::PersistentCapable);
    assert_eq!(run.record_output(b"a".to_vec()).durable, None, "the record is not active yet");
    run.install_committed_persistence();
    let effects = run.activate_persistence_after_publication(&mut publications);
    assert!(matches!(
        effects.durable,
        Some(DurableWork::Append { replay }) if replay_bytes(&replay.chunks) == b"a"
    ));
    let effects = run.record_output(b"bc".to_vec());
    assert!(matches!(
        effects.durable,
        Some(DurableWork::Append { replay }) if replay_bytes(&replay.chunks) == b"bc"
    ));
    assert_eq!(run.record_output(Vec::new()).durable, None, "empty output changes nothing");
    let end = run.publish_terminal(exited(0), &mut publications);
    assert!(matches!(
        end.durable,
        Some(DurableWork::Finalize { replay, .. }) if replay_bytes(&replay.chunks) == b"abc"
    ));
}

#[test]
fn an_interrupted_observation_ends_its_run() {
    let mut publications = TerminalPublicationOwner::new();
    let mut run = Run::new_tmux(RunId { value: 1 }, &pane());
    run.subscribe();
    assert_eq!(run.mark_output_source_gap(), 0);
    let event =
        run.publish_interrupted(InterruptionReason::TmuxTargetChanged, &mut publications);
    assert_eq!(
        event,
        Some(RunEvent::Interrupted { reason: InterruptionReason::TmuxTargetChanged })
    );
    assert_eq!(
        run.info(cursors()).state,
        RunState::Interrupted { reason: InterruptionReason::TmuxTargetChanged }
    );
}

#[test]
fn runs_without_native_control_refuse_control() {
    let observed = Run::new_tmux(RunId { value: 1 }, &pane());
    let failure = observed.begin_control().expect_err("read-only");
    assert_eq!(failure.disposition, CommandDisposition::NotApplied);
    assert_eq!(failure.error.code, ErrorCode::UnsupportedCapability);
    assert_eq!(
        failure.error.message,
        "Run 00000000-0000-0000-0000-000000000001 backend does not support native control"
    );
    let mut publications = TerminalPublicationOwner::new();
    let historical = Run::recover(recovered(exited(0)), &mut publications);
    let failure = historical.begin_control().expect_err("historical");
    assert_eq!(failure.error.code, ErrorCode::InvalidRunState);
    assert_eq!(
        failure.error.message,
        "cannot control historical Run 00000000-0000-0000-0000-000000000005"
    );
    assert_eq!(native(PersistenceMode::MemoryOnly).begin_control(), Ok(()));
    assert!(native(PersistenceMode::MemoryOnly).has_continuation_authority(true));
    assert!(!historical.has_continuation_authority(true));
}

#[test]
fn a_resize_needs_positive_dimensions() {
    let run = native(PersistenceMode::MemoryOnly);
    let failure = run
        .begin_resize(TerminalSize { cols: 0, rows: 24 })
        .expect_err("zero-width resize must fail");
    assert_eq!(failure.error.code, ErrorCode::InvalidRequest);
    assert_eq!(
        failure.error.message,
        "terminal rows and columns must be greater than zero"
    );
    assert_eq!(run.begin_resize(TerminalSize { cols: 90, rows: 30 }), Ok(()));
}

fn recovered(state: RunState) -> RecoveredRun {
    RecoveredRun {
        info: RunInfo {
            id: RunId { value: 5 },
            spec: Some(long_running_spec()),
            lineage: None,
            backend: RunBackend::Native,
            capabilities: native_capabilities(),
            pid: Some(7),
            state,
            latest_output_bytes: 3,
            durable_output_bytes: Some(3),
            first_available_byte: 0,
            attachments: 0,
            applied_input_bytes: None,
        },
        replay: OutputReplay {
            chunks: vec![OutputChunk { start_byte: 0, end_byte: 3, data: b"old".to_vec() }],
            first_available_byte: 0,
            latest_output_bytes: 3,
            truncated: false,
        },
    }
}

#[test]
fn readopt_rebinds_live_control_and_continues_the_durable_cursor() {
    let mut run = Run::readopt(recovered(RunState::Running), 4321);
    assert_eq!(run.info(cursors()).pid, Some(4321));
    assert_eq!(run.begin_control(), Ok(()));
    let effects = run.record_output(b"new".to_vec());
    match effects.durable {
        Some(DurableWork::Append { replay }) => {
            assert_eq!(
                (replay.chunks[0].start_byte, replay.chunks[0].end_byte),
                (3, 6)
            );
        }
        other => panic!("the record continues at its cursor, got {other:?}"),
    }
    let mut publications = TerminalPublicationOwner::new();
    run.publish_terminal(exited(0), &mut publications);
    assert_eq!(run.collection_ordinal(true), Some(TerminalOrdinal { number: 1 }));
}

#[test]
fn unpublished_runs_report_what_is_left_of_them() {
    let run = native(PersistenceMode::MemoryOnly);
    assert_eq!(run.unpublished_cleanup_result(Ok(()), 1), Ok(()));
    assert_eq!(
        run.unpublished_cleanup_result(Ok(()), 3),
        Err(
            "unpublished Run 00000000-0000-0000-0000-00000000002a retains 3 reader, waiter, or external owners"
                .to_owned()
        )
    );
    assert_eq!(
        run.unpublished_cleanup_result(Err("not reaped".to_owned()), 1),
        Err("not reaped".to_owned())
    );
    assert_eq!(
        run.tmux_unpublished_cleanup_result(Ok(())),
        Err("unpublished tmux cleanup references a native Run".to_owned())
    );
    assert_eq!(run.detach_collection_descriptors(Ok(())), Ok(true));
    let mut publications = TerminalPublicationOwner::new();
    let historical = Run::recover(recovered(exited(0)), &mut publications);
    assert_eq!(historical.detach_collection_descriptors(Ok(())), Ok(false));
    assert_eq!(
        historical.tmux_unpublished_cleanup_result(Ok(())),
        Err("unpublished tmux cleanup has no incarnation owner".to_owned())
    );
}

#[test]
fn a_lagging_reader_gets_a_gap_and_no_output_twice() {
    let mut run = native(PersistenceMode::MemoryOnly);
    run.subscribe();
    let (mut server, _) = AttachmentServer::handle(Ok(run.attachment_snapshot(0, cursors())));
    let first = run.record_output(b"lost".to_vec());
    let step = server.live_event(LiveEvent::Lagged { latest_output_bytes: 4 });
    assert_eq!(
        step.frames,
        vec![ServerFrame::Event { event: RunEvent::Gap { latest_output_bytes: 4 } }]
    );
    let step = server.live_event(LiveEvent::Event(first.event.unwrap()));
    assert!(step.frames.is_empty());
    assert_eq!(replay_bytes(&run.attachment_snapshot(0, cursors()).replay.chunks), b"lost");
}
