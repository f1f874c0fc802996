use ctxmux::base64::{decode_base64, encode_base64};
use ctxmux::client::attachment::Attachment;
use ctxmux::client::attachment::ReaderEvent;
use ctxmux::client::commands::{PendingResolution, ValidatedReceipt};
use ctxmux::client::connector::{request, Client};
use ctxmux::client::error::{AttachmentUnavailableReason, AttachmentUnknownReason, ClientError};
use ctxmux::client::inbox::NextEvent;
use ctxmux::client::receipt::InputReceipt;
use ctxmux::client::replay::{receive_replay, replay_bytes, replay_complete};
use ctxmux::daemon::attachment::{
    outcome, AttachmentServer, ControlCommand, ControlStart, FrameAction, LiveEvent,
};
use ctxmux::daemon::owners::TerminalOrdinal;
use ctxmux::daemon::registry::{RunFacts, RunRegistry};
use ctxmux::daemon::run::{OwnerCursors, PersistenceMode, Run};
use ctxmux::identity::RunId;
use ctxmux::protocol::{
    AttachmentCommandId, ClientFrame, CommandDisposition, ControlOutcome, ControlReceipt,
    ErrorCode, OperationKey, Response, RunEvent, RunSpec, RunState, ServerFrame, StopDisposition,
    TerminalSize, TmuxPaneInfo,
};

fn id(number: u32) -> AttachmentCommandId {
    AttachmentCommandId::new(number).unwrap()
}

fn running() -> Run {
    let spec = RunSpec {
        program: "/bin/cat".to_owned(),
        args: Vec::new(),
        cwd: None,
        env: Vec::new(),
        size: TerminalSize { cols: 80, rows: 24 },
        declared_inputs: Vec::new(),
    };
    Run::new_native(RunId { value: 1 }, spec, None, Some(4), PersistenceMode::MemoryOnly)
}

fn cursors() -> OwnerCursors {
    OwnerCursors { applied_input_bytes: 0, durable_output_bytes: 0 }
}

fn exited() -> RunEvent {
    RunEvent::Exited { state: RunState::Exited { code: 0, signal: None } }
}

#[test]
fn a_client_reads_back_everything_that_the_daemon_replays() {
    let mut run = running();
    run.record_output(b"one ".to_vec());
    run.record_output(b"two ".to_vec());
    run.record_output(b"three".to_vec());
    for after_byte in [0_u64, 2, 4, 12, 13] {
        let (_, step) =
            AttachmentServer::handle(Ok(run.attachment_snapshot(after_byte, cursors())));
        let mut frames = step.frames.into_iter();
        let client = Client::new("unused.sock");
        let mut snapshot =
            client.attach(Ok(frames.next().expect("a header"))).expect("attached");
        while !replay_complete(&snapshot.replay, after_byte) {
            receive_replay(&mut snapshot, after_byte, Ok(frames.next())).expect("ordered output");
        }
        assert_eq!(frames.next(), None);
        assert_eq!(
            replay_bytes(&snapshot.replay.chunks),
            b"one two three"[after_byte as usize..].to_vec()
        );
    }
}

#[test]
fn live_output_goes_on_where_the_replay_ended() {
    let mut run = running();
    run.record_output(b"before ".to_vec());
    assert!(run.subscribe());
    let overlapping = run.record_output(b"both ".to_vec()).event.expect("a live event");
    let (mut server, header) =
        AttachmentServer::handle(Ok(run.attachment_snapshot(0, cursors())));
    assert_eq!(header.frames.len(), 3, "a header and two replayed chunks");
    let fresh = run.record_output(b"after".to_vec()).event.expect("a live event");
    let step = server.live_event(LiveEvent::Event(overlapping));
    assert!(step.frames.is_empty() && !step.done, "the replay brought it already");
    let step = server.live_event(LiveEvent::Event(fresh));
    let [ServerFrame::Event { event: RunEvent::Output { chunk } }] = step.frames.as_slice() else {
        panic!("fresh output is sent on");
    };
    assert_eq!((chunk.start_byte, chunk.end_byte), (12, 17));
    assert_eq!(chunk.data, b"after".to_vec());
}

#[test]
fn public_gap_reattaches_from_the_callers_cursor_without_loss_or_duplicates() {
    let mut run = running();
    assert!(run.subscribe());
    let initial = run.attachment_snapshot(0, cursors());
    assert!(initial.replay.chunks.is_empty());
    let caller_cursor = initial.replay.latest_output_bytes;
    let (mut server, _) = AttachmentServer::handle(Ok(initial));
    let mut reader = Attachment::new();
    for _ in 0..4 {
        run.record_output(vec![0; 8192]);
    }
    let head = run.info(cursors()).latest_output_bytes;
    let step = server.live_event(LiveEvent::Lagged { latest_output_bytes: head });
    assert!(!step.done);
    for frame in step.frames {
        assert!(!reader.reader_loop(ReaderEvent::Frame(frame)).done);
    }
    let reading = reader.begin_events().expect("the only reader");
    let NextEvent::Ready(Ok(Some(RunEvent::Gap { latest_output_bytes: gap_head }))) =
        reader.next_event(&reading)
    else {
        panic!("expected public Gap event");
    };
    reader.end_events(reading);

    let (_, step) = AttachmentServer::handle(Ok(run.attachment_snapshot(caller_cursor, cursors())));
    let mut frames = step.frames.into_iter();
    let client = Client::new("unused.sock");
    let mut recovered = client.attach(Ok(frames.next().expect("a header"))).expect("attached");
    while !replay_complete(&recovered.replay, caller_cursor) {
        receive_replay(&mut recovered, caller_cursor, Ok(frames.next())).expect("ordered output");
    }
    assert!(!recovered.replay.truncated);
    assert_eq!(recovered.replay.latest_output_bytes, gap_head);
    let mut expected_byte = caller_cursor;
    for chunk in &recovered.replay.chunks {
        assert_eq!(chunk.start_byte, expected_byte);
        assert_eq!(chunk.end_byte - chunk.start_byte, chunk.data.len() as u64);
        expected_byte = chunk.end_byte;
    }
    assert_eq!(expected_byte, gap_head);
    let recovered_bytes = replay_bytes(&recovered.replay.chunks);
    assert_eq!(recovered_bytes.len(), 4 * 8192);
    assert!(recovered_bytes.iter().all(|byte| *byte == 0));
}

#[test]
fn the_result_of_a_stop_precedes_the_end_that_it_brought() {
    let (mut server, _) = AttachmentServer::handle(Ok(running().attachment_snapshot(0, cursors())));
    let FrameAction::Control { command_id, command } =
        server.handle_frame(Some(ClientFrame::Stop { command_id: id(1) }))
    else {
        panic!("a stop is handed to the Run");
    };
    assert_eq!(command, ControlCommand::Stop);
    let step = server.control_started(command_id, true, ControlStart::Pending);
    assert!(step.frames.is_empty() && !step.done);
    let step = server.live_event(LiveEvent::Event(exited()));
    assert!(step.frames.is_empty() && !step.done, "the end waits for the result");
    let receipt = ControlReceipt::Stop { disposition: StopDisposition::Graceful };
    let step = server.command_result(command_id, outcome(Ok(receipt)));
    assert_eq!(
        step.frames,
        vec![
            ServerFrame::CommandResult {
                command_id: id(1),
                outcome: ControlOutcome::Accepted { receipt },
            },
            ServerFrame::Event { event: exited() },
        ]
    );
    assert!(step.done);
}

#[test]
fn a_refused_control_is_answered_at_once() {
    let (mut server, _) = AttachmentServer::handle(Ok(running().attachment_snapshot(0, cursors())));
    let failure = running()
        .begin_resize(TerminalSize { cols: 0, rows: 0 })
        .expect_err("no dimensions");
    let step =
        server.control_started(id(1), false, ControlStart::Settled(Err(failure.copied())));
    assert_eq!(
        step.frames,
        vec![ServerFrame::CommandResult {
            command_id: id(1),
            outcome: ControlOutcome::Rejected { failure },
        }]
    );
    let FrameAction::Send(step) =
        server.handle_frame(Some(ClientFrame::Hello { protocol: 13 }))
    else {
        panic!("a greeting is no command");
    };
    assert!(matches!(
        &step.frames[..],
        [ServerFrame::Error { error }] if error.message == "frame is not valid during attachment"
    ));
}

#[test]
fn a_clean_detach_waits_for_results_and_its_acknowledgement() {
    let mut attachment = Attachment::new();
    attachment.input(b"x".to_vec()).expect("admitted");
    attachment.detach().expect("the attachment is open");
    assert_eq!(attachment.detach_ready(), None);
    let step = attachment.reader_loop(ReaderEvent::Frame(ServerFrame::CommandResult {
        command_id: id(1),
        outcome: ControlOutcome::Accepted { receipt: ControlReceipt::Input { written_bytes: 1 } },
    }));
    let resolution = step.results.into_iter().next().expect("one result").resolution;
    assert_eq!(
        resolution,
        PendingResolution::Accepted(ValidatedReceipt::Input(InputReceipt { written_bytes: 1 }))
    );
    assert_eq!(
        Attachment::input_result(id(1), Some(resolution)).map(|done| done.receipt.written_bytes),
        Ok(1)
    );
    assert_eq!(attachment.detach_ready(), Some(Ok(())));
    assert_eq!(Attachment::detach_queued(true), Ok(()));
    assert_eq!(
        Attachment::detach_queued(false),
        Err(ClientError::AttachmentUnavailable { reason: AttachmentUnavailableReason::Closed })
    );
    assert_eq!(attachment.detached(), None);
    let step = attachment.reader_loop(ReaderEvent::Frame(ServerFrame::Detached));
    assert!(step.done && step.results.is_empty());
    assert_eq!(attachment.detached(), Some(Ok(())));
    let guard = attachment.begin_events().unwrap_or_else(|_| panic!("nobody reads"));
    assert!(matches!(attachment.next_event(&guard), NextEvent::Ready(Ok(None))));
    attachment.end_events(guard);
    assert!(attachment.begin_events().is_ok());
}

#[test]
fn a_broken_writer_and_a_local_close_leave_commands_unknown() {
    let mut attachment = Attachment::new();
    attachment.stop().expect("admitted");
    let lost = attachment.writer_failed(ClientError::Transport("EPIPE".to_owned()));
    assert_eq!(
        lost[0].resolution,
        PendingResolution::Unknown(AttachmentUnknownReason::TransportTerminated)
    );
    assert_eq!(attachment.detached(), Some(Err(ClientError::Closed)));

    let mut closing = Attachment::new();
    closing.stop().expect("admitted");
    let lost = closing.close();
    let error = Attachment::stop_result(
        lost[0].command_id,
        Some(PendingResolution::Unknown(AttachmentUnknownReason::ClosedLocally)),
    )
    .expect_err("no receipt");
    assert_eq!(error.control_disposition(), Some(CommandDisposition::Unknown));
    assert!(closing.close().is_empty(), "an attachment ends once");
}

#[test]
fn tmux_answers_are_read_by_kind() {
    let client = Client::new("unused.sock");
    let pane = || TmuxPaneInfo {
        socket_path: "/s".to_owned(),
        server_pid: 1,
        server_started_at: 2,
        session_id: "$0".to_owned(),
        window_id: "@0".to_owned(),
        pane_id: "%0".to_owned(),
        pane_pid: 3,
        tmux_version: "3.4".to_owned(),
    };
    let panes = request(Ok(ServerFrame::Response {
        response: Response::TmuxPanes { tmux_version: "3.4".to_owned(), panes: vec![pane()] },
    }));
    assert_eq!(client.discover_tmux(panes), Ok(("3.4".to_owned(), vec![pane()])));
    let info = || running().info(cursors());
    let imported = request(Ok(ServerFrame::Response {
        response: Response::Imported { run: info() },
    }));
    assert_eq!(client.import_tmux(imported), Ok(info()));
    let forked =
        request(Ok(ServerFrame::Response { response: Response::Forked { run: info() } }));
    assert_eq!(client.fork(forked), Ok(info()));
    let status =
        request(Ok(ServerFrame::Response { response: Response::Status { run: info() } }));
    assert_eq!(client.fork_with_operation_key(status), Err(ClientError::UnexpectedFrame(
        "expected forked response",
    )));
}

#[test]
fn input_payload_uses_compact_base64_and_round_trips_exact_bytes() {
    assert_eq!(encode_base64(&vec![0, 255, 1]), b"AP8B");
    assert_eq!(decode_base64(&b"AP8B".to_vec()), Some(vec![0, 255, 1]));
    for (data, text) in [
        (&b""[..], &b""[..]),
        (&b"f"[..], &b"Zg=="[..]),
        (&b"fo"[..], &b"Zm8="[..]),
        (&b"foo"[..], &b"Zm9v"[..]),
        (&b"foob"[..], &b"Zm9vYg=="[..]),
        (&[251, 255, 191][..], &b"+/+/"[..]),
    ] {
        assert_eq!(encode_base64(&data.to_vec()), text);
        assert_eq!(decode_base64(&text.to_vec()), Some(data.to_vec()));
    }
    for wrong in ["A", "AP8", "AP8B=", "Zg=A", "Zh==", "====", "AP8B\n", "A*8B"] {
        assert_eq!(decode_base64(&wrong.as_bytes().to_vec()), None, "{wrong}");
    }
    let every: Vec<u8> = (0..=255).collect();
    assert_eq!(decode_base64(&encode_base64(&every)), Some(every));
}

fn ended(value: u128) -> RunFacts {
    RunFacts {
        id: RunId { value },
        spec: None,
        lineage: None,
        running: false,
        shared: false,
        ordinal: Some(TerminalOrdinal { number: 1 }),
        tmux_controlled: false,
        wait_failure: None,
    }
}

#[test]
fn a_durable_removal_is_fenced_until_it_is_decided() {
    let mut registry = RunRegistry::with_record_capacity(10, u64::MAX);
    let key = || OperationKey { text: "k".to_owned(), defect: None };
    registry.retain(ended(1), Some(key()), Some(40));
    registry.retain(ended(2), None, None);
    let id = RunId { value: 1 };
    let candidate = registry.removal_candidate(id).expect("it has a record");
    assert_eq!((candidate.id, candidate.metadata_bytes), (id, 40));
    assert_eq!(
        registry.removal_candidate(RunId { value: 2 }).expect_err("no key").code,
        ErrorCode::Internal
    );
    let busy = registry.begin_persistent_removal(id, Err("busy".to_owned())).expect_err("held");
    assert_eq!(busy.code, ErrorCode::Internal);
    assert_eq!(registry.begin_persistent_removal(id, Ok(())), Ok(candidate));
    assert_eq!(
        registry.pin(id).expect_err("fenced").code,
        ErrorCode::BackendUnavailable
    );
    registry.abort_removal(id);
    assert_eq!(registry.pin(id), Ok(true));
    registry.begin_persistent_removal(id, Ok(())).expect("fenced again");
    registry.commit_removal(id);
    assert_eq!(registry.pin(id), Ok(false));
    assert_eq!(
        registry.begin_persistent_removal(id, Ok(())).expect_err("gone").code,
        ErrorCode::RunNotFound
    );
}

#[test]
fn a_refreshed_run_can_make_place() {
    let mut registry = RunRegistry::with_record_capacity(1, u64::MAX);
    let mut live = ended(1);
    live.running = true;
    live.ordinal = None;
    registry.retain(live, None, None);
    assert!(registry
        .reserve_publication(RunId { value: 2 }, None, None, None)
        .is_err());
    assert!(registry.refresh(ended(1), None));
    assert!(!registry.refresh(ended(3), None));
    let ticket = registry
        .reserve_publication(RunId { value: 2 }, None, None, None)
        .expect("the Run has ended by now");
    assert_eq!(registry.candidates(ticket), vec![RunId { value: 1 }]);
}
