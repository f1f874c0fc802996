use ctxmux::client::attachment::{Attachment, CommandResult, ReaderEvent, SendAttempt};
use ctxmux::client::commands::{
    AttachmentState, PendingKind, PendingResolution, ValidatedReceipt, MAX_PENDING_COMMANDS,
    MAX_PENDING_INPUT_BYTES, MAX_PENDING_INPUT_COMMANDS,
};
use ctxmux::client::error::{
    control_request_unknown, AttachmentUnavailableReason, AttachmentUnknownReason, ClientError,
};
use ctxmux::client::inbox::{EventInbox, NextEvent, MAX_QUEUED_EVENTS, MAX_QUEUED_EVENT_BYTES};
use ctxmux::client::receipt::{InputReceipt, ResizeReceipt, StopReceipt};
use ctxmux::protocol::{
    AttachmentCommandId, ClientFrame, CommandDisposition, ControlFailure, ControlOutcome,
    ControlReceipt, ErrorCode, OutputChunk, ProtocolError, RunEvent, RunState, ServerFrame,
    StopDisposition, TerminalSize, TmuxRunEvent,
};

fn id(number: u32) -> AttachmentCommandId {
    AttachmentCommandId::new(number).unwrap()
}

fn output(start_byte: u64, data: Vec<u8>) -> RunEvent {
    let end_byte = start_byte + data.len() as u64;
    RunEvent::Output { chunk: OutputChunk { start_byte, end_byte, data } }
}

#[test]
fn public_control_errors_expose_retry_safety_disposition() {
    let short_unknown = control_request_unknown(ClientError::Closed);
    assert_eq!(
        short_unknown.control_disposition(),
        Some(CommandDisposition::Unknown)
    );
    assert_eq!(
        ClientError::AttachmentCommandUnknown {
            command_id: id(1),
            reason: AttachmentUnknownReason::TransportTerminated,
        }
        .control_disposition(),
        Some(CommandDisposition::Unknown)
    );
    assert_eq!(
        ClientError::AttachmentUnavailable { reason: AttachmentUnavailableReason::Detaching }
            .control_disposition(),
        Some(CommandDisposition::NotApplied)
    );
    assert_eq!(ClientError::Closed.control_disposition(), None);
}

#[test]
fn attachment_admission_reserves_control_capacity_and_input_bytes() {
    let mut shared = AttachmentState::new();
    for expected_id in 1..=MAX_PENDING_INPUT_COMMANDS {
        let command_id = shared
            .register_command(PendingKind::Input { expected_bytes: 1 })
            .expect("admit bounded input");
        assert_eq!(command_id.number as usize, expected_id);
    }
    assert_eq!(
        shared.register_command(PendingKind::Input { expected_bytes: 1 }),
        Err(ClientError::AttachmentBackpressure { limit: "32 unresolved input commands" })
    );

    for _ in MAX_PENDING_INPUT_COMMANDS..MAX_PENDING_COMMANDS {
        shared
            .register_command(PendingKind::Resize)
            .expect("reserved control capacity remains available");
    }
    assert_eq!(
        shared.register_command(PendingKind::Stop),
        Err(ClientError::AttachmentBackpressure { limit: "64 unresolved commands" })
    );

    shared
        .resolve_command(
            id(1),
            ControlOutcome::Accepted { receipt: ControlReceipt::Input { written_bytes: 1 } },
        )
        .expect("resolve first input");
    assert_eq!(
        shared
            .register_command(PendingKind::Stop)
            .expect("one completed command restores total capacity")
            .number,
        65
    );

    let mut byte_bounded = AttachmentState::new();
    byte_bounded
        .register_command(PendingKind::Input { expected_bytes: MAX_PENDING_INPUT_BYTES })
        .expect("admit exactly 1 MiB of unresolved input");
    assert_eq!(
        byte_bounded.register_command(PendingKind::Input { expected_bytes: 1 }),
        Err(ClientError::AttachmentBackpressure { limit: "1 MiB unresolved input data" })
    );
}

#[test]
fn invalid_receipt_keeps_implicated_command_pending_until_unknown() {
    let mut shared = AttachmentState::new();
    let command_id = shared
        .register_command(PendingKind::Input { expected_bytes: 3 })
        .expect("register command");
    assert_eq!(
        shared.resolve_command(
            command_id,
            ControlOutcome::Accepted { receipt: ControlReceipt::Input { written_bytes: 2 } },
        ),
        Err("attachment input receipt does not match its command")
    );

    let mut attachment = Attachment::new();
    let frame = attachment.input(vec![1, 2, 3]).expect("admit input");
    assert_eq!(frame, ClientFrame::Input { command_id: id(1), data: vec![1, 2, 3] });
    let step = attachment.reader_loop(ReaderEvent::Frame(ServerFrame::CommandResult {
        command_id: id(1),
        outcome: ControlOutcome::Accepted { receipt: ControlReceipt::Input { written_bytes: 2 } },
    }));
    assert!(step.done);
    assert_eq!(
        step.results,
        vec![CommandResult {
            command_id: id(1),
            resolution: PendingResolution::Unknown(AttachmentUnknownReason::ProtocolViolation),
        }]
    );
}

#[test]
fn invalid_backpressure_disposition_is_attachment_fatal() {
    let failure = || ControlFailure {
        error: ProtocolError {
            code: ErrorCode::ControlBackpressure,
            message: "invalid fixture".to_owned(),
        },
        disposition: CommandDisposition::Unknown,
    };
    let mut shared = AttachmentState::new();
    let command_id = shared.register_command(PendingKind::Stop).expect("register stop");
    assert_eq!(
        shared.resolve_command(command_id, ControlOutcome::Rejected { failure: failure() }),
        Err("control_backpressure must have not_applied disposition")
    );

    let mut attachment = Attachment::new();
    attachment.stop().expect("admit stop");
    let step = attachment.reader_loop(ReaderEvent::Frame(ServerFrame::CommandResult {
        command_id: id(1),
        outcome: ControlOutcome::Rejected { failure: failure() },
    }));
    assert!(step.done);
    assert_eq!(
        step.results,
        vec![CommandResult {
            command_id: id(1),
            resolution: PendingResolution::Unknown(AttachmentUnknownReason::ProtocolViolation),
        }]
    );
}

fn delivered(inbox: &mut EventInbox) -> RunEvent {
    match inbox.next() {
        NextEvent::Ready(Ok(Some(event))) => event,
        other => panic!("expected an event, got {other:?}"),
    }
}

#[test]
fn output_overflow_gap_precedes_later_tmux_event() {
    let mut inbox = EventInbox::new();
    inbox
        .push(output(0, vec![0; MAX_QUEUED_EVENT_BYTES]))
        .expect("fill bounded byte inbox");
    inbox
        .push(output(MAX_QUEUED_EVENT_BYTES as u64, vec![1]))
        .expect("coalesce overflowing output into a Gap");
    assert!(matches!(
        delivered(&mut inbox),
        RunEvent::Output { chunk: OutputChunk { start_byte: 0, .. } }
    ));

    inbox
        .push(RunEvent::Tmux { event: TmuxRunEvent::Paused })
        .expect("materialize Gap before a later non-output event");
    assert_eq!(
        delivered(&mut inbox),
        RunEvent::Gap { latest_output_bytes: MAX_QUEUED_EVENT_BYTES as u64 + 1 }
    );
    assert_eq!(
        delivered(&mut inbox),
        RunEvent::Tmux { event: TmuxRunEvent::Paused }
    );
}

#[test]
fn terminal_event_survives_full_output_inbox() {
    let mut inbox = EventInbox::new();
    for place in 0..MAX_QUEUED_EVENTS as u64 {
        inbox.push(output(place, vec![b'x'])).expect("fill event-count bound");
    }
    inbox
        .push(output(MAX_QUEUED_EVENTS as u64, vec![b'y']))
        .expect("coalesce overflowing output");
    let exited =
        || RunEvent::Exited { state: RunState::Exited { code: 0, signal: None } };
    inbox
        .push(exited())
        .expect("retain terminal event outside the full queue");

    for _ in 0..MAX_QUEUED_EVENTS {
        assert!(matches!(delivered(&mut inbox), RunEvent::Output { .. }));
    }
    assert_eq!(
        delivered(&mut inbox),
        RunEvent::Gap { latest_output_bytes: MAX_QUEUED_EVENTS as u64 + 1 }
    );
    assert_eq!(delivered(&mut inbox), exited());
}

#[test]
fn event_inbox_rejects_a_second_pending_consumer_and_closes_the_first() {
    let mut inbox = EventInbox::new();
    let first = inbox.begin_read().expect("the first consumer reads");
    assert!(matches!(inbox.next(), NextEvent::Wait));
    assert!(matches!(inbox.begin_read(), Err(ClientError::ConcurrentEventRead)));
    inbox.close(None);
    assert!(matches!(inbox.next(), NextEvent::Ready(Ok(None))));
    inbox.end_read(first);
    assert!(inbox.begin_read().is_ok());
}

#[test]
fn oversized_encoded_input_is_not_applied_and_does_not_consume_its_id() {
    let mut attachment = Attachment::new();
    attachment.input(vec![u8::MAX; 300 * 1024]).expect("admit before encoding");
    let (sent, results) = attachment.issue_command(
        id(1),
        SendAttempt::NotEncoded("frame exceeds the exact ceiling".to_owned()),
    );
    let error = sent.expect_err("expanded JSON exceeds the exact frame ceiling");
    assert_eq!(error.control_disposition(), Some(CommandDisposition::NotApplied));
    assert!(results.is_empty());

    let size = TerminalSize { rows: 30, cols: 90 };
    let frame = attachment
        .resize(size)
        .expect("attachment remains usable after local preflight rejection");
    assert_eq!(frame, ClientFrame::Resize { command_id: id(1), size });
    let (sent, results) = attachment.issue_command(id(1), SendAttempt::Queued);
    assert!(sent.is_ok() && results.is_empty());
    let step = attachment.reader_loop(ReaderEvent::Frame(ServerFrame::CommandResult {
        command_id: id(1),
        outcome: ControlOutcome::Accepted {
            receipt: ControlReceipt::Resize { applied_size: size },
        },
    }));
    assert!(!step.done);
    let resolution = step.results.into_iter().next().expect("one result").resolution;
    assert_eq!(
        resolution,
        PendingResolution::Accepted(ValidatedReceipt::Resize(ResizeReceipt {
            applied_size: size,
        }))
    );
    let accepted = Attachment::resize_result(id(1), Some(resolution)).expect("resize accepted");
    assert_eq!(accepted.command_id.number, 1);
    assert_eq!(accepted.receipt.applied_size, size);
}

#[test]
fn a_full_or_closed_writer_takes_the_command_back() {
    let mut attachment = Attachment::new();
    attachment.stop().expect("admit stop");
    let (sent, _) = attachment.issue_command(id(1), SendAttempt::QueueFull);
    assert!(matches!(sent, Err(ClientError::AttachmentBackpressure { .. })));
    assert_eq!(attachment.stop(), Ok(ClientFrame::Stop { command_id: id(1) }));
    let (sent, _) = attachment.issue_command(id(1), SendAttempt::QueueClosed);
    assert_eq!(
        sent.unwrap_err().control_disposition(),
        Some(CommandDisposition::NotApplied)
    );
    // The attachment has ended: nothing can be asked of it any more.
    assert!(attachment.stop().is_err());
}

#[test]
fn a_lost_connection_leaves_every_command_unknown() {
    let mut attachment = Attachment::new();
    attachment.input(b"ab".to_vec()).unwrap();
    attachment.stop().unwrap();
    let step = attachment.reader_loop(ReaderEvent::EndOfStream);
    assert!(step.done);
    let ids: Vec<u32> = step.results.iter().map(|result| result.command_id.number).collect();
    assert_eq!(ids, vec![1, 2]);
    for result in step.results {
        let error = Attachment::stop_result(result.command_id, Some(result.resolution))
            .expect_err("no receipt was proven");
        assert_eq!(error.control_disposition(), Some(CommandDisposition::Unknown));
    }
    let guard = attachment.begin_events().expect("read the end");
    assert!(matches!(
        attachment.next_event(&guard),
        NextEvent::Ready(Ok(None)) | NextEvent::Ready(Err(_))
    ));
}

#[test]
fn receipts_are_accepted_only_for_their_own_commands() {
    let mut state = AttachmentState::new();
    let input = state.register_command(PendingKind::Input { expected_bytes: 2 }).unwrap();
    let stop = state.register_command(PendingKind::Stop).unwrap();
    assert_eq!(
        state.resolve_command(
            stop,
            ControlOutcome::Accepted {
                receipt: ControlReceipt::Stop { disposition: StopDisposition::Graceful },
            },
        ),
        Ok(PendingResolution::Accepted(ValidatedReceipt::Stop(StopReceipt {
            disposition: StopDisposition::Graceful,
        })))
    );
    assert_eq!(
        state.resolve_command(
            input,
            ControlOutcome::Accepted { receipt: ControlReceipt::Input { written_bytes: 2 } },
        ),
        Ok(PendingResolution::Accepted(ValidatedReceipt::Input(InputReceipt {
            written_bytes: 2,
        })))
    );
    assert!(state
        .resolve_command(
            input,
            ControlOutcome::Accepted { receipt: ControlReceipt::Input { written_bytes: 2 } },
        )
        .is_err());
}

#[test]
fn detach_waits_for_the_pending_commands() {
    let mut state = AttachmentState::new();
    let stop = state.register_command(PendingKind::Stop).unwrap();
    assert_eq!(state.begin_detach(), Ok(()));
    assert_eq!(state.drained(), None);
    assert_eq!(
        state.register_command(PendingKind::Resize),
        Err(ClientError::AttachmentUnavailable {
            reason: AttachmentUnavailableReason::Detaching,
        })
    );
    assert!(state.finish_detach().is_err());
    state
        .resolve_command(
            stop,
            ControlOutcome::Accepted {
                receipt: ControlReceipt::Stop { disposition: StopDisposition::Forced },
            },
        )
        .unwrap();
    assert_eq!(state.drained(), Some(Ok(())));
    assert_eq!(state.detached(), None);
    assert_eq!(state.finish_detach(), Ok(()));
    assert_eq!(state.detached(), Some(Ok(())));
    assert_eq!(state.terminate(), None);
}
