use ctxmux::daemon::handoff::{
    judge_version_output, run_bounded, schema_of_version_output, verify_exec_target,
    version_output, version_token, HandoffError, HandoffErrorKind, HandoffInputOperation,
    HandoffInputState, HandoffManifest, HandoffRun, HandoffStopOperation, HandoffStopOutcome,
    ProbeFailure, ProbeStep, HANDOFF_INPUT_DIAGNOSTIC_MAX_BYTES, HANDOFF_SCHEMA,
    MAX_HANDOFF_INPUT_REQUEST_BYTES, MAX_HANDOFF_STOP_DIAGNOSTIC_BYTES,
};
use ctxmux::daemon::input::{InputAdmission, INPUT_RESULT_MAX_REQUEST_BYTES};
use ctxmux::daemon::manifest::{manifest_line, read_manifest};
use ctxmux::identity::{DaemonInstanceId, RunId};
use ctxmux::protocol::{
    AppliedInputRange, CommandDisposition, ControlFailure, ControlReceipt, ErrorCode,
    OperationKey, ProtocolError, StopDisposition,
};

fn run_id(value: u128) -> RunId {
    RunId { value }
}

fn epoch() -> String {
    DaemonInstanceId { value: 0x0123_4567_89ab_cdef_0123_4567_89ab_cdef }.to_text()
}

fn invalid(message: &str) -> Result<(), HandoffError> {
    Err(HandoffError { kind: HandoffErrorKind::InvalidData, message: message.to_owned() })
}

fn key(text: &str) -> OperationKey {
    OperationKey { text: text.to_owned(), defect: None }
}

fn completed(name: &str, start: u64, data: Vec<u8>) -> HandoffInputOperation {
    let end = start + data.len() as u64;
    HandoffInputOperation {
        key: key(name),
        expected_byte: start,
        data,
        range: AppliedInputRange { start_byte: start, end_byte: end },
    }
}

fn empty_run(id: u128, child_pid: u32, master_fd: i32) -> HandoffRun {
    HandoffRun {
        run_id: run_id(id),
        child_pid,
        master_fd,
        input_state: HandoffInputState::empty(),
    }
}

#[test]
fn round_trips_through_json_and_lists_all_fds() {
    let manifest = HandoffManifest::new(
        "epoch-xyz".to_string(),
        3,
        4,
        vec![empty_run(1, 4321, 7), empty_run(2, 8765, 9)],
    );
    assert_eq!(manifest.listener_fd, 3);
    assert_eq!(manifest.state_lock_fd, 4);
    assert_eq!(manifest.all_fds(), vec![3, 4, 7, 9]);
    assert_eq!(manifest.schema, HANDOFF_SCHEMA);
    assert_eq!(manifest.epoch, "epoch-xyz");
    assert_eq!(manifest.runs, vec![empty_run(1, 4321, 7), empty_run(2, 8765, 9)]);
}

#[test]
fn settled_stop_ledger_round_trips_in_the_versioned_manifest() {
    let operation = || HandoffStopOperation {
        run_id: run_id(9),
        operation_key: key("handoff-stop-result"),
        outcome: HandoffStopOutcome::Accepted { disposition: StopDisposition::Forced },
    };
    let manifest = HandoffManifest::new_with_stop_operations(
        epoch(),
        100,
        101,
        Vec::new(),
        vec![operation()],
    );
    let parsed = read_manifest(Ok(manifest), 99).expect("read handed-off Stop ledger");
    assert_eq!(parsed.schema, "ctxmux.daemon-handoff.v4");
    assert_eq!(parsed.stop_operations, [operation()]);
    assert_eq!(
        operation().outcome.into_result(),
        Ok(ControlReceipt::Stop { disposition: StopDisposition::Forced })
    );
}

#[test]
fn rejects_unbounded_input_diagnostics_before_owner_extraction() {
    let manifest = |length: usize| {
        HandoffManifest::new(
            epoch(),
            100,
            101,
            vec![HandoffRun {
                run_id: run_id(1),
                child_pid: 4321,
                master_fd: 102,
                input_state: HandoffInputState {
                    applied_input_bytes: 0,
                    input_failure: Some(ProtocolError {
                        code: ErrorCode::Io,
                        message: "x".repeat(length),
                    }),
                    operations: Vec::new(),
                },
            }],
        )
    };
    assert_eq!(
        manifest(HANDOFF_INPUT_DIAGNOSTIC_MAX_BYTES + 1).validate(99).unwrap_err().kind,
        HandoffErrorKind::InvalidData
    );
    assert!(manifest(HANDOFF_INPUT_DIAGNOSTIC_MAX_BYTES).validate(99).is_ok());
}

#[test]
fn a_version_line_round_trips_through_its_own_parser() {
    let line = format!("ctxmuxd 0.1.0 (protocol 17, {})", version_token());
    assert_eq!(schema_of_version_output(&line), Some(HANDOFF_SCHEMA));
    assert_eq!(
        schema_of_version_output(&format!("{line}\n")),
        Some(HANDOFF_SCHEMA)
    );
    assert_eq!(
        schema_of_version_output("ctxmuxd 0.1.0 (protocol 16)"),
        None
    );
}

#[test]
fn the_printed_version_line_is_exact_and_readable() {
    let line = version_output("0.1.0", 13);
    assert_eq!(line, "ctxmuxd 0.1.0 (protocol 13, handoff ctxmux.daemon-handoff.v4)");
    assert_eq!(schema_of_version_output(&line), Some(HANDOFF_SCHEMA));
    assert_eq!(version_token(), "handoff ctxmux.daemon-handoff.v4");
    assert_eq!(schema_of_version_output("handoff  padded \u{2003})"), Some("padded"));
    assert_eq!(schema_of_version_output("handoff unterminated"), None);
    assert_eq!(schema_of_version_output("handoff a\nhandoff b)"), Some("a"));
}

#[test]
fn an_unverifiable_exec_target_is_refused() {
    let error = verify_exec_target("/bin/echo", Ok(b"--version\n".to_vec())).unwrap_err();
    assert!(
        error.contains("declares no handoff schema"),
        "unexpected refusal: {error}"
    );
    assert!(verify_exec_target(
        "/nonexistent/ctxmuxd",
        Err(ProbeFailure::NotRun("No such file or directory".to_owned())),
    )
    .is_err());
}

#[test]
fn an_exec_target_is_judged_by_its_declared_schema() {
    let own = version_output("0.1.0", 13);
    assert_eq!(verify_exec_target("/opt/ctxmuxd", Ok(own.clone().into_bytes())), Ok(()));
    assert_eq!(
        verify_exec_target("/opt/ctxmuxd", Ok(b"ctxmuxd 9 (handoff other.v9)\n".to_vec())),
        Err(
            "/opt/ctxmuxd accepts handoff schema other.v9, this image writes ctxmux.daemon-handoff.v4"
                .to_owned()
        )
    );
    assert_eq!(judge_version_output("/opt/ctxmuxd", &own), Ok(()));
    assert_eq!(
        verify_exec_target("/opt/ctxmuxd", Ok(b"(handoff \xff)".to_vec())),
        Err(
            "/opt/ctxmuxd accepts handoff schema \u{fffd}, this image writes ctxmux.daemon-handoff.v4"
                .to_owned()
        )
    );
    assert_eq!(
        verify_exec_target("/opt/ctxmuxd", Err(ProbeFailure::TimedOut)),
        Err("/opt/ctxmuxd --version did not answer within 2s".to_owned())
    );
    assert_eq!(
        verify_exec_target("/opt/ctxmuxd", Err(ProbeFailure::NotRun("denied".to_owned()))),
        Err("cannot run /opt/ctxmuxd --version: denied".to_owned())
    );
    assert_eq!(
        verify_exec_target("/opt/ctxmuxd", Err(ProbeFailure::NotAwaited("gone".to_owned()))),
        Err("cannot await /opt/ctxmuxd --version: gone".to_owned())
    );
    assert_eq!(
        verify_exec_target("/opt/ctxmuxd", Err(ProbeFailure::NotRead("eof".to_owned()))),
        Err("cannot read /opt/ctxmuxd --version: eof".to_owned())
    );
}

#[test]
fn a_version_probe_is_polled_until_it_ends_or_overruns() {
    assert_eq!(run_bounded(Ok(true), true), ProbeStep::Read);
    assert_eq!(run_bounded(Ok(false), false), ProbeStep::Poll);
    assert_eq!(run_bounded(Ok(false), true), ProbeStep::GiveUp(ProbeFailure::TimedOut));
    assert_eq!(
        run_bounded(Err("lost".to_owned()), false),
        ProbeStep::GiveUp(ProbeFailure::NotAwaited("lost".to_owned()))
    );
}

#[test]
fn rejects_unknown_schema() {
    let mut manifest =
        HandoffManifest::new("epoch-1".to_string(), 3, 4, vec![empty_run(1, 4321, 7)]);
    manifest.schema = "ctxmux.daemon-handoff.v1".to_string();
    let error = read_manifest(Ok(manifest), 99).unwrap_err();
    assert_eq!(error.kind, HandoffErrorKind::InvalidData);
    assert_eq!(error.message, "unknown handoff manifest schema");
    let unreadable = || HandoffError {
        kind: HandoffErrorKind::Unreadable,
        message: "bad descriptor".to_owned(),
    };
    assert_eq!(read_manifest(Err(unreadable()), 99), Err(unreadable()));
}

#[test]
fn rejects_duplicate_descriptors_runs_and_input_keys() {
    let duplicate_fd = HandoffManifest::new(epoch(), 100, 100, Vec::new());
    assert_eq!(duplicate_fd.validate(99).unwrap_err().kind, HandoffErrorKind::InvalidData);

    let duplicate_run = HandoffManifest::new(
        epoch(),
        100,
        101,
        vec![empty_run(5, 1, 102), empty_run(5, 2, 103)],
    );
    assert_eq!(duplicate_run.validate(99).unwrap_err().kind, HandoffErrorKind::InvalidData);

    let duplicate_key = HandoffManifest::new(
        epoch(),
        100,
        101,
        vec![HandoffRun {
            run_id: run_id(6),
            child_pid: 1,
            master_fd: 102,
            input_state: HandoffInputState {
                applied_input_bytes: 2,
                input_failure: None,
                operations: vec![
                    completed("duplicate-handoff-key", 0, b"A".to_vec()),
                    completed("duplicate-handoff-key", 1, b"B".to_vec()),
                ],
            },
        }],
    );
    assert_eq!(
        duplicate_key.validate(99),
        invalid("handoff Input ledger contains a duplicate key")
    );
}

#[test]
fn rejects_inconsistent_input_cursor_truth() {
    let manifest = HandoffManifest::new(
        epoch(),
        100,
        101,
        vec![HandoffRun {
            run_id: run_id(1),
            child_pid: 1,
            master_fd: 102,
            input_state: HandoffInputState {
                applied_input_bytes: 0,
                input_failure: None,
                operations: vec![completed("future-range", 0, b"A".to_vec())],
            },
        }],
    );
    assert_eq!(manifest.validate(99).unwrap_err().kind, HandoffErrorKind::InvalidData);
}

#[test]
fn every_defect_of_a_manifest_has_its_own_reason() {
    let valid = || HandoffManifest::new(epoch(), 100, 101, vec![empty_run(1, 4321, 102)]);
    assert_eq!(valid().validate(99), Ok(()));

    let mut bad_epoch = valid();
    bad_epoch.epoch = "not-a-uuid".to_owned();
    assert_eq!(
        bad_epoch.validate(99),
        invalid("invalid handoff daemon epoch: invalid character: found `n` at 0")
    );

    let descriptors =
        "handoff descriptors must be non-standard, distinct, and separate from the manifest";
    assert_eq!(valid().validate(102), invalid(descriptors));
    let mut standard = valid();
    standard.listener_fd = 2;
    assert_eq!(standard.validate(99), invalid(descriptors));

    let mut no_child = valid();
    no_child.runs[0].child_pid = 0;
    assert_eq!(
        no_child.validate(99),
        invalid("handoff Runs must have unique ids and non-zero child pids")
    );

    let mut shifted = valid();
    shifted.runs[0].input_state.applied_input_bytes = 9;
    let mut operation = completed("shifted", 0, b"A".to_vec());
    operation.range.end_byte = 2;
    shifted.runs[0].input_state.operations.push(operation);
    assert_eq!(
        shifted.validate(99),
        invalid("handoff Input range does not match its request")
    );

    let mut refused = valid();
    refused.stop_operations.push(HandoffStopOperation {
        run_id: run_id(2),
        operation_key: OperationKey {
            text: String::new(),
            defect: Some("key must not be empty".to_owned()),
        },
        outcome: HandoffStopOutcome::Accepted { disposition: StopDisposition::Graceful },
    });
    assert_eq!(
        refused.validate(99),
        invalid("invalid handoff native Stop key: key must not be empty")
    );
}

fn run_with_input(prefix: &str, id: u128, master_fd: i32, payloads: &[usize]) -> HandoffRun {
    let mut operations = Vec::with_capacity(payloads.len());
    let mut cursor = 0_u64;
    for (index, &len) in payloads.iter().enumerate() {
        operations.push(completed(&format!("{prefix}-{index}"), cursor, vec![b'x'; len]));
        cursor += len as u64;
    }
    HandoffRun {
        run_id: run_id(id),
        child_pid: 1,
        master_fd,
        input_state: HandoffInputState {
            applied_input_bytes: cursor,
            input_failure: None,
            operations,
        },
    }
}

#[test]
fn aggregate_input_budget_does_not_scale_with_run_count() {
    let mut manifest = HandoffManifest::new(
        epoch(),
        100,
        101,
        vec![
            run_with_input("run-a", 1, 102, &[600, 600]),
            run_with_input("run-b", 2, 103, &[600, 600]),
        ],
    );
    assert_eq!(manifest.retained_input_request_bytes(), 2400);

    manifest.shed_recoverable_input_to_budget(1000);
    assert!(manifest.retained_input_request_bytes() <= 1000);
    manifest.validate(99).expect("shed ledger stays valid");
    // The oldest results leave first, Run by Run.
    assert_eq!(manifest.runs[0].input_state.operations.len(), 0);
    assert_eq!(manifest.runs[1].input_state.operations.len(), 1);
    assert_eq!(manifest.runs[1].input_state.operations[0].key.text, "run-b-1");
}

#[test]
fn an_operation_without_payload_does_not_end_the_shedding() {
    let runs = || vec![run_with_input("run-a", 1, 102, &[0, 600, 0, 600])];
    let mut manifest = HandoffManifest::new(epoch(), 100, 101, runs());
    manifest.shed_recoverable_input_to_budget(1200);
    assert_eq!(manifest.runs, runs(), "what fits stays as it is");
    manifest.shed_recoverable_input_to_budget(1000);
    assert_eq!(manifest.retained_input_request_bytes(), 600);
    assert_eq!(manifest.runs[0].input_state.operations[0].key.text, "run-a-2");
    manifest.shed_recoverable_input_to_budget(0);
    assert!(manifest.runs[0].input_state.operations.is_empty());

    let oversized = MAX_HANDOFF_INPUT_REQUEST_BYTES + 1;
    let built = HandoffManifest::new(
        epoch(),
        100,
        101,
        vec![run_with_input("run-b", 2, 103, &[0, oversized])],
    );
    assert_eq!(built.retained_input_request_bytes(), 0);
    assert_eq!(built.validate(99), Ok(()));
}

#[test]
fn construction_sheds_recoverable_input_to_the_daemon_budget() {
    let manifest = HandoffManifest::new(
        epoch(),
        100,
        101,
        vec![
            run_with_input("run-a", 1, 102, &[4096, 4096]),
            run_with_input("run-b", 2, 103, &[4096]),
        ],
    );
    assert!(manifest.retained_input_request_bytes() <= MAX_HANDOFF_INPUT_REQUEST_BYTES);
    assert_eq!(manifest.retained_input_request_bytes(), 12288);
    manifest.validate(99).expect("constructed manifest is valid");
}

#[test]
fn validate_rejects_an_input_total_over_the_aggregate() {
    let mut manifest = HandoffManifest::new(
        epoch(),
        100,
        101,
        vec![run_with_input("run-a", 1, 102, &[8])],
    );
    manifest.runs[0].input_state = HandoffInputState {
        applied_input_bytes: (MAX_HANDOFF_INPUT_REQUEST_BYTES + 1) as u64,
        input_failure: None,
        operations: vec![completed(
            "oversized",
            0,
            vec![b'x'; MAX_HANDOFF_INPUT_REQUEST_BYTES + 1],
        )],
    };
    let error = manifest.validate(99).unwrap_err();
    assert_eq!(error.kind, HandoffErrorKind::InvalidData);
    assert!(error.message.contains("recoverable Input request bytes"));
}

#[test]
fn stop_diagnostic_budget_sheds_oldest_and_validate_enforces_it() {
    let unknown_stop = |id: u128, name: &str, message: &str| HandoffStopOperation {
        run_id: run_id(id),
        operation_key: key(name),
        outcome: HandoffStopOutcome::Unknown {
            failure: ControlFailure {
                error: ProtocolError { code: ErrorCode::Io, message: message.to_owned() },
                disposition: CommandDisposition::Unknown,
            },
        },
    };
    let mut manifest = HandoffManifest::new_with_stop_operations(
        epoch(),
        100,
        101,
        Vec::new(),
        vec![unknown_stop(1, "stop-a", "aaaa"), unknown_stop(2, "stop-b", "bb")],
    );
    assert_eq!(manifest.stop_diagnostic_bytes(), 6);

    manifest.shed_stop_diagnostics_to_budget(3);
    assert_eq!(manifest.stop_operations.len(), 1);
    assert_eq!(manifest.stop_operations[0].operation_key.text, "stop-b");
    manifest.validate(99).expect("shed Stop ledger stays valid");

    manifest.stop_operations = vec![unknown_stop(
        3,
        "stop-big",
        &"z".repeat(MAX_HANDOFF_STOP_DIAGNOSTIC_BYTES + 1),
    )];
    let error = manifest.validate(99).unwrap_err();
    assert_eq!(error.kind, HandoffErrorKind::InvalidData);
    assert!(error.message.contains("Stop diagnostic bytes"));
}

#[test]
fn the_manifest_is_the_first_line_of_the_inherited_file() {
    assert_eq!(manifest_line(&b"{\"a\":1}\nrest".to_vec()), Ok(b"{\"a\":1}".to_vec()));
    assert_eq!(manifest_line(&b"no newline".to_vec()), Ok(b"no newline".to_vec()));
    assert_eq!(manifest_line(&Vec::new()), Ok(Vec::new()));
}

#[test]
fn a_recoverable_input_is_written_once_for_each_key() {
    let mut state = HandoffInputState::empty();
    state.advance(3);
    let begin = |state: &HandoffInputState, name: &str, at: u64, data: &[u8]| {
        state.begin_recoverable_input(&key(name), at, &data.to_vec())
    };
    assert_eq!(begin(&state, "first", 3, b"abc"), Ok(InputAdmission::Apply));
    let range = state.record_input(key("first"), b"abc".to_vec());
    assert_eq!(range, AppliedInputRange { start_byte: 3, end_byte: 6 });
    assert_eq!(begin(&state, "first", 3, b"abc"), Ok(InputAdmission::Retry(range)));
    let other = begin(&state, "first", 3, b"xyz").expect_err("another request");
    assert_eq!(other.error.message, "recoverable Input key belongs to another request");
    assert_eq!(other.disposition, CommandDisposition::NotApplied);
    let early = begin(&state, "second", 3, b"d").expect_err("behind the cursor");
    assert_eq!(early.error.message, "native Input cursor is 6");
    let broken = OperationKey { text: String::new(), defect: Some("empty key".to_owned()) };
    let refused = state.begin_recoverable_input(&broken, 6, &Vec::new()).expect_err("bad key");
    assert_eq!(refused.error.message, "empty key");

    state.record_input(key("large"), vec![b'x'; INPUT_RESULT_MAX_REQUEST_BYTES]);
    assert_eq!(state.operations.len(), 1, "the oldest result left");
    assert_eq!(state.validate(), Ok(()));
    state.input_failure =
        Some(ProtocolError { code: ErrorCode::Io, message: "terminal is gone".to_owned() });
    let failed = begin(&state, "third", state.applied_input_bytes, b"e").expect_err("failed");
    assert_eq!(failed.error.code, ErrorCode::Io);

    let mut last = HandoffInputState::empty();
    last.advance(u64::MAX);
    let full = begin(&last, "end", u64::MAX, b"f").expect_err("no cursor is left");
    assert_eq!(full.error.message, "native Input cursor overflows");
}
