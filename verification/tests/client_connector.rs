use ctxmux::client::connector::{
    control_request, request, validate_runtime_description, Client, ControlExchange, Received,
};
use ctxmux::client::error::ClientError;
use ctxmux::client::receipt::{ControlAccepted, InputReceipt};
use ctxmux::client::replay::{begin_replay, receive_replay, replay_bytes, replay_complete};
use ctxmux::client::requests::{hello, ClientCall};
use ctxmux::identity::{DaemonInstanceId, RunId, RuntimeId};
use ctxmux::protocol::{
    native_capabilities, AppliedInputRange, AttachedSnapshot, AttachedSnapshotHeader,
    CapabilityVersion, ClientFrame, CommandDisposition, ControlFailure, ControlReceipt,
    ErrorCode, NativeRuntimeCapabilities, OperationKey, OutputChunk, OutputReplay,
    OutputReplayHeader, ProtocolError, RecoverableInput, Request, Response, RunBackend, RunEvent,
    RunInfo, RunSignal, RunState, RuntimeCapabilityManifest, RuntimeDescription,
    RuntimeIdPersistence, RuntimeIdentity, RuntimeServiceCapabilities, ServerFrame,
    StopDisposition, TerminalSize, TmuxRuntimeCapabilities, MAX_RUNTIME_CAPABILITY_VERSION,
    PROTOCOL_VERSION, RUNTIME_CAPABILITY_MANIFEST_VERSION,
};

fn runtime_description() -> RuntimeDescription {
    RuntimeDescription {
        runtime_id: RuntimeId { value: 7 },
        daemon_instance_id: DaemonInstanceId { value: 11 },
        build_id: "ctxmuxd/test".to_owned(),
        protocol_generation: PROTOCOL_VERSION,
        capabilities: RuntimeCapabilityManifest {
            version: RUNTIME_CAPABILITY_MANIFEST_VERSION,
            native: NativeRuntimeCapabilities {
                start: true,
                recoverable_input: true,
                fork_level_a: true,
                execute_materialized_level_b: true,
            },
            tmux: TmuxRuntimeCapabilities { discover: true, import: true },
            services: RuntimeServiceCapabilities {
                persistent_state_active: false,
                planned_exec_upgrade_continuity: false,
            },
        },
    }
}

fn identity_of(instance: u128) -> RuntimeIdentity {
    RuntimeIdentity {
        daemon_instance_id: DaemonInstanceId { value: instance },
        runtime_id: RuntimeId { value: 7 },
        runtime_id_persistence: RuntimeIdPersistence::Daemon,
        build_id: "ctxmuxd/test".to_owned(),
        protocol_generation: PROTOCOL_VERSION,
        platform: "linux".to_owned(),
        arch: "x86_64".to_owned(),
        capabilities: vec![CapabilityVersion { capability: "native.start".to_owned(), version: 1 }],
    }
}

fn greeting(identity: RuntimeIdentity) -> Received {
    Ok(ServerFrame::Hello { runtime: runtime_description(), identity })
}

fn required_client(capability: &str, version: u64) -> Client {
    Client::new("unused.sock")
        .with_required_capabilities(vec![CapabilityVersion {
            capability: capability.to_owned(),
            version,
        }])
        .unwrap_or_else(|_| panic!("construct required-capability client"))
}

fn run_id(value: u128) -> RunId {
    RunId { value }
}

fn assert_unsupported(error: ClientError, name: &str, required: u64, advertised: Option<u64>) {
    assert_eq!(error.control_disposition(), Some(CommandDisposition::NotApplied));
    assert_eq!(
        error,
        ClientError::UnsupportedCapability {
            capability: name.to_owned(),
            required_version: required,
            advertised_version: advertised,
        }
    );
}

#[test]
fn client_rejects_unknown_runtime_manifest_versions() {
    let mut runtime = runtime_description();
    validate_runtime_description(&runtime).expect("accept current Runtime manifest");

    runtime.capabilities.version = RUNTIME_CAPABILITY_MANIFEST_VERSION + 1;
    assert_eq!(
        validate_runtime_description(&runtime),
        Err(ClientError::UnexpectedFrame("expected compatible hello"))
    );
    let mut older = runtime_description();
    older.protocol_generation = PROTOCOL_VERSION - 1;
    assert!(validate_runtime_description(&older).is_err());
}

#[test]
fn builder_rejects_versions_outside_the_shared_safe_integer_domain() {
    for required_version in [0, MAX_RUNTIME_CAPABILITY_VERSION + 1] {
        let result = Client::new("unused.sock").with_required_capabilities(vec![
            CapabilityVersion { capability: "candidate".to_owned(), version: required_version },
        ]);
        match result {
            Err(ClientError::InvalidCapabilityRequirement {
                capability,
                required_version: actual,
                maximum_version,
            }) => {
                assert_eq!(capability, "candidate");
                assert_eq!(actual, required_version);
                assert_eq!(maximum_version, MAX_RUNTIME_CAPABILITY_VERSION);
            }
            Err(error) => panic!("unexpected failure {error:?}"),
            Ok(_) => panic!("invalid requirement must fail at construction"),
        }
    }
    assert!(Client::new("unused.sock")
        .with_required_capabilities(vec![CapabilityVersion {
            capability: "future.exact_key".to_owned(),
            version: MAX_RUNTIME_CAPABILITY_VERSION,
        }])
        .is_ok());
}

#[test]
fn request_requirement_rejects_an_absent_exact_key_before_dispatch() {
    let client = required_client("toString", 1);
    let error = client
        .dispatch(greeting(identity_of(11)), ClientCall::List)
        .expect_err("an inherited object name is still an absent exact key");
    assert_unsupported(error, "toString", 1, None);
}

#[test]
fn attach_requirement_rejects_a_higher_version_before_dispatch() {
    let client = required_client("native.start", 2);
    let error = client
        .dispatch(
            greeting(identity_of(11)),
            ClientCall::Attach { id: run_id(1), after_byte: 0 },
        )
        .expect_err("a higher requirement must reject Attach locally");
    assert_unsupported(error, "native.start", 2, Some(1));
}

#[test]
fn control_requirement_is_typed_not_applied_before_dispatch() {
    let client = required_client("native.start", 2);
    let error = client
        .dispatch(
            greeting(identity_of(11)),
            ClientCall::Input { id: run_id(1), data: vec![1] },
        )
        .expect_err("a higher requirement must reject control locally");
    assert_unsupported(error, "native.start", 2, Some(1));
}

#[test]
fn expected_runtime_identity_fences_every_business_dispatch_path() {
    let calls = [
        ClientCall::List,
        ClientCall::Attach { id: run_id(1), after_byte: 0 },
        ClientCall::Input { id: run_id(1), data: vec![1] },
    ];
    for call in calls {
        let error = Client::new("unused.sock")
            .with_expected_runtime_identity(identity_of(11))
            .dispatch(greeting(identity_of(12)), call)
            .expect_err("a replacement Runtime must reject dispatch");
        assert_eq!(error.control_disposition(), Some(CommandDisposition::NotApplied));
        assert_eq!(
            error,
            ClientError::RuntimeIdentityMismatch {
                expected: Box::new(identity_of(11)),
                actual: Box::new(identity_of(12)),
            }
        );
    }
    assert_eq!(
        Client::new("unused.sock")
            .with_expected_runtime_identity(identity_of(11))
            .dispatch(greeting(identity_of(11)), ClientCall::List),
        Ok(ClientFrame::Request { request: Request::List })
    );
}

#[test]
fn configured_ping_and_runtime_info_remain_raw_identity_inspection() {
    let client = required_client("services.persistent_state", 1);
    assert_eq!(client.ping(greeting(identity_of(11))), Ok(()));
    assert_eq!(client.runtime_info(greeting(identity_of(11))), Ok(identity_of(11)));
    let fenced = Client::new("unused.sock").with_expected_runtime_identity(identity_of(11));
    assert_eq!(fenced.runtime_info(greeting(identity_of(12))), Ok(identity_of(12)));
    assert_eq!(
        fenced.daemon_instance(greeting(identity_of(12))),
        Ok(DaemonInstanceId { value: 12 })
    );
}

#[test]
fn a_connection_begins_with_the_own_protocol_and_a_compatible_greeting() {
    assert_eq!(hello(), ClientFrame::Hello { protocol: 13 });
    let client = Client::new("run/ctxmux.sock");
    assert_eq!(client.socket_path(), "run/ctxmux.sock");
    assert_eq!(
        client.ping(Ok(ServerFrame::Detached)),
        Err(ClientError::UnexpectedFrame("expected compatible hello"))
    );
    assert_eq!(
        client.ping(Ok(ServerFrame::Error {
            error: ProtocolError { code: ErrorCode::VersionMismatch, message: "old".to_owned() },
        })),
        Err(ClientError::Protocol { code: ErrorCode::VersionMismatch, message: "old".to_owned() })
    );
    // A control call says that nothing was applied when no daemon answers.
    assert_eq!(
        client.dispatch(Err(ClientError::Closed), ClientCall::Stop { id: run_id(1) }),
        Err(ClientError::ControlNotApplied { source: Box::new(ClientError::Closed) })
    );
    assert_eq!(
        client.dispatch(Err(ClientError::Closed), ClientCall::List),
        Err(ClientError::Closed)
    );
}

#[test]
fn every_call_sends_its_own_request() {
    let client = Client::new("unused.sock");
    let send = |call: ClientCall| {
        match client.dispatch(greeting(identity_of(11)), call) {
            Ok(ClientFrame::Request { request }) => request,
            other => panic!("expected a request, got {other:?}"),
        }
    };
    assert_eq!(send(ClientCall::List), Request::List);
    assert_eq!(send(ClientCall::Status { id: run_id(4) }), Request::Status { id: run_id(4) });
    assert_eq!(
        send(ClientCall::Interrupt { id: run_id(4) }),
        Request::Signal { id: run_id(4), signal: RunSignal::Interrupt }
    );
    assert_eq!(
        send(ClientCall::Attach { id: run_id(4), after_byte: 9 }),
        Request::Attach { id: run_id(4), after_byte: 9 }
    );
    assert_eq!(
        send(ClientCall::ImportTmux { socket_path: "/s".to_owned(), pane_id: "%0".to_owned() }),
        Request::ImportTmux { socket_path: "/s".to_owned(), pane_id: "%0".to_owned() }
    );
}

fn info(id: u128, latest: u64, applied: Option<u64>) -> RunInfo {
    RunInfo {
        id: run_id(id),
        spec: None,
        lineage: None,
        backend: RunBackend::Native,
        capabilities: native_capabilities(),
        pid: None,
        state: RunState::Running,
        latest_output_bytes: latest,
        durable_output_bytes: None,
        first_available_byte: 0,
        attachments: 1,
        applied_input_bytes: applied,
    }
}

fn snapshot(latest_output_bytes: u64) -> AttachedSnapshot {
    AttachedSnapshot {
        run: info(1, latest_output_bytes, Some(0)),
        replay: OutputReplay {
            chunks: Vec::new(),
            first_available_byte: 0,
            latest_output_bytes,
            truncated: false,
        },
    }
}

fn replay_frame(chunk: OutputChunk) -> Result<Option<ServerFrame>, ClientError> {
    Ok(Some(ServerFrame::Event { event: RunEvent::Output { chunk } }))
}

#[test]
fn replay_accepts_the_exact_advertised_byte_boundary() {
    let mut snapshot = snapshot(2);
    assert!(!replay_complete(&snapshot.replay, 0));
    receive_replay(
        &mut snapshot,
        0,
        replay_frame(OutputChunk { start_byte: 0, end_byte: 2, data: vec![0, 255] }),
    )
    .expect("accept exact replay boundary");
    assert_eq!(snapshot.replay.chunks[0].end_byte, 2);
    assert!(replay_complete(&snapshot.replay, 0));
    assert_eq!(replay_bytes(&snapshot.replay.chunks), vec![0, 255]);
}

#[test]
fn replay_rejects_overshoot_non_progress_and_eof() {
    for (label, chunk) in [
        ("overshoot", OutputChunk { start_byte: 0, end_byte: 2, data: vec![1, 2] }),
        ("non-progress", OutputChunk { start_byte: 0, end_byte: 0, data: Vec::new() }),
    ] {
        let mut snapshot = snapshot(1);
        assert_eq!(
            receive_replay(&mut snapshot, 0, replay_frame(chunk)),
            Err(ClientError::UnexpectedFrame("expected ordered replay output")),
            "{label} must fail closed"
        );
        assert!(snapshot.replay.chunks.is_empty(), "{label} was appended");
    }

    let mut snapshot = snapshot(1);
    assert_eq!(receive_replay(&mut snapshot, 0, Ok(None)), Err(ClientError::Closed));
}

#[test]
fn an_attachment_begins_with_the_advertised_replay() {
    let client = Client::new("unused.sock");
    let header = || AttachedSnapshotHeader {
        run: info(1, 5, None),
        replay: OutputReplayHeader {
            first_available_byte: 2,
            latest_output_bytes: 5,
            truncated: true,
        },
    };
    let attached =
        client.attach(Ok(ServerFrame::Attached { snapshot: header() })).expect("attached");
    assert_eq!(attached, begin_replay(header()));
    assert!(attached.replay.chunks.is_empty());
    assert!(attached.replay.truncated);
    assert_eq!(
        client.attach(Ok(ServerFrame::Detached)),
        Err(ClientError::UnexpectedFrame("expected attached snapshot"))
    );
}

#[test]
fn a_control_answer_is_read_with_its_disposition() {
    let client = Client::new("unused.sock").clone();
    assert_eq!(client.socket_path(), "unused.sock");
    assert!(ClientCall::Stop { id: run_id(1) }.is_control());
    assert!(!ClientCall::Status { id: run_id(1) }.is_control());
    let accepted = |receipt: ControlReceipt| {
        control_request(ControlExchange::HandedOver(Ok(ServerFrame::Response {
            response: Response::ControlAccepted { run: info(1, 0, None), receipt },
        })))
    };
    assert_eq!(
        client.input(3, accepted(ControlReceipt::Input { written_bytes: 3 })),
        Ok(ControlAccepted { run: info(1, 0, None), receipt: InputReceipt { written_bytes: 3 } })
    );
    let wrong = client
        .input(3, accepted(ControlReceipt::Input { written_bytes: 2 }))
        .expect_err("the byte count differs");
    assert_eq!(wrong.control_disposition(), Some(CommandDisposition::Unknown));
    let zero = client
        .resize(accepted(ControlReceipt::Resize {
            applied_size: TerminalSize { cols: 0, rows: 24 },
        }))
        .expect_err("a zero dimension proves nothing");
    assert_eq!(zero.control_disposition(), Some(CommandDisposition::Unknown));
    assert_eq!(
        client
            .stop(accepted(ControlReceipt::Stop { disposition: StopDisposition::Forced }))
            .map(|stopped| stopped.receipt.disposition),
        Ok(StopDisposition::Forced)
    );
    assert_eq!(
        client
            .interrupt(accepted(ControlReceipt::Signal { signal: RunSignal::Interrupt }))
            .map(|signalled| signalled.receipt.signal),
        Ok(RunSignal::Interrupt)
    );

    let rejected = control_request(ControlExchange::HandedOver(Ok(ServerFrame::Response {
        response: Response::ControlRejected {
            failure: ControlFailure {
                error: ProtocolError {
                    code: ErrorCode::RunNotFound,
                    message: "Run does not exist".to_owned(),
                },
                disposition: CommandDisposition::NotApplied,
            },
        },
    })));
    let error = client.stop(rejected).expect_err("rejected");
    assert_eq!(error.control_disposition(), Some(CommandDisposition::NotApplied));

    let unsent = control_request(ControlExchange::NotEncoded("frame is too long".to_owned()));
    assert_eq!(
        unsent,
        Err(ClientError::ControlNotApplied {
            source: Box::new(ClientError::Frame("frame is too long".to_owned())),
        })
    );
    let error = client.stop(unsent).expect_err("never sent");
    assert_eq!(error.control_disposition(), Some(CommandDisposition::NotApplied));
    let lost = control_request(ControlExchange::HandedOver(Err(ClientError::Closed)));
    let lost = client.stop(lost).expect_err("lost");
    assert_eq!(lost.control_disposition(), Some(CommandDisposition::Unknown));
}

#[test]
fn a_recoverable_input_is_proven_by_its_exact_range() {
    let client = Client::new("unused.sock");
    let operation = RecoverableInput {
        daemon_instance_id: DaemonInstanceId { value: 11 },
        id: run_id(1),
        operation_key: OperationKey { text: "k".to_owned(), defect: None },
        expected_byte: 10,
        data: vec![1, 2],
    };
    assert_eq!(client.recoverable_input_end(&operation), Ok(12));
    let answer = |start_byte: u64, end_byte: u64, applied: Option<u64>| {
        request(Ok(ServerFrame::Response {
            response: Response::InputApplied {
                run: info(1, 0, applied),
                range: AppliedInputRange { start_byte, end_byte },
            },
        }))
    };
    assert!(client.recoverable_input(run_id(1), 10, 12, answer(10, 12, Some(12))).is_ok());
    assert!(client.recoverable_input(run_id(1), 10, 12, answer(10, 12, Some(40))).is_ok());
    for wrong in [answer(9, 12, Some(12)), answer(10, 13, Some(13)), answer(10, 12, Some(11)),
        answer(10, 12, None)]
    {
        let error = client
            .recoverable_input(run_id(1), 10, 12, wrong)
            .expect_err("the answer proves another Input");
        assert_eq!(error.control_disposition(), Some(CommandDisposition::Unknown));
    }
    let far = RecoverableInput {
        daemon_instance_id: DaemonInstanceId { value: 11 },
        id: run_id(1),
        operation_key: OperationKey { text: "k".to_owned(), defect: None },
        expected_byte: u64::MAX,
        data: vec![1],
    };
    assert_eq!(
        client.recoverable_input_end(&far).unwrap_err().control_disposition(),
        Some(CommandDisposition::NotApplied)
    );
}

#[test]
fn answers_of_another_kind_are_unexpected() {
    let client = Client::new("unused.sock");
    let runs = || {
        request(Ok(ServerFrame::Response {
            response: Response::Runs { runs: vec![info(1, 0, None)] },
        }))
    };
    assert_eq!(client.list(runs()), Ok(vec![info(1, 0, None)]));
    assert_eq!(
        client.start(runs()),
        Err(ClientError::UnexpectedFrame("expected started response"))
    );
    assert_eq!(
        client.status(request(Ok(ServerFrame::Detached))),
        Err(ClientError::UnexpectedFrame("expected request response"))
    );
}
