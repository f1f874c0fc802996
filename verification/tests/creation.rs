use ctxmux::daemon::connection::{
    answer_request, execute_request, handle_connection, response_frame, ConnectionPhase,
    ConnectionStep, ControlWork, RequestStep, WorkOutcome,
};
use ctxmux::daemon::creation::{
    creation_owner_lost, materialize_creation, CommitOutcome, CreationPublication, CreationStep,
    FlightStep, PersistentPublicationPhase, PublishStep, StartFault,
};
use ctxmux::daemon::manager::{info, list, RunManager};
use ctxmux::daemon::owners::TerminalOrdinal;
use ctxmux::daemon::pending::PendingPublication;
use ctxmux::daemon::recovery::{recovered_durable_head, Adoption, PersistedRun};
use ctxmux::daemon::run::{DurableWork, OwnerCursors, PersistenceMode, RecoveredRun, Run};
use ctxmux::daemon::server::ServerError;
use ctxmux::daemon::shutdown::{tmux_operations_ended, ControlShutdown};
use ctxmux::daemon::upgrade::UpgradeRequestGate;
use ctxmux::identity::{DaemonInstanceId, RunId};
use ctxmux::protocol::{
    native_capabilities, ClientFrame, CommandDisposition, ControlReceipt, ErrorCode,
    ForkFidelity, ForkPlan, InterruptionReason, OperationKey, OutputReplay, ProtocolError, RecoverableInput, Request,
    Response, RunBackend, RunInfo, RunLineage, RunSpec, RunState, ServerFrame, StopDisposition,
    TerminalSize, TmuxPaneInfo,
};
use ctxmux::run_spec::CreationRequest;

fn spec(program: &str) -> RunSpec {
    RunSpec {
        program: program.to_owned(),
        args: Vec::new(),
        cwd: None,
        env: vec![("TERM".to_owned(), "xterm".to_owned())],
        size: TerminalSize { cols: 80, rows: 24 },
        declared_inputs: Vec::new(),
    }
}

fn start(program: &str) -> CreationRequest {
    CreationRequest::Start { spec: spec(program) }
}

fn key(text: &str) -> OperationKey {
    OperationKey { text: text.to_owned(), defect: None }
}

fn id(value: u128) -> RunId {
    RunId { value }
}

fn manager(persistent: bool) -> RunManager {
    RunManager::new(DaemonInstanceId { value: 7 }, 1_000_000, persistent)
}

fn native(value: u128, mode: PersistenceMode) -> Run {
    Run::new_native(id(value), spec("/bin/sh"), None, Some(5), mode)
}

fn cursors() -> OwnerCursors {
    OwnerCursors { applied_input_bytes: 0, durable_output_bytes: 0 }
}

/// Create a memory-only Run as far as its publication.
fn create(manager: &mut RunManager, name: &str, value: u128) -> Run {
    let CreationStep::Execute(made) = manager.create(&key(name), start("/bin/sh"), None, false)
    else {
        panic!("the key is free");
    };
    assert!(matches!(manager.begin_creation_flight(), FlightStep::Begun));
    manager.reserve_creation().expect("a slot is free");
    let ticket = manager
        .prepare_creation_publication(key(name), made.request.copied(), id(value), Ok(0))
        .expect("a place is free");
    let run = Run::new_native(
        id(value),
        made.spec,
        made.lineage,
        Some(5),
        manager.persistence_mode(),
    );
    let pending = PendingPublication { key: key(name), request: made.request, run: id(value) };
    let removed = manager.publish_memory_creation(ticket, pending, run.facts(true, false, None));
    assert!(removed.is_empty());
    manager.creation_flights.finish();
    run
}

#[test]
fn a_retried_creation_returns_the_same_run() {
    let mut manager = manager(false);
    create(&mut manager, "deploy", 1);
    assert_eq!(
        manager.create(&key("deploy"), start("/bin/sh"), None, false),
        CreationStep::Existing(id(1))
    );
    let CreationStep::Refused(error) =
        manager.create(&key("deploy"), start("/bin/other"), None, false)
    else {
        panic!("the key belongs to another request");
    };
    assert_eq!(error.code, ErrorCode::CreationConflict);
    let broken = OperationKey { text: String::new(), defect: Some("key is empty".to_owned()) };
    assert_eq!(
        manager.create(&broken, start("/bin/sh"), None, false),
        CreationStep::Refused(ProtocolError {
            code: ErrorCode::InvalidRequest,
            message: "key is empty".to_owned(),
        })
    );
    assert_eq!(manager.unpublished_cleanups.owned_count(), 0);
    assert_eq!(manager.creation_flights.active_count(), 0);
}

#[test]
fn the_order_of_variables_does_not_make_another_request() {
    let ordered = |names: &[(&str, &str)]| {
        let mut spec = spec("/bin/sh");
        spec.env = names
            .iter()
            .map(|(name, value)| ((*name).to_owned(), (*value).to_owned()))
            .collect();
        CreationRequest::Start { spec }
    };
    let request = ordered(&[("A", "1"), ("B", "2")]);
    assert!(request.same(&ordered(&[("B", "2"), ("A", "1")])));
    assert!(request.same(&ordered(&[("A", "0"), ("B", "2"), ("A", "1")])));
    assert!(!request.same(&ordered(&[("A", "1")])));
    assert!(!ordered(&[("A", "1")]).same(&request));
    assert!(!request.same(&ordered(&[("A", "1"), ("B", "3")])));
}

#[test]
fn run_spec_semantics_map_to_invalid_request_for_start_fork_and_resize() {
    let mut manager = manager(false);
    let CreationStep::Refused(start_error) =
        manager.create(&key("empty"), start(""), None, false)
    else {
        panic!("empty start program must fail");
    };
    assert_eq!(start_error.code, ErrorCode::InvalidRequest);
    assert_eq!(start_error.message, "Run program must not be empty");

    let parent = create(&mut manager, "parent", 1);
    let fork = CreationRequest::Fork {
        parent: id(1),
        plan: ForkPlan::LevelB { spec: spec("") },
    };
    let CreationStep::Refused(fork_error) =
        manager.create(&key("fork"), fork, Some(&parent), true)
    else {
        panic!("invalid materialized fork must fail");
    };
    assert_eq!(fork_error.code, ErrorCode::InvalidRequest);
    assert_eq!(fork_error.message, "Run program must not be empty");

    let resize_error = parent
        .begin_resize(TerminalSize { cols: 0, rows: 24 })
        .expect_err("zero-width resize must fail");
    assert_eq!(resize_error.error.code, ErrorCode::InvalidRequest);
    assert_eq!(
        resize_error.error.message,
        "terminal rows and columns must be greater than zero"
    );
}

#[test]
fn forks_take_what_their_level_allows() {
    let parent = native(1, PersistenceMode::MemoryOnly);
    let level_a = || CreationRequest::Fork { parent: id(1), plan: ForkPlan::LevelA };
    let made = materialize_creation(level_a(), Some(&parent), false).expect("portable");
    assert_eq!(made.spec, spec("/bin/sh"));
    assert_eq!(
        made.lineage,
        Some(RunLineage { parent: id(1), fidelity: ForkFidelity::LevelA })
    );
    let start_info = made.persistence_start_info(id(9));
    assert_eq!(start_info.state, RunState::Running);
    assert_eq!(start_info.durable_output_bytes, Some(0));

    let level_b = || CreationRequest::Fork {
        parent: id(1),
        plan: ForkPlan::LevelB { spec: spec("/bin/zsh") },
    };
    let error = materialize_creation(level_b(), Some(&parent), false)
        .expect_err("no live continuation");
    assert_eq!(error.code, ErrorCode::InvalidRunState);
    assert_eq!(
        error.message,
        "cannot Level B fork Run 00000000-0000-0000-0000-000000000001 without live continuation authority"
    );
    let made = materialize_creation(level_b(), Some(&parent), true).expect("live");
    assert_eq!(made.spec, spec("/bin/zsh"));

    let observed = Run::new_tmux(
        id(1),
        &TmuxPaneInfo {
            socket_path: "/t".to_owned(),
            server_pid: 1,
            server_started_at: 1,
            session_id: "$0".to_owned(),
            window_id: "@0".to_owned(),
            pane_id: "%0".to_owned(),
            pane_pid: 2,
            tmux_version: "3.4".to_owned(),
        },
    );
    let error = materialize_creation(level_a(), Some(&observed), true).expect_err("read-only");
    assert_eq!(error.code, ErrorCode::UnsupportedCapability);
    assert_eq!(
        error.message,
        "Run 00000000-0000-0000-0000-000000000001 backend does not support the requested fork"
    );

    let mut manager = manager(false);
    let CreationStep::Refused(error) = manager.create(&key("orphan"), level_a(), None, false)
    else {
        panic!("the parent does not exist");
    };
    assert_eq!(error.code, ErrorCode::RunNotFound);
}

#[test]
fn creation_slots_are_given_back_on_every_refusal() {
    let mut manager = manager(false);
    assert!(matches!(manager.begin_creation_flight(), FlightStep::Begun));
    manager.reserve_creation().unwrap();
    let error = manager.creation_owner_not_started("no thread");
    assert_eq!(error.code, ErrorCode::Internal);
    assert_eq!(error.message, "failed to start Run creation owner: no thread");
    assert_eq!(manager.unpublished_cleanups.owned_count(), 0);
    assert_eq!(manager.creation_flights.active_count(), 0);
    assert_eq!(
        creation_owner_lost("gone").message,
        "Run creation owner ended without a result: gone"
    );
    manager.creation_flights.fence();
    let FlightStep::Refused(error) = manager.begin_creation_flight() else {
        panic!("shutdown refuses creation");
    };
    assert_eq!(error.message, "ctxmux daemon is shutting down");
}

/// A durable creation up to its staged transaction.
fn staged(manager: &mut RunManager, name: &str, value: u128) -> (u64, PendingPublication, Run) {
    assert!(matches!(manager.begin_creation_flight(), FlightStep::Begun));
    manager.reserve_creation().unwrap();
    let ticket = manager
        .prepare_creation_publication(key(name), start("/bin/sh"), id(value), Ok(100))
        .expect("a place is free");
    let pending =
        PendingPublication { key: key(name), request: start("/bin/sh"), run: id(value) };
    (ticket, pending, native(value, PersistenceMode::PersistentCapable))
}

fn fault(message: &str) -> StartFault {
    StartFault { capacity: false, commit_unknown: false, message: message.to_owned() }
}

#[test]
fn a_durable_creation_is_public_after_its_commit() {
    let mut manager = manager(true);
    let error = manager
        .prepare_creation_publication(
            key("x"),
            start("/bin/sh"),
            id(9),
            Err("state is closed".to_owned()),
        )
        .expect_err("the record cannot be prepared");
    assert_eq!(error.code, ErrorCode::Persistence);

    let (ticket, pending, mut run) = staged(&mut manager, "durable", 1);
    let mut owner = manager.stage_publication(ticket, Ok(())).expect("staged");
    owner.begin_commit();
    let outcome = CommitOutcome::Committed { metadata_bytes: 90, post_commit_error: None };
    owner.commit(&outcome);
    assert_eq!(owner.phase, PersistentPublicationPhase::CommittedUnpublished);
    let facts = run.facts(true, false, None);
    match manager.publish_persistent_creation(owner, pending, facts, &mut run, outcome) {
        PublishStep::Published { removed, effects, answer } => {
            assert!(removed.is_empty());
            assert!(matches!(effects.durable, Some(DurableWork::Append { .. })));
            assert_eq!(answer, Ok(()));
        }
        PublishStep::CleanUp { .. } => panic!("the commit succeeded"),
    }
    assert_eq!(manager.pin(id(1)), Ok(()));
    assert_eq!(manager.registry.projected_metadata_bytes(), 90);
    assert_eq!(manager.unpublished_cleanups.owned_count(), 0);
}

#[test]
fn a_commit_that_failed_for_sure_is_rolled_back() {
    let mut manager = manager(true);
    let (ticket, pending, mut run) = staged(&mut manager, "durable", 1);
    let mut owner = manager.stage_publication(ticket, Ok(())).expect("staged");
    owner.begin_commit();
    let outcome = CommitOutcome::NotCommitted(fault("disk full"));
    owner.commit(&outcome);
    let facts = run.facts(true, false, None);
    let PublishStep::CleanUp { pending, failure } =
        manager.publish_persistent_creation(owner, pending, facts, &mut run, outcome)
    else {
        panic!("nothing was committed");
    };
    let error = manager.finish_failed_publication(pending, failure, Ok(()));
    assert_eq!((error.code, error.message.as_str()), (ErrorCode::Persistence, "disk full"));
    assert_eq!(manager.pin(id(1)).expect_err("private").code, ErrorCode::RunNotFound);
    assert_eq!(manager.unpublished_cleanups.owned_count(), 0);
    assert_eq!(manager.incarnation_failure.message(), None);
}

#[test]
fn a_commit_that_may_have_happened_fails_the_incarnation() {
    let mut manager = manager(true);
    let (ticket, pending, mut run) = staged(&mut manager, "durable", 1);
    let owner = manager.stage_publication(ticket, Ok(())).expect("staged");
    let outcome = CommitOutcome::Unknown(fault("connection lost"));
    let facts = run.facts(true, false, None);
    let PublishStep::CleanUp { pending, failure } =
        manager.publish_persistent_creation(owner, pending, facts, &mut run, outcome)
    else {
        panic!("the outcome is unknown");
    };
    assert_eq!(manager.commit_unknown_reservations, vec![ticket]);
    assert_eq!(
        manager.incarnation_failure.message(),
        Some(
            "persistent start COMMIT outcome is unknown; restart is required: connection lost"
                .to_owned()
        )
    );
    assert!(matches!(manager.begin_creation_flight(), FlightStep::Refused(_)));
    let error =
        manager.finish_failed_publication(pending, failure, Err("reader lives".to_owned()));
    assert_eq!(
        error.message,
        "connection lost; cleanup pending after unknown COMMIT: reader lives"
    );
    assert_eq!(manager.unpublished_cleanups.owned_count(), 1);
    // The key stays reserved for the start that may have been committed.
    let CreationStep::Refused(error) =
        manager.create(&key("durable"), start("/bin/sh"), None, false)
    else {
        panic!("nobody knows whether the Run exists");
    };
    assert_eq!(error.code, ErrorCode::BackendUnavailable);
}

#[test]
fn a_publication_that_is_left_is_rolled_back_or_kept() {
    let mut memory = manager(false);
    let (ticket, _, _) = staged(&mut memory, "m", 1);
    let spawn_error =
        ProtocolError { code: ErrorCode::SpawnFailed, message: "no child".to_owned() };
    let error = memory.abort_publication(
        CreationPublication::Memory { ticket },
        spawn_error,
        Ok(()),
    );
    assert_eq!(error.code, ErrorCode::SpawnFailed);

    let mut durable = manager(true);
    let (ticket, _, _) = staged(&mut durable, "d", 1);
    let owner = durable.stage_publication(ticket, Ok(())).unwrap();
    let spawn_error =
        ProtocolError { code: ErrorCode::SpawnFailed, message: "no child".to_owned() };
    let error = durable.abort_publication(
        CreationPublication::Persistent(owner),
        spawn_error,
        Err(fault("rollback failed")),
    );
    assert_eq!(error.code, ErrorCode::Persistence);
    assert_eq!(error.message, "no child; persistent rollback: rollback failed");

    let (ticket, _, _) = staged(&mut durable, "e", 2);
    let mut owner = durable.stage_publication(ticket, Ok(())).unwrap();
    owner.begin_commit();
    durable.unwind_publication(owner, Ok(()));
    assert_eq!(durable.commit_unknown_reservations, vec![ticket]);
    assert!(durable
        .incarnation_failure
        .message()
        .unwrap()
        .contains("persistent publication unwound after durable disposition began"));
}

#[test]
fn imports_are_memory_only_and_hold_one_slot() {
    let mut durable = manager(true);
    assert_eq!(
        durable.import_tmux(id(1)).expect_err("not persisted").message,
        "tmux pane import is not persisted; use a memory-only ctxmux daemon"
    );
    let mut memory = manager(false);
    let ticket = memory.import_tmux(id(1)).expect("a place is free");
    assert_eq!(memory.unpublished_cleanups.owned_count(), 1);
    let run = native(1, PersistenceMode::MemoryOnly);
    memory.publish_tmux_import(ticket, run.facts(true, false, None));
    assert_eq!(memory.unpublished_cleanups.owned_count(), 0);
    assert_eq!(memory.pin(id(1)), Ok(()));
    memory.fence_owned_work();
    assert_eq!(
        memory.import_tmux(id(2)).expect_err("shutting down").message,
        "ctxmux daemon is shutting down"
    );
}

#[test]
fn runs_are_listed_by_identity() {
    let run_info = |value: u128| native(value, PersistenceMode::MemoryOnly).info(cursors());
    let listed = list(vec![run_info(0x20), run_info(0x3), run_info(0x11)]);
    let ids: Vec<u128> = listed.iter().map(|run| run.id.value).collect();
    assert_eq!(ids, vec![0x3, 0x11, 0x20]);
    let run = native(4, PersistenceMode::MemoryOnly);
    assert_eq!(info(id(4), Some(&run), cursors()).map(|run| run.id), Ok(id(4)));
    assert_eq!(
        info(id(4), None, cursors()),
        Err(ProtocolError {
            code: ErrorCode::RunNotFound,
            message: "Run 00000000-0000-0000-0000-000000000004 does not exist".to_owned(),
        })
    );
}

#[test]
fn a_connection_is_greeted_and_carries_one_request() {
    let mut gate = UpgradeRequestGate::new();
    let hello = |protocol: u32| Some(ClientFrame::Hello { protocol });
    assert_eq!(
        handle_connection(ConnectionPhase::AwaitHello, hello(13), &mut gate),
        ConnectionStep::Greet
    );
    assert_eq!(
        handle_connection(ConnectionPhase::AwaitHello, hello(12), &mut gate),
        ConnectionStep::Refuse(ServerFrame::Error {
            error: ProtocolError {
                code: ErrorCode::VersionMismatch,
                message: "client protocol 12 does not match daemon protocol 13".to_owned(),
            },
        })
    );
    assert_eq!(
        handle_connection(ConnectionPhase::AwaitHello, None, &mut gate),
        ConnectionStep::Refuse(ServerFrame::Error {
            error: ProtocolError {
                code: ErrorCode::InvalidRequest,
                message: "first frame must be hello".to_owned(),
            },
        })
    );
    assert_eq!(
        handle_connection(ConnectionPhase::AwaitRequest, hello(13), &mut gate),
        ConnectionStep::Refuse(ServerFrame::Error {
            error: ProtocolError {
                code: ErrorCode::InvalidRequest,
                message: "expected request after hello".to_owned(),
            },
        })
    );
    let request = || Some(ClientFrame::Request { request: Request::List });
    assert_eq!(
        handle_connection(ConnectionPhase::AwaitRequest, request(), &mut gate),
        ConnectionStep::Execute(Request::List)
    );
    assert_eq!(gate.active(), 1);
    gate.begin_drain().unwrap();
    assert!(matches!(
        handle_connection(ConnectionPhase::AwaitRequest, request(), &mut gate),
        ConnectionStep::Retry(ServerFrame::Error { error })
            if error.code == ErrorCode::BackendUnavailable
    ));
    assert_eq!(gate.active(), 2);
    let attach =
        Some(ClientFrame::Request { request: Request::Attach { id: id(1), after_byte: 4 } });
    let mut open = UpgradeRequestGate::new();
    assert_eq!(
        handle_connection(ConnectionPhase::AwaitRequest, attach, &mut open),
        ConnectionStep::Attach { id: id(1), after_byte: 4 }
    );
}

#[test]
fn requests_name_the_work_they_need() {
    let mut manager = manager(false);
    create(&mut manager, "k", 1);
    assert_eq!(
        execute_request(&manager, Request::Stop { id: id(1) }),
        RequestStep::Control { id: id(1), work: ControlWork::Stop }
    );
    let RequestStep::Answered(Ok(Response::ControlRejected { failure })) =
        execute_request(&manager, Request::Input { id: id(2), data: vec![1] })
    else {
        panic!("the Run does not exist");
    };
    assert_eq!(failure.disposition, CommandDisposition::NotApplied);
    assert_eq!(failure.error.code, ErrorCode::RunNotFound);

    let operation = |instance: u128| RecoverableInput {
        daemon_instance_id: DaemonInstanceId { value: instance },
        id: id(1),
        operation_key: key("input"),
        expected_byte: 0,
        data: vec![1],
    };
    let RequestStep::Answered(Ok(Response::ControlRejected { failure })) =
        execute_request(&manager, Request::RecoverableInput { operation: operation(8) })
    else {
        panic!("another incarnation");
    };
    assert_eq!(failure.error.code, ErrorCode::DaemonInstanceMismatch);
    assert_eq!(
        execute_request(&manager, Request::RecoverableInput { operation: operation(7) }),
        RequestStep::RecoverableInput { operation: operation(7) }
    );
    let RequestStep::Answered(Err(error)) =
        execute_request(&manager, Request::Attach { id: id(1), after_byte: 0 })
    else {
        panic!("attachments have their own handler");
    };
    assert_eq!(error.message, "attach request reached short-lived request handler");
}

#[test]
fn answers_carry_what_came_out_of_the_work() {
    let run = || native(1, PersistenceMode::MemoryOnly).info(cursors());
    assert_eq!(
        answer_request(WorkOutcome::Created { run: Ok(run()), forked: true }),
        Ok(Response::Forked { run: run() })
    );
    assert_eq!(
        answer_request(WorkOutcome::Created { run: Ok(run()), forked: false }),
        Ok(Response::Started { run: run() })
    );
    let receipt = ControlReceipt::Stop { disposition: StopDisposition::Graceful };
    assert_eq!(
        response_frame(answer_request(WorkOutcome::Control { run: run(), result: Ok(receipt) })),
        ServerFrame::Response { response: Response::ControlAccepted { run: run(), receipt } }
    );
    assert_eq!(
        answer_request(WorkOutcome::WorkerLost("panicked".to_owned())),
        Err(ProtocolError {
            code: ErrorCode::BackendUnavailable,
            message: "tmux operation worker failed: panicked".to_owned(),
        })
    );
}

fn persisted(value: u128, state: RunState) -> PersistedRun {
    PersistedRun {
        recovered: RecoveredRun {
            info: RunInfo {
                id: id(value),
                spec: Some(spec("/bin/sh")),
                lineage: None,
                backend: RunBackend::Native,
                capabilities: native_capabilities(),
                pid: Some(3),
                state,
                latest_output_bytes: 8,
                durable_output_bytes: None,
                first_available_byte: 0,
                attachments: 0,
                applied_input_bytes: None,
            },
            replay: OutputReplay {
                chunks: Vec::new(),
                first_available_byte: 0,
                latest_output_bytes: 8,
                truncated: true,
            },
        },
        operation_key: key(&format!("key-{value}")),
        metadata_bytes: 10,
    }
}

#[test]
fn an_upgrade_brings_live_runs_back_alive_and_history_back_ended() {
    let exited = || RunState::Exited { code: 0, signal: None };
    let mut incoming = manager(true);
    let adoptions = vec![Adoption { id: id(2), outcome: Ok(777) }];
    let runs = incoming
        .persistent_with_handoff(
            vec![persisted(1, exited()), persisted(2, RunState::Running), persisted(3, exited())],
            &adoptions,
        )
        .unwrap_or_else(|error| panic!("every adoption succeeded: {error:?}"));
    assert_eq!(runs.len(), 3);
    assert_eq!(runs[0].collection_ordinal(false), Some(TerminalOrdinal { number: 1 }));
    assert_eq!(runs[2].collection_ordinal(false), Some(TerminalOrdinal { number: 2 }));
    assert_eq!(runs[1].info(cursors()).pid, Some(777));
    assert_eq!(runs[1].begin_control(), Ok(()));
    assert!(runs[0].begin_control().is_err());
    assert_eq!(incoming.pin(id(2)), Ok(()));
    assert_eq!(incoming.registry.projected_metadata_bytes(), 30);
    let again = start("/bin/sh");
    assert_eq!(incoming.resolve_creation(&key("key-1"), &again), Ok(Some(id(1))));
    assert_eq!(incoming.resolve_creation(&key("key-4"), &again), Ok(None));
    assert_eq!(recovered_durable_head(&runs[0].info(cursors())), 0);
    assert_eq!(recovered_durable_head(&persisted(1, exited()).recovered.info), 8);

    let mut restarted = manager(true);
    let runs = restarted
        .persistent_with_handoff(vec![persisted(1, RunState::Running)], &Vec::new())
        .unwrap_or_else(|error| panic!("nothing was adopted: {error:?}"));
    assert_eq!(
        runs[0].info(cursors()).state,
        RunState::Interrupted { reason: InterruptionReason::DaemonRestart }
    );
    assert!(runs[0].begin_control().is_err());

    let mut failed = manager(true);
    let adoptions = vec![Adoption {
        id: id(1),
        outcome: Err(ProtocolError {
            code: ErrorCode::SpawnFailed,
            message: "failed to adopt re-adopted child: ESRCH".to_owned(),
        }),
    }];
    match failed.persistent_with_handoff(vec![persisted(1, RunState::Running)], &adoptions) {
        Err(error) => assert_eq!(error.message, "failed to adopt re-adopted child: ESRCH"),
        Ok(_) => panic!("the child could not be adopted"),
    }
}

#[test]
fn shutdown_reports_every_failure_once_and_sorted() {
    let mut manager = manager(false);
    let tmux = |value: u128| {
        let run = native(value, PersistenceMode::MemoryOnly);
        let mut facts = run.facts(true, false, None);
        facts.tmux_controlled = true;
        facts
    };
    for value in [1_u128, 2, 3] {
        let ticket = manager.import_tmux(id(value)).expect("a place is free");
        manager.publish_tmux_import(ticket, tmux(value));
    }
    let ticket = manager.import_tmux(id(4)).expect("a place is free");
    let lost = native(4, PersistenceMode::MemoryOnly);
    manager.publish_tmux_import(
        ticket,
        lost.facts(true, false, Some("fixture wait authority lost".to_owned())),
    );
    manager.fence_owned_work();
    assert_eq!(tmux_operations_ended(false, false), None);
    assert_eq!(tmux_operations_ended(false, true), Some(false));

    let mut shutdown = ControlShutdown::begin(&manager, true);
    assert_eq!(*shutdown.pending(), vec![id(1), id(2), id(3)]);
    let first_look = vec![Some(Ok(())), None, Some(Err("killed twice".to_owned()))];
    assert!(!shutdown.poll(&first_look, false), "one control is still pending");
    assert_eq!(*shutdown.pending(), vec![id(2)]);
    assert!(shutdown.poll(&vec![None], true), "the deadline ends the wait");
    assert!(shutdown.pending().is_empty());
    let error = shutdown
        .shutdown_owned_controls(false, vec!["Run x".to_owned()], &manager)
        .expect_err("much is left");
    let run = |value: u128| format!("Run {}", id(value).to_text());
    assert_eq!(
        error,
        ServerError::Shutdown {
            failures: [
                format!("{}: timed out waiting for tmux control cleanup", run(2)),
                format!("{}: killed twice", run(3)),
                format!("{}: fixture wait authority lost", run(4)),
                "timed out waiting for in-flight Run creation to finish".to_owned(),
                "unpublished Run cleanup Run x".to_owned(),
            ]
            .join("; "),
        }
    );

    let idle = RunManager::new(DaemonInstanceId { value: 1 }, 0, false);
    let clean = ControlShutdown::begin(&idle, true);
    assert_eq!(clean.shutdown_owned_controls(true, Vec::new(), &idle), Ok(()));
    let late = ControlShutdown::begin(&idle, false);
    assert_eq!(
        late.shutdown_owned_controls(true, Vec::new(), &idle),
        Err(ServerError::Shutdown {
            failures: "timed out waiting for an in-flight tmux operation to finish".to_owned(),
        })
    );
}
