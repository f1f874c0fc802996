use ctxmux::daemon::launch::{
    exit_state, readopt, reject_child, spawn_error, spawn_with_hooks, ChildDisposal, LaunchStage,
    LaunchStep, NativeLaunch, ReadoptStage, ReadoptStep, ReapRecord, StageOutcome,
};
use ctxmux::daemon::manager::RunManager;
use ctxmux::daemon::pending::{PendingPublication, TerminationStep, UnpublishedTermination};
use ctxmux::daemon::pty::{pty_size_from, to_pty_size, winsize_from};
use ctxmux::daemon::run::{OwnerCursors, PersistenceMode, Run};
use ctxmux::identity::{DaemonInstanceId, RunId};
use ctxmux::protocol::{ErrorCode, OperationKey, ProtocolError, RunSpec, RunState, TerminalSize};
use ctxmux::run_spec::CreationRequest;

fn long_running_spec() -> RunSpec {
    RunSpec {
        program: "/bin/cat".to_owned(),
        args: Vec::new(),
        cwd: None,
        env: Vec::new(),
        size: TerminalSize { cols: 80, rows: 24 },
        declared_inputs: Vec::new(),
    }
}

fn launch() -> NativeLaunch {
    NativeLaunch::new(
        RunId { value: 1 },
        long_running_spec(),
        None,
        PersistenceMode::MemoryOnly,
    )
    .expect("a valid specification")
}

/// Perform stages until `stage` is reached.
fn launch_at(stage: LaunchStage) -> NativeLaunch {
    let mut current = launch();
    while current.stage != stage {
        let outcome = match current.stage {
            LaunchStage::IdentifyChild => StageOutcome::Child(4321),
            _ => StageOutcome::Done,
        };
        current = match spawn_with_hooks(current, outcome) {
            LaunchStep::Perform(next) => next,
            _ => panic!("the launch ended before {stage:?}"),
        };
    }
    current
}

fn key(text: &str) -> OperationKey {
    OperationKey { text: text.to_owned(), defect: None }
}

#[test]
fn post_spawn_setup_failures_terminate_reap_and_publish_nothing() {
    for failed_step in [
        LaunchStage::SetupCloneReader,
        LaunchStage::SetupTakeWriter,
        LaunchStage::SetupRegisterOutputOwner,
        LaunchStage::SetupRegisterWaitOwner,
    ] {
        let mut manager = RunManager::new(DaemonInstanceId { value: 1 }, u64::MAX, false);
        let operation_key = format!("post-spawn-setup-{failed_step:?}");
        manager.unpublished_cleanups.reserve().expect("reserve the overlap slot");
        let current = launch_at(failed_step);
        let pid = current.pid;
        let step = spawn_with_hooks(
            current,
            StageOutcome::Rejected(spawn_error("complete injected setup step", "fixture")),
        );
        let LaunchStep::Failed { error, disposal } = step else {
            panic!("injected setup failure rejects start");
        };
        assert_eq!(error.code, ErrorCode::SpawnFailed);
        assert_eq!(manager.registry.list_summaries_after(None, 10).0, Vec::new());

        if matches!(
            failed_step,
            LaunchStage::SetupRegisterOutputOwner | LaunchStage::SetupRegisterWaitOwner
        ) {
            assert_eq!(pid, Some(4321));
            assert_eq!(
                disposal,
                ChildDisposal { close_control: true, reap: true, record: true }
            );
            let pending = PendingPublication {
                key: key(&operation_key),
                request: CreationRequest::Start { spec: long_running_spec() },
                run: RunId { value: 1 },
            };
            pending.abandon(&mut manager.unpublished_cleanups, Ok(()));
            assert_eq!(manager.unpublished_cleanups.owned_count(), 1);
            assert_eq!(manager.unpublished_cleanups.prune_and_report().len(), 1);
            let matching = manager
                .unpublished_cleanups
                .resolve_fence(
                    &key(&operation_key),
                    &CreationRequest::Start { spec: long_running_spec() },
                )
                .expect_err("matching setup retry remains fenced");
            assert_eq!(matching.code, ErrorCode::BackendUnavailable);
            let mut conflicting_spec = long_running_spec();
            conflicting_spec.args.push("different".to_owned());
            let conflicting = manager
                .unpublished_cleanups
                .resolve_fence(
                    &key(&operation_key),
                    &CreationRequest::Start { spec: conflicting_spec },
                )
                .expect_err("conflicting setup retry sees the same fence");
            assert_eq!(conflicting.code, ErrorCode::CreationConflict);
            manager.unpublished_cleanups.note_cleanup(RunId { value: 1 }, &Ok(()));
            assert!(manager.unpublished_cleanups.prune_and_report().is_empty());
        } else {
            assert_eq!(pid, None, "PTY views are prepared before spawn");
            assert_eq!(
                disposal,
                ChildDisposal { close_control: false, reap: false, record: false }
            );
            manager.unpublished_cleanups.release();
            assert_eq!(manager.unpublished_cleanups.owned_count(), 0);
        }
    }
}

#[test]
fn a_launch_that_succeeds_yields_its_run() {
    let LaunchStep::Launched(run) =
        spawn_with_hooks(launch_at(LaunchStage::RegisterOwner), StageOutcome::Done)
    else {
        panic!("the registered child has a Run");
    };
    let info = run.info(OwnerCursors { applied_input_bytes: 0, durable_output_bytes: 0 });
    assert_eq!(info.id, RunId { value: 1 });
    assert_eq!(info.pid, Some(4321));
    assert_eq!(info.state, RunState::Running);
}

#[test]
fn every_failed_stage_says_what_failed() {
    let failed = |stage: LaunchStage, outcome: StageOutcome| {
        match spawn_with_hooks(launch_at(stage), outcome) {
            LaunchStep::Failed { error, disposal } => (error.message, disposal.reap),
            _ => panic!("the stage failed"),
        }
    };
    let fault = || StageOutcome::Failed("EIO".to_owned());
    assert_eq!(
        failed(LaunchStage::OpenPty, fault()),
        ("failed to open PTY: EIO".to_owned(), false)
    );
    assert_eq!(
        failed(LaunchStage::IdentifyReader, StageOutcome::Missing),
        (
            "failed to identify PTY reader: native PTY master does not expose a raw descriptor"
                .to_owned(),
            false
        )
    );
    assert_eq!(
        failed(LaunchStage::CloneReader, fault()),
        ("failed to clone PTY reader: EIO".to_owned(), false)
    );
    assert_eq!(
        failed(LaunchStage::TakeWriter, fault()),
        ("failed to take PTY writer: EIO".to_owned(), false)
    );
    assert_eq!(
        failed(LaunchStage::SpawnChild, fault()),
        ("failed to spawn child: EIO".to_owned(), false)
    );
    assert_eq!(
        failed(LaunchStage::IdentifyChild, StageOutcome::Missing),
        ("failed to identify native session: child PID is unavailable".to_owned(), true)
    );
    assert_eq!(
        failed(LaunchStage::IdentifySession, fault()),
        ("failed to identify native session: EIO".to_owned(), true)
    );
    assert_eq!(
        failed(LaunchStage::RegisterOwner, fault()),
        ("failed to register native Run owner: EIO".to_owned(), true)
    );
}

#[test]
fn an_empty_program_is_refused_before_anything_is_opened() {
    let mut spec = long_running_spec();
    spec.program.clear();
    let error =
        NativeLaunch::new(RunId { value: 1 }, spec, None, PersistenceMode::MemoryOnly)
            .expect_err("empty start program must fail");
    assert_eq!(
        error,
        ProtocolError {
            code: ErrorCode::InvalidRequest,
            message: "Run program must not be empty".to_owned(),
        }
    );
}

#[test]
fn a_rejected_child_is_recorded_at_its_control() {
    assert_eq!(reject_child(Ok(()), Ok(())), vec![ReapRecord::Reaped]);
    assert_eq!(
        reject_child(Err("EPERM".to_owned()), Err("ECHILD".to_owned())),
        vec![
            ReapRecord::CleanupError(
                "failed to terminate rejected unpublished child: EPERM".to_owned()
            ),
            ReapRecord::WaitError("failed to reap rejected unpublished child: ECHILD".to_owned()),
        ]
    );
    assert_eq!(
        exit_state(3, Some("SIGTERM".to_owned())),
        RunState::Exited { code: 3, signal: Some("SIGTERM".to_owned()) }
    );
}

#[test]
fn a_readoption_reaps_only_a_child_that_it_owns() {
    assert_eq!(
        readopt(ReadoptStage::CloneReader, Ok(())),
        ReadoptStep::Perform(ReadoptStage::CloneWriter)
    );
    assert_eq!(readopt(ReadoptStage::RegisterOwner, Ok(())), ReadoptStep::Adopted);
    match readopt(ReadoptStage::AdoptChild, Err("ESRCH".to_owned())) {
        ReadoptStep::Failed { error, reap } => {
            assert_eq!(error.message, "failed to adopt re-adopted child: ESRCH");
            assert!(!reap);
        }
        other => panic!("expected a failure, got {other:?}"),
    }
    match readopt(ReadoptStage::RegisterOwner, Err("full".to_owned())) {
        ReadoptStep::Failed { error, reap } => {
            assert_eq!(error.message, "failed to register re-adopted native Run owner: full");
            assert!(reap);
        }
        other => panic!("expected a failure, got {other:?}"),
    }
}

#[test]
fn terminating_an_unpublished_run_polls_until_its_deadline() {
    let run = Run::new_native(
        RunId { value: 1 },
        long_running_spec(),
        None,
        Some(9),
        PersistenceMode::MemoryOnly,
    );
    let clean = UnpublishedTermination::begin(&run, Ok(())).expect("native");
    assert_eq!(clean.reaped(Ok(())), Ok(()));
    assert_eq!(
        clean.terminate_unpublished(Err("busy".to_owned()), false),
        TerminationStep::PollAgain
    );
    assert_eq!(clean.terminate_unpublished(Ok(()), true), TerminationStep::DetachDescriptors);
    let failed =
        UnpublishedTermination::begin(&run, Err("no signal".to_owned())).expect("native");
    assert_eq!(
        failed.reaped(Err("not reaped".to_owned())),
        Err("no signal; not reaped".to_owned())
    );
    assert_eq!(
        failed.terminate_unpublished(Err("busy".to_owned()), true),
        TerminationStep::Failed("no signal; busy".to_owned())
    );
}

#[test]
fn terminal_sizes_survive_the_kernel_layout() {
    let size = to_pty_size(TerminalSize { cols: 132, rows: 40 });
    assert_eq!((size.rows, size.cols, size.pixel_width, size.pixel_height), (40, 132, 0, 0));
    let kernel = winsize_from(size);
    assert_eq!((kernel.ws_row, kernel.ws_col), (40, 132));
    assert_eq!(pty_size_from(kernel), size);
}
