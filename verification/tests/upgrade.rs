use ctxmux::daemon::handoff::{HandoffInputState, HandoffRun};
use ctxmux::daemon::server::ServerError;
use ctxmux::daemon::upgrade::{
    exec_arguments, kept_descriptors, perform_exec_upgrade, upgrade_retry_error, DrainPoll,
    ExecUpgrade, UpgradeAbort, UpgradeEvent, UpgradeIdentity, UpgradeRequestAdmission,
    UpgradeRequestGate, UpgradeRequestPhase, UpgradeStage, UpgradeStep,
};
use ctxmux::identity::{DaemonInstanceId, RunId};
use ctxmux::protocol::ErrorCode;

#[test]
fn upgrade_request_gate_drains_the_complete_response_window_and_reopens_on_abort() {
    let mut gate = UpgradeRequestGate::new();
    assert_eq!(gate.admit_request(), UpgradeRequestAdmission::Execute);
    gate.begin_drain().expect("an open gate drains");
    assert_eq!(gate.admit_request(), UpgradeRequestAdmission::Retry);

    // The original request and the retry answer both have to finish.
    assert!(!gate.finish_request());
    assert!(matches!(gate.poll_drain(false), DrainPoll::Wait));
    assert!(gate.finish_request());
    let DrainPoll::Sealed(fence) = gate.poll_drain(false) else {
        panic!("all admitted response windows drain");
    };
    assert_eq!(gate.admit_request(), UpgradeRequestAdmission::Sealed);

    fence.release(&mut gate);
    assert_eq!(gate.admit_request(), UpgradeRequestAdmission::Execute);
}

#[test]
fn upgrade_request_gate_timeout_restores_full_admission() {
    let mut gate = UpgradeRequestGate::new();
    assert_eq!(gate.admit_request(), UpgradeRequestAdmission::Execute);
    gate.begin_drain().expect("an open gate drains");
    let DrainPoll::TimedOut(failure) = gate.poll_drain(true) else {
        panic!("an unfinished response window must time out the drain");
    };
    assert!(failure.contains("1 admitted request"));
    assert_eq!(gate.admit_request(), UpgradeRequestAdmission::Execute);
    assert_eq!(gate.active(), 2);
}

#[test]
fn a_committed_fence_keeps_the_gate_sealed() {
    let mut gate = UpgradeRequestGate::new();
    gate.begin_drain().unwrap();
    assert_eq!(
        gate.begin_drain(),
        Err("another exec-in-place upgrade is already draining requests".to_owned())
    );
    let DrainPoll::Sealed(mut fence) = gate.poll_drain(true) else {
        panic!("an idle gate seals even at the deadline");
    };
    fence.commit();
    fence.release(&mut gate);
    assert_eq!(gate.phase(), UpgradeRequestPhase::Sealed);
    let retry = upgrade_retry_error();
    assert_eq!(retry.code, ErrorCode::BackendUnavailable);
    assert_eq!(
        retry.message,
        "ctxmux daemon is draining for an exec-in-place upgrade; reconnect and retry"
    );
}

fn upgrade() -> ExecUpgrade {
    ExecUpgrade::new(UpgradeIdentity {
        file: "/state/.ctxmux-handoff-1".to_owned(),
        epoch: DaemonInstanceId { value: 0xabc },
        listener_fd: 10,
        state_lock_fd: 11,
    })
}

fn advance(upgrade: ExecUpgrade, gate: &mut UpgradeRequestGate, event: UpgradeEvent) -> ExecUpgrade {
    match perform_exec_upgrade(upgrade, gate, event) {
        UpgradeStep::Perform(next) => next,
        UpgradeStep::Aborted(abort) => panic!("unexpected abort {abort:?}"),
    }
}

#[test]
fn an_upgrade_performs_its_stages_in_order() {
    let mut gate = UpgradeRequestGate::new();
    let mut current = upgrade();
    for expected in [
        UpgradeStage::UnlinkFile,
        UpgradeStage::GuardFile,
        UpgradeStage::FindExecutable,
        UpgradeStage::VerifyTarget,
        UpgradeStage::Drain,
    ] {
        current = advance(current, &mut gate, UpgradeEvent::Done);
        assert_eq!(current.stage, expected);
    }
    assert_eq!(gate.phase(), UpgradeRequestPhase::Draining);
    current = advance(current, &mut gate, UpgradeEvent::Polled { deadline_passed: false });
    assert_eq!(current.stage, UpgradeStage::Extract);
    current = advance(
        current,
        &mut gate,
        UpgradeEvent::Extracted {
            runs: vec![HandoffRun {
                run_id: RunId { value: 1 },
                child_pid: 77,
                master_fd: 12,
                input_state: HandoffInputState::empty(),
            }],
            stop_operations: Vec::new(),
        },
    );
    assert_eq!(current.stage, UpgradeStage::CommitDurable);
    let manifest = current.manifest.as_ref().expect("the manifest exists now");
    assert_eq!(manifest.epoch, "00000000-0000-0000-0000-000000000abc");
    assert_eq!(kept_descriptors(&current), vec![10, 11, 12]);
    for expected in [
        UpgradeStage::WriteManifest,
        UpgradeStage::FinishManifest,
        UpgradeStage::KeepDescriptors,
        UpgradeStage::KeepManifest,
        UpgradeStage::Exec,
    ] {
        current = advance(current, &mut gate, UpgradeEvent::Done);
        assert_eq!(current.stage, expected);
    }
    assert_eq!(gate.phase(), UpgradeRequestPhase::Sealed);
    match perform_exec_upgrade(current, &mut gate, UpgradeEvent::Failed("ENOEXEC".to_owned())) {
        UpgradeStep::Aborted(UpgradeAbort::AfterExtract(error)) => {
            assert_eq!(error.message(), "ctxmux daemon I/O failed at <exec-in-place>: ENOEXEC")
        }
        other => panic!("a failed exec stops the daemon, got {other:?}"),
    }
    assert_eq!(gate.phase(), UpgradeRequestPhase::Sealed);
}

#[test]
fn an_upgrade_that_fails_early_keeps_serving() {
    let mut gate = UpgradeRequestGate::new();
    match perform_exec_upgrade(upgrade(), &mut gate, UpgradeEvent::Failed("EACCES".to_owned())) {
        UpgradeStep::Aborted(UpgradeAbort::BeforeExtract(error)) => assert_eq!(
            error,
            ServerError::Io {
                path: "/state/.ctxmux-handoff-1".to_owned(),
                source: "EACCES".to_owned(),
            }
        ),
        other => panic!("nothing is lost, got {other:?}"),
    }

    let at_verify = || ExecUpgrade { stage: UpgradeStage::VerifyTarget, ..upgrade() };
    let refused = UpgradeEvent::Failed("declares no handoff schema".to_owned());
    match perform_exec_upgrade(at_verify(), &mut gate, refused) {
        UpgradeStep::Aborted(UpgradeAbort::BeforeExtract(error)) => assert_eq!(
            error,
            ServerError::Shutdown { failures: "declares no handoff schema".to_owned() }
        ),
        other => panic!("an unverifiable target is refused, got {other:?}"),
    }
    assert_eq!(gate.phase(), UpgradeRequestPhase::Open);

    // Another upgrade that is draining is left alone.
    gate.begin_drain().expect("an open gate drains");
    match perform_exec_upgrade(at_verify(), &mut gate, UpgradeEvent::Done) {
        UpgradeStep::Aborted(UpgradeAbort::BeforeExtract(error)) => assert_eq!(
            error,
            ServerError::Shutdown {
                failures: "another exec-in-place upgrade is already draining requests".to_owned(),
            }
        ),
        other => panic!("only one upgrade drains, got {other:?}"),
    }
    assert_eq!(gate.phase(), UpgradeRequestPhase::Draining);
    let DrainPoll::Sealed(fence) = gate.poll_drain(false) else {
        panic!("an idle gate seals");
    };
    fence.release(&mut gate);

    // A refused extraction opens the sealed gate again.
    let draining = advance(at_verify(), &mut gate, UpgradeEvent::Done);
    let extract = advance(draining, &mut gate, UpgradeEvent::Polled { deadline_passed: false });
    assert_eq!(gate.phase(), UpgradeRequestPhase::Sealed);
    match perform_exec_upgrade(extract, &mut gate, UpgradeEvent::Failed("busy".to_owned())) {
        UpgradeStep::Aborted(UpgradeAbort::BeforeExtract(_)) => {}
        other => panic!("nothing was extracted, got {other:?}"),
    }
    assert_eq!(gate.phase(), UpgradeRequestPhase::Open);
}

#[test]
fn the_new_image_is_told_where_to_continue() {
    assert_eq!(
        exec_arguments("/run/c.sock".to_owned(), "/state".to_owned(), 17),
        ["--socket", "/run/c.sock", "--state-dir", "/state", "--handoff-fd", "17"]
    );
}
