use ctxmux::daemon::owners::CreationFlightOwner;
use ctxmux::daemon::server::{
    first_start_stage, prepare_socket_path, readiness_line, readiness_record,
    record_native_wait_failure, serve_with_manager, service_outcome, start_service,
    IncarnationFailure, LookFailure, PathFacts, ServeEvent, ServeStep, ServerError, ServiceEnd,
    SocketEvent, SocketGuard, SocketIdentity, SocketStage, SocketStep, StartFailure, StartMode,
    StartStage, StartStep,
};
use ctxmux::daemon::upgrade::UpgradeAbort;
use ctxmux::identity::{DaemonInstanceId, RunId};

const STALE: SocketIdentity = SocketIdentity { device: 1, inode: 10 };

fn socket(inode: u64) -> SocketEvent {
    SocketEvent::Looked(Ok(PathFacts {
        is_socket: true,
        identity: SocketIdentity { device: 1, inode },
    }))
}

fn step(stage: SocketStage, event: SocketEvent) -> SocketStep {
    prepare_socket_path("/run/ctxmux.sock", "/run", stage, event)
}

#[test]
fn socket_path_preparation_refuses_protected_and_live_targets() {
    assert_eq!(
        step(SocketStage::CreateParent, SocketEvent::Done(Ok(()))),
        SocketStep::Perform(SocketStage::TestExistence)
    );
    assert_eq!(
        step(SocketStage::TestExistence, SocketEvent::Exists(true)),
        SocketStep::Perform(SocketStage::FirstLook)
    );
    let ordinary = SocketEvent::Looked(Ok(PathFacts { is_socket: false, identity: STALE }));
    assert_eq!(
        step(SocketStage::FirstLook, ordinary),
        SocketStep::Failed(ServerError::InvalidSocketTarget("/run/ctxmux.sock".to_owned()))
    );
    assert_eq!(
        step(SocketStage::FirstProbe { checked: STALE }, SocketEvent::Probed(true)),
        SocketStep::Failed(ServerError::AlreadyRunning("/run/ctxmux.sock".to_owned()))
    );
    assert_eq!(
        step(SocketStage::SecondProbe { checked: STALE }, SocketEvent::Probed(true)),
        SocketStep::Failed(ServerError::AlreadyRunning("/run/ctxmux.sock".to_owned()))
    );
}

#[test]
fn socket_path_preparation_removes_only_an_inactive_socket() {
    assert_eq!(step(SocketStage::TestExistence, SocketEvent::Exists(false)), SocketStep::Free);
    assert_eq!(
        step(SocketStage::FirstLook, socket(10)),
        SocketStep::Perform(SocketStage::FirstProbe { checked: STALE })
    );
    assert_eq!(
        step(SocketStage::FirstProbe { checked: STALE }, SocketEvent::Probed(false)),
        SocketStep::Perform(SocketStage::SecondLook { checked: STALE })
    );
    assert_eq!(
        step(SocketStage::SecondLook { checked: STALE }, socket(10)),
        SocketStep::Perform(SocketStage::SecondProbe { checked: STALE })
    );
    assert_eq!(
        step(SocketStage::SecondProbe { checked: STALE }, SocketEvent::Probed(false)),
        SocketStep::Perform(SocketStage::LastLook { checked: STALE })
    );
    assert_eq!(
        step(SocketStage::LastLook { checked: STALE }, socket(10)),
        SocketStep::Perform(SocketStage::Remove { checked: STALE })
    );
    assert_eq!(
        step(SocketStage::Remove { checked: STALE }, SocketEvent::Done(Ok(()))),
        SocketStep::Free
    );
}

#[test]
fn stale_socket_replacement_race_preserves_the_unrelated_live_target() {
    for stage in [
        SocketStage::SecondLook { checked: STALE },
        SocketStage::LastLook { checked: STALE },
    ] {
        assert_eq!(
            step(stage, socket(11)),
            SocketStep::Failed(ServerError::SocketTargetChanged("/run/ctxmux.sock".to_owned()))
        );
    }
    let gone = || {
        SocketEvent::Looked(Err(LookFailure { not_found: true, source: "gone".to_owned() }))
    };
    assert_eq!(step(SocketStage::SecondLook { checked: STALE }, gone()), SocketStep::Free);
    assert_eq!(
        step(SocketStage::LastLook { checked: STALE }, gone()),
        SocketStep::Failed(ServerError::Io {
            path: "/run/ctxmux.sock".to_owned(),
            source: "gone".to_owned(),
        })
    );
}

#[test]
fn shutdown_preserves_a_replacement_listener_at_the_published_path() {
    let facts = |inode: u64| PathFacts {
        is_socket: true,
        identity: SocketIdentity { device: 1, inode },
    };
    let guard =
        SocketGuard::new("/run/ctxmux.sock".to_owned(), Ok(facts(10))).expect("own socket");
    assert!(guard.removes(Some(facts(10))));
    assert!(!guard.removes(Some(facts(11))));
    assert!(!guard.removes(None));
    assert_eq!(
        SocketGuard::new("/run/x".to_owned(), Ok(PathFacts { is_socket: false, identity: STALE })),
        Err(ServerError::SocketTargetChanged("/run/x".to_owned()))
    );
}

#[test]
fn server_errors_say_what_failed() {
    let path = || "/p".to_owned();
    let cases = [
        (ServerError::InvalidSocketTarget(path()), "refusing to replace non-socket path: /p"),
        (ServerError::AlreadyRunning(path()), "a ctxmux daemon is already listening at /p"),
        (
            ServerError::SocketTargetChanged(path()),
            "socket target changed during stale cleanup: /p",
        ),
        (ServerError::io("/p", "EIO".to_owned()), "ctxmux daemon I/O failed at /p: EIO"),
        (ServerError::Persistence("locked".to_owned()), "locked"),
        (ServerError::Adopt("no child".to_owned()), "adopt handed-off run: no child"),
        (
            ServerError::Shutdown { failures: "a; b".to_owned() },
            "ctxmux daemon shutdown failed: a; b",
        ),
    ];
    for (error, expected) in cases {
        assert_eq!(error.message(), expected);
    }
}

#[test]
fn the_first_failure_of_an_incarnation_stays() {
    let mut flights = CreationFlightOwner::new();
    let mut failure = IncarnationFailure::new();
    assert_eq!(failure.message(), None);
    let id = RunId { value: 9 };
    record_native_wait_failure(&mut flights, &mut failure, id, "fixture wait authority lost");
    let message = failure.message().expect("daemon incarnation is failed");
    assert_eq!(
        message,
        "Run 00000000-0000-0000-0000-000000000009 lost native child wait authority; \
         restart is required: fixture wait authority lost"
    );
    assert!(!failure.record("later".to_owned()));
    assert_eq!(failure.message(), Some(message));
    assert_eq!(
        flights.acquire_admission(),
        ctxmux::daemon::owners::Admission::Refused
    );
}

fn start_stages(mode: StartMode, announces: bool) -> Vec<StartStage> {
    let mut stages = vec![first_start_stage(mode)];
    while *stages.last().unwrap() != StartStage::Serve {
        match start_service("/s", mode, announces, *stages.last().unwrap(), Ok(())) {
            StartStep::Perform(next) => stages.push(next),
            StartStep::Failed(error) => panic!("unexpected failure {error:?}"),
        }
    }
    stages
}

#[test]
fn adopt_listener_reuses_the_socket_inode_without_rebinding() {
    let handoff = start_stages(StartMode::Handoff, false);
    assert!(handoff.contains(&StartStage::AdoptListener));
    for forbidden in [StartStage::PreparePath, StartStage::Bind, StartStage::RestrictPath] {
        assert!(!handoff.contains(&forbidden));
    }
    assert_eq!(
        start_stages(StartMode::Memory, true),
        vec![
            StartStage::OpenStats,
            StartStage::BuildManager,
            StartStage::PreparePath,
            StartStage::Bind,
            StartStage::RestrictPath,
            StartStage::GuardSocket,
            StartStage::AnnounceReadiness,
            StartStage::WatchHangup,
            StartStage::Serve,
        ]
    );
    assert_eq!(start_stages(StartMode::Durable, false)[0], StartStage::OpenState);
}

#[test]
fn a_failed_start_names_its_place() {
    let failed = |stage: StartStage| {
        let outcome = Err(StartFailure::Io("EBADF".to_owned()));
        match start_service("/s", StartMode::Handoff, true, stage, outcome) {
            StartStep::Failed(ServerError::Io { path, .. }) => path,
            other => panic!("expected an I/O failure, got {other:?}"),
        }
    };
    assert_eq!(failed(StartStage::ReadManifest), "<handoff-fd>");
    assert_eq!(failed(StartStage::ClaimMasters), "<handoff master fd>");
    assert_eq!(failed(StartStage::ClaimStateLock), "<handoff state-lock fd>");
    assert_eq!(failed(StartStage::OpenStats), "qualification stats fd");
    assert_eq!(failed(StartStage::AdoptListener), "<handoff listener fd>");
    assert_eq!(failed(StartStage::AnnounceReadiness), "<readiness-fd>");
    assert_eq!(failed(StartStage::WatchHangup), "<sighup>");
    assert_eq!(failed(StartStage::Bind), "/s");
    assert_eq!(
        start_service(
            "/s",
            StartMode::Handoff,
            false,
            StartStage::BuildManager,
            Err(StartFailure::Adoption("no child".to_owned())),
        ),
        StartStep::Failed(ServerError::Adopt("no child".to_owned()))
    );
}

#[test]
fn the_readiness_record_is_one_line_of_json() {
    let line = readiness_record(DaemonInstanceId { value: 0xff }).expect("text can be encoded");
    assert_eq!(
        String::from_utf8(line.clone()).expect("ASCII"),
        "{\"daemon_instance\":\"00000000-0000-0000-0000-0000000000ff\",\"schema\":\"ctxmux.daemon-ready.v1\"}\n"
    );
    let value: serde_json::Value = serde_json::from_slice(&line).expect("a JSON object");
    assert_eq!(value["schema"], "ctxmux.daemon-ready.v1");
    assert_eq!(value["daemon_instance"], "00000000-0000-0000-0000-0000000000ff");
    assert_eq!(value.as_object().unwrap().len(), 2);

    assert_eq!(readiness_line(Ok(b"{}".to_vec())), Ok(b"{}\n".to_vec()));
    assert_eq!(
        readiness_line(Err("no".to_owned())),
        Err(ServerError::io("<readiness-fd>", "no".to_owned()))
    );
}

fn serve(persistent: bool, has_state_dir: bool, event: ServeEvent) -> ServeStep {
    let mut incarnation = IncarnationFailure::new();
    serve_with_manager("/s", persistent, has_state_dir, event, &mut incarnation)
}

#[test]
fn the_service_loop_decides_by_event() {
    assert_eq!(
        serve(true, true, ServeEvent::Connected(Ok(()))),
        ServeStep::HandleConnection
    );
    assert_eq!(serve(true, true, ServeEvent::HungUp), ServeStep::Upgrade);
    assert_eq!(
        serve(false, true, ServeEvent::HungUp),
        ServeStep::Log(
            "ctxmuxd: SIGHUP ignored: upgrade continuity requires --state-dir".to_owned()
        )
    );
    assert_eq!(
        serve(true, false, ServeEvent::HungUp),
        ServeStep::Log(
            "ctxmuxd: SIGHUP ignored: no state directory recorded for re-exec".to_owned()
        )
    );
    let shutdown = || ServerError::Shutdown { failures: "busy".to_owned() };
    assert_eq!(
        serve(
            true,
            true,
            ServeEvent::UpgradeAborted(UpgradeAbort::BeforeExtract(shutdown())),
        ),
        ServeStep::Log(
            "ctxmuxd: exec-in-place upgrade aborted before extract, continuing to serve: \
             ctxmux daemon shutdown failed: busy"
                .to_owned()
        )
    );
    let mut incarnation = IncarnationFailure::new();
    let lost = serve_with_manager(
        "/s",
        true,
        true,
        ServeEvent::UpgradeAborted(UpgradeAbort::AfterExtract(shutdown())),
        &mut incarnation,
    );
    let message =
        "exec-in-place upgrade failed after extract: ctxmux daemon shutdown failed: busy";
    assert_eq!(lost, ServeStep::ShutDown(ServiceEnd::UpgradeFailed(message.to_owned())));
    assert_eq!(incarnation.message(), Some(message.to_owned()));
    assert_eq!(
        serve(false, false, ServeEvent::Interrupted(Ok(()))),
        ServeStep::ShutDown(ServiceEnd::Interrupted)
    );
}

#[test]
fn the_daemon_reports_why_it_ended() {
    let failed = || ServerError::Shutdown { failures: "lingers".to_owned() };
    assert_eq!(service_outcome(ServiceEnd::Interrupted, Ok(())), Ok(()));
    assert_eq!(service_outcome(ServiceEnd::Interrupted, Err(failed())), Err(failed()));
    assert_eq!(
        service_outcome(ServiceEnd::UpgradeFailed("lost".to_owned()), Err(failed())),
        Err(ServerError::Shutdown { failures: "lost".to_owned() })
    );
    assert_eq!(
        service_outcome(ServiceEnd::IncarnationFailed("lost".to_owned()), Ok(())),
        Err(ServerError::Shutdown { failures: "lost".to_owned() })
    );
    assert_eq!(
        service_outcome(ServiceEnd::IncarnationFailed("lost".to_owned()), Err(failed())),
        Err(ServerError::Shutdown {
            failures: "lost; shutdown: ctxmux daemon shutdown failed: lingers".to_owned(),
        })
    );
}
