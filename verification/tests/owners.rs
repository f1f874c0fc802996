use ctxmux::daemon::fd_budget::MAX_CREATION_OWNER_SLOTS;
use ctxmux::daemon::owners::{
    Admission, CreationFlightOwner, TerminalOrdinal, TerminalPublicationOwner,
    UnpublishedCleanupOwner,
};
use ctxmux::daemon::pending::{
    cleanup_failed_persistent_creation, cleanup_unknown_persistent_creation, PendingPublication,
};
use ctxmux::identity::RunId;
use ctxmux::protocol::{
    ErrorCode, OperationKey, RunSpec, RunState, TerminalSize,
};
use ctxmux::run_spec::CreationRequest;

fn key(text: &str) -> OperationKey {
    OperationKey { text: text.to_owned(), defect: None }
}

fn spec(program: &str) -> RunSpec {
    RunSpec {
        program: program.to_owned(),
        args: Vec::new(),
        cwd: None,
        env: Vec::new(),
        size: TerminalSize { cols: 80, rows: 24 },
        declared_inputs: Vec::new(),
    }
}

#[test]
fn terminal_ordinal_matches_visible_publication_order() {
    let mut owner = TerminalPublicationOwner::new();
    let mut first_ordinal: Option<TerminalOrdinal> = None;
    let mut second_ordinal: Option<TerminalOrdinal> = None;
    let mut first_state = RunState::Running;
    let mut second_state = RunState::Running;

    owner.publish(
        &mut first_ordinal,
        &mut first_state,
        RunState::Exited { code: 1, signal: None },
    );
    assert!(matches!(first_state, RunState::Exited { code: 1, .. }));
    owner.publish(
        &mut second_ordinal,
        &mut second_state,
        RunState::Exited { code: 2, signal: None },
    );
    assert!(matches!(second_state, RunState::Exited { code: 2, .. }));
    assert!(first_ordinal.unwrap().number < second_ordinal.unwrap().number);
    let mut recovered: Option<TerminalOrdinal> = None;
    owner.recover(&mut recovered);
    assert_eq!(recovered, Some(TerminalOrdinal { number: 3 }));
}

#[test]
fn cleanup_reservations_enforce_and_reclaim_the_shared_owner_bound() {
    let mut owner = UnpublishedCleanupOwner::new();
    let request = CreationRequest::Start { spec: spec("/bin/true") };
    owner.reserve().expect("tmux import shares one physical-overlap slot");
    for index in 0..(MAX_CREATION_OWNER_SLOTS - 1) {
        let slot = key(&format!("cleanup-slot-{index}"));
        owner.resolve_fence(&slot, &request).unwrap();
        owner.reserve().expect("reserve bounded cleanup slot");
    }
    let ninth = key("cleanup-slot-ninth");
    owner.resolve_fence(&ninth, &request).unwrap();
    let error = owner
        .reserve()
        .expect_err("ninth cleanup reservation exceeds the hard bound");
    assert_eq!(error.code, ErrorCode::BackendUnavailable);
    assert_eq!(owner.owned_count(), MAX_CREATION_OWNER_SLOTS);

    owner.release();
    owner.reserve().expect("released slot is reusable");
    assert_eq!(owner.owned_count(), MAX_CREATION_OWNER_SLOTS);
}

#[test]
fn admission_caps_physical_launches_and_reclaims_released_permits() {
    let mut owner = CreationFlightOwner::new();
    for _ in 0..MAX_CREATION_OWNER_SLOTS {
        assert_eq!(owner.acquire_admission(), Admission::Granted);
        assert!(owner.try_begin(), "admitted launch becomes an active flight");
    }
    assert_eq!(owner.active_count(), MAX_CREATION_OWNER_SLOTS);
    assert_eq!(owner.available_admission(), 0);

    // The ninth launch waits without becoming a flight.
    assert_eq!(owner.acquire_admission(), Admission::Wait);
    assert_eq!(owner.active_count(), MAX_CREATION_OWNER_SLOTS);

    owner.finish();
    assert_eq!(owner.acquire_admission(), Admission::Granted);
    assert!(owner.try_begin());
    assert_eq!(owner.active_count(), MAX_CREATION_OWNER_SLOTS);

    for _ in 0..MAX_CREATION_OWNER_SLOTS {
        owner.finish();
    }
    assert_eq!(owner.active_count(), 0);
    assert_eq!(owner.available_admission(), MAX_CREATION_OWNER_SLOTS);
}

#[test]
fn shutdown_fence_wakes_admission_waiters_and_drains_active_owners() {
    let mut owner = CreationFlightOwner::new();
    for _ in 0..MAX_CREATION_OWNER_SLOTS {
        assert_eq!(owner.acquire_admission(), Admission::Granted);
        assert!(owner.try_begin());
    }
    assert_eq!(owner.acquire_admission(), Admission::Wait);

    owner.fence();

    assert_eq!(owner.acquire_admission(), Admission::Refused);
    assert_eq!(owner.wait_until(false), None);
    assert_eq!(
        owner.wait_until(true),
        Some(false),
        "shutdown cannot report drained while admitted owners remain active"
    );
    for _ in 0..MAX_CREATION_OWNER_SLOTS {
        owner.finish();
    }
    assert!(owner.drained());
    assert_eq!(owner.wait_until(false), Some(true));
}

#[test]
fn a_slot_granted_before_the_fence_begins_nothing() {
    let mut owner = CreationFlightOwner::new();
    assert_eq!(owner.acquire_admission(), Admission::Granted);
    owner.fence();
    assert!(!owner.try_begin());
    assert_eq!(owner.active_count(), 0);
    assert_eq!(owner.available_admission(), MAX_CREATION_OWNER_SLOTS);
}

#[test]
fn a_failed_publication_fences_its_key_until_its_cleanup_is_proven() {
    let mut owner = UnpublishedCleanupOwner::new();
    owner.reserve().unwrap();
    let run = RunId { value: 0x11 };
    let pending = PendingPublication {
        key: key("fenced"),
        request: CreationRequest::Start { spec: spec("/bin/cat") },
        run,
    };
    pending.abandon(&mut owner, Ok(()));
    assert_eq!(owner.owned_count(), 1);

    let matching = owner
        .resolve_fence(&key("fenced"), &CreationRequest::Start { spec: spec("/bin/cat") })
        .expect_err("a retry waits for the cleanup");
    assert_eq!(matching.code, ErrorCode::BackendUnavailable);
    let conflicting = owner
        .resolve_fence(&key("fenced"), &CreationRequest::Start { spec: spec("/bin/ls") })
        .expect_err("another request conflicts");
    assert_eq!(conflicting.code, ErrorCode::CreationConflict);
    owner
        .resolve_fence(&key("free"), &CreationRequest::Start { spec: spec("/bin/cat") })
        .expect("another key is free");

    assert_eq!((owner.owned_count(), owner.cleanup_count()), (1, 1));
    let reports = owner.prune_and_report();
    assert_eq!(reports.len(), 1);
    assert!(reports[0].contains("00000000-0000-0000-0000-000000000011"));
    assert!(reports[0]
        .contains("creation owner unwound after requesting unpublished child cleanup"));

    assert_eq!(owner.wait_until(false), None);
    assert_eq!(owner.wait_until(true), Some(reports));

    owner.note_cleanup(run, &Ok(()));
    assert_eq!(owner.wait_until(false), Some(Vec::new()));
    assert!(owner.prune_and_report().is_empty());
    assert_eq!(owner.owned_count(), 0);
    owner
        .resolve_fence(&key("fenced"), &CreationRequest::Start { spec: spec("/bin/cat") })
        .expect("the fence is gone");
}

#[test]
fn an_explicit_rollback_releases_or_transfers() {
    let mut owner = UnpublishedCleanupOwner::new();
    owner.reserve().unwrap();
    owner.reserve().unwrap();
    let pending = |value: u128| PendingPublication {
        key: key("rollback"),
        request: CreationRequest::Start { spec: spec("/bin/cat") },
        run: RunId { value },
    };
    assert_eq!(pending(1).cleanup_unpublished(&mut owner, Ok(())), Ok(()));
    assert_eq!(owner.owned_count(), 1);
    assert_eq!(
        pending(2).cleanup_unpublished(&mut owner, Err("child lingers".to_owned())),
        Err("child lingers".to_owned())
    );
    assert_eq!(owner.owned_count(), 1);
    let reports = owner.prune_and_report();
    assert_eq!(reports.len(), 1);
    assert!(reports[0].contains("00000000-0000-0000-0000-000000000002"));
    assert!(reports[0].ends_with("child lingers; child lingers"));
}

#[test]
fn a_failed_commit_names_what_is_still_pending() {
    let error = cleanup_failed_persistent_creation(true, "state is full".to_owned(), Ok(()));
    assert_eq!((error.code, error.message.as_str()), (ErrorCode::RunCapacity, "state is full"));
    let error = cleanup_failed_persistent_creation(
        false,
        "disk".to_owned(),
        Err("reader lives".to_owned()),
    );
    assert_eq!(error.code, ErrorCode::Persistence);
    assert_eq!(
        error.message,
        "disk; rollback pending: exact creation key remains fenced until all unpublished native owners are quiescent: reader lives"
    );
    let error =
        cleanup_unknown_persistent_creation("lost".to_owned(), Err("reader lives".to_owned()));
    assert_eq!(error.message, "lost; cleanup pending after unknown COMMIT: reader lives");
}
