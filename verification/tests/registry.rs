use ctxmux::daemon::fd_budget::FD_BUDGET_LIVE_RUNS;
use ctxmux::daemon::ledger::StopAdmission;
use ctxmux::daemon::owners::TerminalOrdinal;
use ctxmux::daemon::gauges::RegistryGauges;
use ctxmux::daemon::registry::{RunFacts, RunRegistry};
use ctxmux::identity::RunId;
use ctxmux::order::{ranked_not_after, Ranked};
use ctxmux::protocol::{
    ControlReceipt, ErrorCode, OperationKey, RunSpec, StopDisposition, TerminalSize,
};
use ctxmux::run_spec::CreationRequest;

fn key(text: &str) -> OperationKey {
    OperationKey { text: text.to_owned(), defect: None }
}

fn spec(program: &str) -> RunSpec {
    RunSpec {
        program: program.to_owned(),
        args: vec!["-c".to_owned()],
        cwd: None,
        env: Vec::new(),
        size: TerminalSize { cols: 80, rows: 24 },
        declared_inputs: Vec::new(),
    }
}

fn start(program: &str) -> CreationRequest {
    CreationRequest::Start { spec: spec(program) }
}

/// A Run that ended as number `ordinal`, or one that still runs.
fn facts(value: u128, ordinal: Option<u64>) -> RunFacts {
    RunFacts {
        id: RunId { value },
        spec: Some(spec("/bin/sh")),
        lineage: None,
        running: ordinal.is_none(),
        shared: false,
        ordinal: ordinal.map(|number| TerminalOrdinal { number }),
        tmux_controlled: false,
        wait_failure: None,
    }
}

fn filled(count: usize, capacity: usize) -> RunRegistry {
    let mut registry = RunRegistry::with_record_capacity(capacity, u64::MAX);
    for place in 0..count {
        registry.retain(facts(place as u128 + 1, Some(place as u64 + 1)), None, None);
    }
    registry
}

#[test]
fn clamp_record_capacity_only_lowers_the_ceiling() {
    let mut registry = RunRegistry::new(u64::MAX);
    assert_eq!(registry.record_capacity(), FD_BUDGET_LIVE_RUNS);
    registry.clamp_record_capacity(FD_BUDGET_LIVE_RUNS + 10);
    assert_eq!(registry.record_capacity(), FD_BUDGET_LIVE_RUNS);
    registry.clamp_record_capacity(5);
    assert_eq!(registry.record_capacity(), 5);
    registry.clamp_record_capacity(50);
    assert_eq!(registry.record_capacity(), 5);
}

#[test]
fn no_pressure_publication_scans_nothing_regardless_of_registry_size() {
    for count in [0_usize, 1, 128, 1024, 4096] {
        let below = filled(count, count + 1).select_publication_candidates(None);
        assert_eq!(
            below.evaluated, 0,
            "no-pressure publication at {count} retained Runs must scan nothing"
        );
        assert!(below.result.is_ok());

        let at_ceiling = filled(count, count.max(1)).select_publication_candidates(None);
        assert_eq!(
            at_ceiling.evaluated, count,
            "an at-ceiling publication must still walk every retained record"
        );
    }
}

#[test]
fn memory_collection_order_prefers_ordinal_then_run_id() {
    let lower = Ranked { ordinal: 7, id: 1 };
    let higher = Ranked { ordinal: 7, id: 2 };
    assert!(ranked_not_after(&lower, &higher) && !ranked_not_after(&higher, &lower));
    let earlier = Ranked { ordinal: 6, id: 2 };
    assert!(ranked_not_after(&earlier, &lower) && !ranked_not_after(&lower, &earlier));
}

#[test]
fn the_run_that_ended_first_makes_place_for_a_new_one() {
    let mut registry = RunRegistry::with_record_capacity(3, u64::MAX);
    registry.retain(facts(1, Some(9)), None, None);
    registry.retain(facts(2, None), None, None);
    registry.retain(facts(3, Some(4)), None, None);
    let ticket = registry
        .reserve_publication(RunId { value: 4 }, Some(key("new")), None, None)
        .expect("one Run may leave");
    assert_eq!(registry.candidates(ticket), vec![RunId { value: 3 }]);
    assert!(registry.is_publishable(ticket, RunId { value: 4 }));
    assert!(!registry.is_publishable(ticket, RunId { value: 2 }));
    let error = registry.pin(RunId { value: 3 }).expect_err("the candidate is fenced");
    assert_eq!(error.code, ErrorCode::BackendUnavailable);
    let fenced = registry
        .resolve_creation_info(&key("new"), &start("/bin/sh"))
        .expect_err("the key is reserved");
    assert_eq!(fenced.code, ErrorCode::BackendUnavailable);

    let removed = registry.publish_creation(ticket, facts(4, None), None);
    assert_eq!(removed.len(), 1);
    assert_eq!(removed[0].facts.id, RunId { value: 3 });
    assert_eq!(registry.pin(RunId { value: 3 }), Ok(false));
    assert_eq!(registry.pin(RunId { value: 4 }), Ok(true));

    // The same request is the same Run; another request conflicts.
    assert_eq!(
        registry.resolve_creation_info(&key("new"), &start("/bin/sh")),
        Ok(Some(RunId { value: 4 }))
    );
    assert_eq!(
        registry
            .resolve_creation_info(&key("new"), &start("/bin/zsh"))
            .expect_err("another request")
            .code,
        ErrorCode::CreationConflict
    );
    assert_eq!(registry.resolve_creation_info(&key("other"), &start("/bin/sh")), Ok(None));
}

#[test]
fn reservations_keep_the_ceiling_and_the_metadata_budget() {
    let mut registry = RunRegistry::with_record_capacity(2, 100);
    registry.retain(facts(1, Some(1)), Some(key("one")), Some(60));
    let first = registry
        .reserve_publication(RunId { value: 2 }, Some(key("two")), None, Some(30))
        .expect("there is place for one more");
    assert!(registry.candidates(first).is_empty());
    assert_eq!(registry.projected_metadata_bytes(), 90);
    let second = registry
        .reserve_publication(RunId { value: 3 }, Some(key("three")), None, Some(70))
        .expect("the ended Run leaves");
    assert_eq!(registry.candidates(second), vec![RunId { value: 1 }]);
    assert_eq!(
        registry.gauges(),
        RegistryGauges {
            retained_runs: 1,
            creation_keys: 1,
            publication_reservations: 2,
            collecting_tickets: 1,
        }
    );
    assert_eq!(registry.projected_metadata_bytes(), 100);
    let refused = registry
        .reserve_publication(RunId { value: 4 }, Some(key("four")), None, Some(1))
        .expect_err("nobody is left to leave");
    assert_eq!(refused.code, ErrorCode::RunCapacity);
    assert_eq!(registry.publish_creation(second, facts(3, None), Some(70)).len(), 1);
    assert!(registry.publish_creation(first, facts(2, None), Some(30)).is_empty());
    assert_eq!(registry.projected_metadata_bytes(), 100);
    assert_eq!(registry.list_summaries_after(None, 10).0.len(), 2);
}

#[test]
fn a_reservation_that_is_given_up_leaves_no_trace() {
    let mut registry = filled(2, 2);
    let ticket = registry
        .reserve_publication(RunId { value: 9 }, None, None, None)
        .expect("the oldest Run may leave");
    registry.restore_reservation(ticket);
    assert_eq!(registry.pin(RunId { value: 1 }), Ok(true));
    let again = registry
        .reserve_publication(RunId { value: 9 }, None, None, None)
        .expect("nothing is left of the first reservation");
    assert_eq!(registry.candidates(again), vec![RunId { value: 1 }]);
    let error = registry
        .settle_reservation(again, Err("descriptor busy".to_owned()))
        .expect_err("the candidate could not be fenced");
    assert_eq!(error.code, ErrorCode::Internal);
    assert_eq!(error.message, "failed to fence retained Run replacement: descriptor busy");
    assert_eq!(registry.pin(RunId { value: 1 }), Ok(true));
}

#[test]
fn a_full_registry_of_live_runs_refuses_a_new_one() {
    let mut registry = RunRegistry::with_record_capacity(1, u64::MAX);
    registry.retain(facts(1, None), None, None);
    let error = registry
        .reserve_publication(RunId { value: 2 }, None, None, None)
        .expect_err("nothing may leave");
    assert_eq!(error.code, ErrorCode::RunCapacity);
    assert_eq!(error.message, "retained Run capacity 1 has no eligible exact replacement");
}

#[test]
fn durable_metadata_is_funded_by_the_earliest_endings() {
    let mut registry = RunRegistry::with_record_capacity(10, 100);
    registry.retain(facts(1, Some(2)), Some(key("a")), Some(30));
    registry.retain(facts(2, Some(1)), Some(key("b")), Some(50));
    assert_eq!(registry.projected_metadata_bytes(), 80);
    let ticket = registry
        .reserve_publication(RunId { value: 3 }, Some(key("c")), Some(start("/bin/sh")), Some(60))
        .expect("one record may leave");
    let leaving = registry.persistent_candidates(ticket);
    assert_eq!(leaving.len(), 1);
    assert_eq!(leaving[0].id, RunId { value: 2 });
    assert_eq!(leaving[0].metadata_bytes, 50);
    assert_eq!(leaving[0].operation_key, key("b"));
    assert_eq!(registry.projected_metadata_bytes(), 90);
}

#[test]
fn a_stop_operation_is_bound_once_and_answers_its_retries() {
    let mut registry = RunRegistry::with_record_capacity(10, u64::MAX);
    registry.retain(facts(1, None), None, None);
    registry.retain(facts(2, None), None, None);
    let id = RunId { value: 1 };
    assert_eq!(
        registry.begin_recoverable_stop(id, &key("stop")),
        Ok(StopAdmission::Begin)
    );
    registry.bind_recoverable_stop(id, key("stop"), Ok(())).expect("the Run began to stop");
    assert_eq!(
        registry.begin_recoverable_stop(id, &key("stop")),
        Ok(StopAdmission::Retry { settled: None })
    );
    assert_eq!(
        registry
            .begin_recoverable_stop(id, &key("other"))
            .expect_err("the Run belongs to another operation")
            .error
            .code,
        ErrorCode::StopOperationConflict
    );
    assert_eq!(
        registry
            .begin_recoverable_stop(RunId { value: 2 }, &key("stop"))
            .expect_err("the key belongs to another Run")
            .error
            .code,
        ErrorCode::StopOperationConflict
    );
    assert!(registry.handoff_stop_operations().is_err(), "an unsettled Stop cannot be handed over");
    let receipt = ControlReceipt::Stop { disposition: StopDisposition::Forced };
    registry.settle_recoverable_stop(id, Ok(receipt));
    assert_eq!(
        registry.begin_recoverable_stop(id, &key("stop")),
        Ok(StopAdmission::Retry { settled: Some(Ok(receipt)) })
    );

    let exported = registry.handoff_stop_operations().expect("settled Stops are handed over");
    let mut incoming = RunRegistry::with_record_capacity(10, u64::MAX);
    incoming.retain(facts(1, None), None, None);
    incoming.restore_handoff_stop_operations(exported).expect("the Run is still there");
    assert_eq!(
        incoming.begin_recoverable_stop(id, &key("stop")),
        Ok(StopAdmission::Retry { settled: Some(Ok(receipt)) })
    );
}

#[test]
fn only_ended_and_unshared_runs_are_removed() {
    let mut registry = RunRegistry::with_record_capacity(10, u64::MAX);
    registry.retain(facts(1, None), None, None);
    registry.retain(facts(2, Some(1)), None, None);
    assert_eq!(
        registry.validate_removable_entry(RunId { value: 9 }).expect_err("absent").code,
        ErrorCode::RunNotFound
    );
    assert_eq!(
        registry.validate_removable_entry(RunId { value: 1 }).expect_err("running").code,
        ErrorCode::InvalidRunState
    );
    assert_eq!(
        registry.remove_memory(RunId { value: 1 }, Ok(())).expect_err("running").code,
        ErrorCode::InvalidRunState
    );
    let ended = RunId { value: 2 };
    assert_eq!(registry.validate_removable_entry(ended), Ok(()));
    assert_eq!(
        registry.remove_memory(ended, Err("busy".to_owned())).expect_err("held").code,
        ErrorCode::Internal
    );
    assert_eq!(registry.pin(ended), Ok(true));
    assert_eq!(registry.remove_memory(ended, Ok(())), Ok(()));
    assert_eq!(registry.pin(ended), Ok(false));
}

#[test]
fn runs_are_listed_page_by_page_in_ascending_order() {
    let mut registry = RunRegistry::with_record_capacity(10, u64::MAX);
    for value in [5_u128, 2, 9] {
        registry.retain(facts(value, None), None, None);
    }
    let (page, more) = registry.list_summaries_after(None, 2);
    assert_eq!(page, vec![RunId { value: 2 }, RunId { value: 5 }]);
    assert!(more);
    let (page, more) = registry.list_summaries_after(Some(RunId { value: 5 }), 2);
    assert_eq!(page, vec![RunId { value: 9 }]);
    assert!(!more);
}
