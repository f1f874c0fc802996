use ctxmux::daemon::fd_budget::{
    apply_fd_budget, fd_budget, judge_fd_budget, reserved_fds, run_ceiling_for_soft_limit,
    limit_to_request, FDS_PER_RUN, FD_BUDGET_LIVE_RUNS,
};

#[test]
fn budget_funds_the_configured_concurrency_target() {
    assert_eq!(FD_BUDGET_LIVE_RUNS, 4000);
    assert_eq!(
        fd_budget(),
        FD_BUDGET_LIVE_RUNS * FDS_PER_RUN + reserved_fds()
    );
    assert_eq!(fd_budget(), 12104);
    assert_eq!(
        run_ceiling_for_soft_limit(Some(fd_budget() as u64)),
        FD_BUDGET_LIVE_RUNS
    );
}

#[test]
fn ceiling_tracks_descriptors_at_the_target_boundary() {
    let per_run = u64::try_from(FDS_PER_RUN).unwrap();
    let reserved = u64::try_from(reserved_fds()).unwrap();
    let at_target = reserved + u64::try_from(FD_BUDGET_LIVE_RUNS).unwrap() * per_run;
    assert_eq!(
        run_ceiling_for_soft_limit(Some(at_target)),
        FD_BUDGET_LIVE_RUNS
    );
    assert_eq!(
        run_ceiling_for_soft_limit(Some(at_target - per_run)),
        FD_BUDGET_LIVE_RUNS - 1
    );
}

#[test]
fn constrained_limit_clamps_to_the_funded_run_count() {
    let reserved = u64::try_from(reserved_fds()).unwrap();
    let per_run = u64::try_from(FDS_PER_RUN).unwrap();
    for runs in [0_u64, 2, 17, 50] {
        let soft = reserved + runs * per_run;
        let expected = usize::try_from(runs).unwrap().min(FD_BUDGET_LIVE_RUNS);
        assert_eq!(run_ceiling_for_soft_limit(Some(soft)), expected);
        assert_eq!(run_ceiling_for_soft_limit(Some(soft + 1)), expected);
    }
}

#[test]
fn unlimited_soft_funds_the_full_target() {
    assert_eq!(run_ceiling_for_soft_limit(None), FD_BUDGET_LIVE_RUNS);
}

#[test]
fn generous_limit_does_not_raise_above_the_target() {
    let per_run = u64::try_from(FDS_PER_RUN).unwrap();
    let reserved = u64::try_from(reserved_fds()).unwrap();
    let beyond_target = reserved + u64::try_from(FD_BUDGET_LIVE_RUNS + 1000).unwrap() * per_run;
    assert_eq!(
        run_ceiling_for_soft_limit(Some(beyond_target)),
        FD_BUDGET_LIVE_RUNS
    );
}

#[test]
fn tiny_limit_saturates_to_zero() {
    assert_eq!(run_ceiling_for_soft_limit(Some(1)), 0);
    assert_eq!(run_ceiling_for_soft_limit(Some(0)), 0);
}

#[test]
fn a_soft_limit_is_raised_to_the_budget_or_the_hard_limit_and_never_lowered() {
    assert_eq!(reserved_fds(), 104);
    assert_eq!(limit_to_request(Some(1024), None), Some((12104, None)));
    assert_eq!(limit_to_request(Some(1024), Some(4096)), Some((4096, Some(4096))));
    assert_eq!(limit_to_request(Some(20000), Some(30000)), None);
    assert_eq!(limit_to_request(Some(4096), Some(4096)), None);
    assert_eq!(
        limit_to_request(Some(1024), Some(30000)),
        Some((12104, Some(30000)))
    );
    assert_eq!(limit_to_request(None, None), None);
}

#[test]
fn a_granted_limit_below_the_budget_is_reported_as_clamped() {
    let outcome = judge_fd_budget(Some(256), Some(404), true, Some(404));
    assert_eq!(outcome.run_ceiling, 100);
    assert!(outcome.raised);
    assert!(outcome.clamped);
    let outcome = judge_fd_budget(Some(256), None, true, Some(12104));
    assert_eq!(outcome.run_ceiling, 4000);
    assert!(!outcome.clamped);
}

#[test]
fn applying_the_budget_twice_changes_nothing_the_second_time() {
    let first = apply_fd_budget();
    let second = apply_fd_budget();
    // What the first call left in effect is what the second one finds.
    assert_eq!(second.original_soft, first.effective_soft);
    assert_eq!(second.effective_soft, first.effective_soft);
    assert_eq!(second.hard, first.hard);
    assert!(!second.raised || first.effective_soft < second.effective_soft);
    assert_eq!(
        first.run_ceiling,
        run_ceiling_for_soft_limit(first.effective_soft)
    );
    // The limits are the machine's own: a process has a soft limit above the
    // standard streams.
    if let Some(soft) = first.effective_soft {
        assert!(soft > 3);
    }
}
