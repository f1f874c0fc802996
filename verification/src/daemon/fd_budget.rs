//! Startup file-descriptor budget and the live-Run ceiling that it funds.
//!
//! A live native Run keeps three descriptors open, on top of a fixed number
//! that the process needs anyway. The daemon raises its soft limit toward the
//! budget of its concurrency target and admits no more Runs than the limit
//! that was actually granted can fund.

use vstd::prelude::*;

use crate::daemon::limits::DescriptorLimits;

verus! {

/// Descriptors that one live native Run keeps open.
pub const FDS_PER_RUN: usize = 3;

/// Concurrent live Runs that the budget provisions for, and the default
/// admission ceiling.
pub const FD_BUDGET_LIVE_RUNS: usize = 4000;

/// Descriptors that the daemon holds regardless of its Runs.
pub const FD_BASELINE: usize = 16;

/// Descriptors kept reachable for client connections.
pub const FD_ATTACHMENT_HEADROOM: usize = 64;

/// Unpublished Runs that may exist beside the retained ones.
pub const MAX_CREATION_OWNER_SLOTS: usize = 8;

/// Descriptors reserved before any live Run.
pub open spec fn reserved() -> int {
    FD_BASELINE + FD_ATTACHMENT_HEADROOM + MAX_CREATION_OWNER_SLOTS * FDS_PER_RUN
}

/// Descriptors that the concurrency target needs.
pub open spec fn budget() -> int {
    FD_BUDGET_LIVE_RUNS * FDS_PER_RUN + reserved()
}

/// Live Runs that a soft limit funds, never more than the target. No limit
/// funds the target.
pub open spec fn funded_runs(soft: Option<u64>) -> int {
    match soft {
        None => FD_BUDGET_LIVE_RUNS as int,
        Some(soft) => if soft < reserved() {
            0
        } else if (soft - reserved()) / FDS_PER_RUN as int > FD_BUDGET_LIVE_RUNS {
            FD_BUDGET_LIVE_RUNS as int
        } else {
            (soft - reserved()) / FDS_PER_RUN as int
        },
    }
}

/// The soft limit to ask for: the budget, but never above the hard limit.
pub open spec fn desired(hard: Option<u64>) -> int {
    match hard {
        Some(hard) if hard < budget() => hard as int,
        _ => budget(),
    }
}

/// Whether a soft limit is to be raised. A limit is never lowered.
pub open spec fn is_raise(original: Option<u64>, hard: Option<u64>) -> bool {
    original matches Some(soft) && soft < desired(hard)
}

/// The limits to ask for, soft and hard, where the soft one is to be raised.
/// The hard limit stays what it is.
pub open spec fn limit_request(original: Option<u64>, hard: Option<u64>) -> Option<
    (u64, Option<u64>),
> {
    if is_raise(original, hard) {
        Some((desired(hard) as u64, hard))
    } else {
        None
    }
}

/// Descriptors reserved before any live Run.
pub fn reserved_fds() -> (r: usize)
    ensures
        r == reserved(),
{
    FD_BASELINE + FD_ATTACHMENT_HEADROOM + MAX_CREATION_OWNER_SLOTS * FDS_PER_RUN
}

/// Soft limit that funds the concurrency target.
pub fn fd_budget() -> (r: usize)
    ensures
        r == budget(),
{
    FD_BUDGET_LIVE_RUNS * FDS_PER_RUN + reserved_fds()
}

/// Live-Run ceiling that a soft limit funds. `None` is unlimited.
pub fn run_ceiling_for_soft_limit(effective_soft: Option<u64>) -> (r: usize)
    ensures
        r == funded_runs(effective_soft),
        r <= FD_BUDGET_LIVE_RUNS,
{
    match effective_soft {
        None => FD_BUDGET_LIVE_RUNS,
        Some(soft) => {
            let reserved: u64 = reserved_fds() as u64;
            let for_runs: u64 = if soft < reserved {
                0
            } else {
                soft - reserved
            };
            let funded: u64 = for_runs / FDS_PER_RUN as u64;
            if funded > FD_BUDGET_LIVE_RUNS as u64 {
                FD_BUDGET_LIVE_RUNS
            } else {
                funded as usize
            }
        },
    }
}

/// Outcome of applying the startup budget.
#[derive(Debug, Clone, Copy, PartialEq, Eq, Structural)]
pub struct FdBudgetOutcome {
    /// Soft limit in effect after any raise; `None` is unlimited.
    pub effective_soft: Option<u64>,
    /// Live-Run ceiling that the effective soft limit funds.
    pub run_ceiling: usize,
    /// The soft limit was raised toward the budget.
    pub raised: bool,
    /// The ceiling is below the concurrency target.
    pub clamped: bool,
    /// Soft limit before any raise; `None` is unlimited.
    pub original_soft: Option<u64>,
    /// Hard limit; `None` is unlimited.
    pub hard: Option<u64>,
}

/// What the observed limits mean for admission.
pub open spec fn outcome_of(
    original: Option<u64>,
    hard: Option<u64>,
    raised: bool,
    effective: Option<u64>,
) -> FdBudgetOutcome {
    FdBudgetOutcome {
        effective_soft: effective,
        run_ceiling: funded_runs(effective) as usize,
        raised,
        clamped: funded_runs(effective) < FD_BUDGET_LIVE_RUNS,
        original_soft: original,
        hard,
    }
}

/// Decide which limits to ask for, soft and hard, where the observed soft one
/// is to be raised.
pub fn limit_to_request(original: Option<u64>, hard: Option<u64>) -> (r: Option<
    (u64, Option<u64>),
>)
    ensures
        r == limit_request(original, hard),
{
    let budget: u64 = fd_budget() as u64;
    let desired: u64 = match hard {
        Some(hard) => if hard < budget {
            hard
        } else {
            budget
        },
        None => budget,
    };
    match original {
        Some(soft) => if soft < desired {
            Some((desired, hard))
        } else {
            None
        },
        None => None,
    }
}

/// Judge the limits that were observed before and after a raise.
pub fn judge_fd_budget(
    original: Option<u64>,
    hard: Option<u64>,
    raised: bool,
    effective: Option<u64>,
) -> (r: FdBudgetOutcome)
    ensures
        r == outcome_of(original, hard, raised, effective),
{
    let run_ceiling: usize = run_ceiling_for_soft_limit(effective);
    FdBudgetOutcome {
        effective_soft: effective,
        run_ceiling,
        raised,
        clamped: run_ceiling < FD_BUDGET_LIVE_RUNS,
        original_soft: original,
        hard,
    }
}

/// Raise the soft descriptor limit of this process toward the budget, without
/// touching the hard limit, and judge the limit that was actually granted.
pub fn apply_fd_budget() -> (r: FdBudgetOutcome)
    ensures
        r == outcome_of(r.original_soft, r.hard, r.raised, r.effective_soft),
        r.raised ==> is_raise(r.original_soft, r.hard),
{
    let limits = DescriptorLimits::read();
    let original = limits.soft_limit();
    let hard = limits.hard_limit();
    let raised = match limit_to_request(original, hard) {
        Some((soft, unchanged)) => limits.request(soft, unchanged),
        None => false,
    };
    let effective = DescriptorLimits::read().soft_limit();
    judge_fd_budget(original, hard, raised, effective)
}

/// What is asked for never lowers the soft limit, never exceeds the hard limit
/// and never changes it; at or above the desired limit nothing is asked for.
pub proof fn law_a_request_only_raises_the_soft_limit(original: Option<u64>, hard: Option<u64>)
    ensures
        match limit_request(original, hard) {
            Some((soft, asked)) => {
                &&& asked == hard
                &&& original matches Some(before) && before < soft
                &&& soft <= budget()
                &&& hard matches Some(most) ==> soft <= most
            },
            None => original matches Some(before) ==> before >= desired(hard),
        },
{
}

/// The budget funds exactly the concurrency target: one descriptor less does
/// not.
pub proof fn law_budget_is_the_least_limit_for_the_target(soft: u64)
    ensures
        funded_runs(Some(soft)) == FD_BUDGET_LIVE_RUNS <==> soft >= budget(),
{
}

/// A higher soft limit never funds fewer Runs, and no limit funds most.
pub proof fn law_ceiling_is_monotone(low: u64, high: u64)
    requires
        low <= high,
    ensures
        funded_runs(Some(low)) <= funded_runs(Some(high)) <= funded_runs(None),
{
}

/// Every Run under the ceiling has its descriptors beside the reserved ones.
pub proof fn law_ceiling_is_funded(soft: u64)
    requires
        soft >= reserved(),
    ensures
        funded_runs(Some(soft)) * FDS_PER_RUN + reserved() <= soft,
{
}

/// A second application after a granted raise asks for nothing more.
pub proof fn law_raise_is_idempotent(original: Option<u64>, hard: Option<u64>)
    requires
        is_raise(original, hard),
    ensures
        !is_raise(Some(desired(hard) as u64), hard),
{
}

} // verus!
