//! Numbers and names: descriptor limits, decimal texts and identities.

use vstd::prelude::*;

use crate::daemon::fd_budget::{
    apply_fd_budget, fd_budget, judge_fd_budget, limit_to_request, reserved_fds,
    run_ceiling_for_soft_limit, FdBudgetOutcome,
};
use crate::daemon::gauges::{
    collecting_tickets, keyed_runs, lemma_collecting_tickets, RegistryGauges,
};
use crate::daemon::registry::{RegistryEntry, Residency, RunRegistry};
use crate::identity::{law_texts_identify, DaemonInstanceId, RunId};
use crate::text::{decimal, decimal_text};

verus! {

/// The daemon needs a hundred and four descriptors of its own, and twelve
/// thousand more for its Runs.
pub proof fn law_the_descriptor_budget_is_fixed(reserved: usize, budget: usize)
    requires
        call_ensures(reserved_fds, (), reserved),
        call_ensures(fd_budget, (), budget),
    ensures
        reserved == 104,
        budget == 12104,
{
}

/// As many Runs are admitted as the limit funds with three descriptors each
/// beside the daemon's own, and four thousand at most.
pub proof fn law_as_many_runs_are_admitted_as_are_funded(soft: Option<u64>, ceiling: usize)
    requires
        call_ensures(run_ceiling_for_soft_limit, (soft,), ceiling),
    ensures
        ceiling <= 4000,
        soft is None ==> ceiling == 4000,
        soft matches Some(limit) ==> {
            &&& limit < 104 ==> ceiling == 0
            &&& limit >= 104 ==> ceiling * 3 + 104 <= limit
            &&& limit >= 104 ==> ceiling == 4000 || (ceiling + 1) * 3 + 104 > limit
        },
{
}

/// A limit is asked for only to raise it toward the budget, as far as the hard
/// limit allows; the hard limit is left as it is.
pub proof fn law_a_limit_is_only_raised_toward_the_budget(
    soft: Option<u64>,
    hard: Option<u64>,
    request: Option<(u64, Option<u64>)>,
)
    requires
        call_ensures(limit_to_request, (soft, hard), request),
    ensures
        request matches Some((asked, kept)) ==> {
            &&& kept == hard
            &&& soft matches Some(before) && before < asked
            &&& asked <= 12104
            &&& hard matches Some(most) ==> asked <= most
            &&& asked == 12104 || hard == Some(asked)
        },
        request is None ==> (soft matches Some(before) ==> before >= 12104 || (hard matches Some(
            most,
        ) && before >= most)),
{
}

/// The outcome tells the limits as they were and are, and the ceiling that the
/// limit in force funds; it is clamped exactly where that is under the target.
pub proof fn law_the_outcome_tells_what_is_funded(
    soft: Option<u64>,
    hard: Option<u64>,
    raised: bool,
    effective: Option<u64>,
    ceiling: usize,
    outcome: FdBudgetOutcome,
    applied: FdBudgetOutcome,
    funded: usize,
)
    requires
        call_ensures(judge_fd_budget, (soft, hard, raised, effective), outcome),
        call_ensures(run_ceiling_for_soft_limit, (effective,), ceiling),
        call_ensures(apply_fd_budget, (), applied),
        call_ensures(run_ceiling_for_soft_limit, (applied.effective_soft,), funded),
    ensures
        outcome.original_soft == soft && outcome.hard == hard && outcome.raised == raised,
        outcome.effective_soft == effective,
        outcome.run_ceiling == ceiling,
        outcome.clamped <==> ceiling < 4000,
        applied.run_ceiling == funded,
        applied.clamped <==> funded < 4000,
        applied.raised ==> (applied.original_soft matches Some(before) && before < 12104),
{
}

/// The value of a text of decimal digits.
pub open spec fn value_of_digits(text: Seq<char>) -> int
    decreases text.len(),
{
    if text.len() == 0 {
        0
    } else {
        value_of_digits(text.drop_last()) * 10 + (text.last() as int - '0' as int)
    }
}

/// The text of a number has its value and is made of decimal digits, without a
/// leading zero.
pub proof fn law_a_number_is_written_in_decimal(n: u64, text: String)
    requires
        call_ensures(decimal_text, (n,), text),
    ensures
        value_of_digits(text@) == n,
        text@.len() > 0,
        forall|i: int| 0 <= i < text@.len() ==> '0' <= #[trigger] text@[i] <= '9',
        text@.len() > 1 ==> text@[0] != '0',
{
    lemma_decimal_value(n as nat);
}

proof fn lemma_decimal_value(n: nat)
    ensures
        value_of_digits(decimal(n)) == n,
        decimal(n).len() > 0,
        forall|i: int| 0 <= i < decimal(n).len() ==> '0' <= #[trigger] decimal(n)[i] <= '9',
        decimal(n).len() > 1 ==> decimal(n)[0] != '0',
        n > 0 ==> decimal(n)[0] != '0',
    decreases n,
{
    if n < 10 {
        let text = decimal(n);
        assert(text.drop_last() =~= seq![]);
        assert(value_of_digits(text.drop_last()) == 0);
    } else {
        lemma_decimal_value(n / 10);
        let text = decimal(n);
        assert(text.drop_last() =~= decimal(n / 10));
        assert(text[0] == decimal(n / 10)[0]);
    }
}

/// The text of an identity is read back as that identity, and different
/// identities have different texts.
pub proof fn law_an_identity_is_read_back(
    id: DaemonInstanceId,
    text: String,
    shown: &str,
    read: Result<DaemonInstanceId, String>,
    a: RunId,
    a_text: String,
    b: RunId,
    b_text: String,
)
    requires
        call_ensures(DaemonInstanceId::to_text, (&id,), text),
        shown@ == text@,
        call_ensures(DaemonInstanceId::parse, (shown,), read),
        call_ensures(RunId::to_text, (&a,), a_text),
        call_ensures(RunId::to_text, (&b,), b_text),
    ensures
        read == Ok::<DaemonInstanceId, String>(id),
        a_text@ == b_text@ <==> a == b,
        a_text@.len() == 36,
{
    if a_text@ == b_text@ {
        law_texts_identify(a.value, b.value);
    }
}

/// The gauges count what the registry holds.
pub proof fn law_the_gauges_count_what_is_held(registry: RunRegistry, gauges: RegistryGauges)
    requires
        call_ensures(RunRegistry::gauges, (&registry,), gauges),
    ensures
        gauges.retained_runs == registry@.runs.len(),
        gauges.publication_reservations == registry@.reservations.len(),
        gauges.creation_keys == runs_with_a_key(registry@.runs),
        gauges.collecting_tickets == tickets_of_leaving_runs(registry@.runs).len(),
{
    lemma_keys_are_counted(registry@.runs);
    lemma_collecting_tickets(registry@.runs);
    assert(collecting_tickets(registry@.runs) =~= tickets_of_leaving_runs(registry@.runs));
}

/// How many Runs have a key.
pub open spec fn runs_with_a_key(runs: Seq<RegistryEntry>) -> int
    decreases runs.len(),
{
    if runs.len() == 0 {
        0
    } else if runs.last().operation_key is Some {
        runs_with_a_key(runs.drop_last()) + 1
    } else {
        runs_with_a_key(runs.drop_last())
    }
}

/// The tickets for which Runs are leaving.
pub open spec fn tickets_of_leaving_runs(runs: Seq<RegistryEntry>) -> Set<u64> {
    Set::new(
        |ticket: u64|
            exists|i: int|
                0 <= i < runs.len() && (#[trigger] runs[i]).residency == Residency::Collecting(
                    ticket,
                ),
    )
}

proof fn lemma_keys_are_counted(runs: Seq<RegistryEntry>)
    ensures
        keyed_runs(runs) == runs_with_a_key(runs),
    decreases runs.len(),
{
    if runs.len() > 0 {
        lemma_keys_are_counted(runs.drop_last());
    }
}

} // verus!
