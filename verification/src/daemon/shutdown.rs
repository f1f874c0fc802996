//! Shutting down what the daemon owns, and reporting what could not be cleaned
//! up.

use vstd::prelude::*;

use crate::daemon::ledger::{about_run, about_run_text, wait_failures};
use crate::daemon::manager::{ManagerView, RunManager};
use crate::daemon::owners::{lemma_texts_multiset, FlightsView};
use crate::daemon::registry::{RegistryEntry, Residency};
use crate::daemon::server::ServerError;
use crate::daemon::tmux_tracker::CleanupResult;
use crate::identity::RunId;
use crate::order::{sort_texts, texts_of, texts_sorted};
use crate::text::{joined, joined3, joined_all, owned};

verus! {

fn join_texts(texts: &Vec<String>, separator: &str) -> (r: String)
    requires
        texts@.len() > 0,
    ensures
        r@ == joined_all(texts_of(texts@), separator@),
{
    let mut r = texts[0].clone();
    let mut i: usize = 1;
    let ghost all = texts_of(texts@);
    proof {
        reveal_with_fuel(joined_all, 2);
        assert(all.take(1)[0] == texts@[0]@);
    }
    while i < texts.len()
        invariant
            all == texts_of(texts@),
            1 <= i <= texts@.len(),
            r@ == joined_all(all.take(i as int), separator@),
        decreases texts@.len() - i,
    {
        assert(all.take(i + 1).drop_last() =~= all.take(i as int));
        r = joined3(r.as_str(), separator, texts[i].as_str());
        i = i + 1;
    }
    assert(all.take(i as int) =~= all);
    r
}

/// The Runs whose controls have not completed.
pub open spec fn still_pending(pending: Seq<RunId>, observed: Seq<Option<CleanupResult>>) -> Seq<
    RunId,
>
    decreases pending.len(),
{
    if pending.len() == 0 {
        seq![]
    } else {
        let rest = still_pending(pending.drop_last(), observed);
        if observed[pending.len() - 1] is None {
            rest.push(pending.last())
        } else {
            rest
        }
    }
}

/// A failure of one Run.
pub open spec fn run_failure(id: RunId, failure: Seq<char>) -> Seq<char> {
    about_run(id, ": "@ + failure)
}

/// The failures of the controls that have completed.
pub open spec fn reported_failures(
    pending: Seq<RunId>,
    observed: Seq<Option<CleanupResult>>,
) -> Seq<Seq<char>>
    decreases pending.len(),
{
    if pending.len() == 0 {
        seq![]
    } else {
        let rest = reported_failures(pending.drop_last(), observed);
        match observed[pending.len() - 1] {
            Some(Err(failure)) => rest.push(run_failure(pending.last(), failure@)),
            _ => rest,
        }
    }
}

/// What is still to shut down, and what failed.
pub struct ShutdownView {
    pub failures: Seq<Seq<char>>,
    pub pending: Seq<RunId>,
}

impl ShutdownView {
    /// The shutdown after a look at every pending control.
    pub open spec fn observed(&self, observed: Seq<Option<CleanupResult>>) -> ShutdownView {
        ShutdownView {
            failures: self.failures + reported_failures(self.pending, observed),
            pending: still_pending(self.pending, observed),
        }
    }

    /// The shutdown after its deadline: every pending control failed.
    pub open spec fn expired(&self) -> ShutdownView {
        ShutdownView {
            failures: self.failures + self.pending.map_values(
                |id: RunId| run_failure(id, "timed out waiting for tmux control cleanup"@),
            ),
            pending: seq![],
        }
    }

    /// Everything that failed.
    pub open spec fn all_failures(
        &self,
        flights_drained: bool,
        cleanups: Seq<Seq<char>>,
        waits: Seq<(RunId, String)>,
    ) -> Seq<Seq<char>> {
        let flights = if flights_drained {
            seq![]
        } else {
            seq!["timed out waiting for in-flight Run creation to finish"@]
        };
        self.failures + flights + cleanups.map_values(
            |failure: Seq<char>| "unpublished Run cleanup "@ + failure,
        ) + waits.map_values(|wait: (RunId, String)| run_failure(wait.0, wait.1@))
    }
}

/// A shutdown that is under way.
pub struct ControlShutdown {
    failures: Vec<String>,
    pending: Vec<RunId>,
}

/// Whether tmux operations have ended: `None` means to wait a little longer,
/// and `Some` tells whether they did before the deadline.
pub fn tmux_operations_ended(acquired: bool, deadline_passed: bool) -> (r: Option<bool>)
    ensures
        r == (if acquired {
            Some(true)
        } else if deadline_passed {
            Some(false)
        } else {
            None
        }),
{
    if acquired {
        Some(true)
    } else if deadline_passed {
        Some(false)
    } else {
        None
    }
}

fn run_failure_text(id: RunId, failure: &str) -> (r: String)
    ensures
        r@ == run_failure(id, failure@),
{
    let rest = joined(": ", failure);
    about_run_text(id, rest.as_str())
}

impl RunManager {
    /// Refuse further creations and tmux operations.
    pub fn fence_owned_work(&mut self)
        requires
            old(self)@.valid(),
        ensures
            final(self)@.valid(),
            final(self)@ == (ManagerView {
                flights: FlightsView { accepting: false, ..old(self)@.flights },
                tmux_shutting_down: true,
                ..old(self)@
            }),
    {
        self.creation_flights.fence();
        self.tmux_shutting_down = true;
    }
}

impl ControlShutdown {
    /// What is still to shut down, and what failed.
    pub closed spec fn view(&self) -> ShutdownView {
        ShutdownView { failures: texts_of(self.failures@), pending: self.pending@ }
    }

    /// Begin once tmux operations have ended, or did not before the deadline:
    /// every available Run that observes a pane is to be shut down.
    pub fn begin(manager: &RunManager, operations_ended: bool) -> (r: ControlShutdown)
        ensures
            r@.failures == (if operations_ended {
                seq![]
            } else {
                seq!["timed out waiting for an in-flight tmux operation to finish"@]
            }),
            r@.pending == manager@.registry.runs.filter(
                |entry: RegistryEntry|
                    entry.residency == Residency::Retained && entry.facts.tmux_controlled,
            ).map_values(|entry: RegistryEntry| entry.facts.id),
    {
        let mut failures: Vec<String> = Vec::new();
        if !operations_ended {
            failures.push(owned("timed out waiting for an in-flight tmux operation to finish"));
        }
        let r = ControlShutdown { failures, pending: manager.registry.pin_tmux_for_shutdown() };
        assert(operations_ended ==> r@.failures =~= seq![]);
        assert(!operations_ended ==> r@.failures
            =~= seq!["timed out waiting for an in-flight tmux operation to finish"@]);
        r
    }

    /// The Runs whose controls are still pending.
    pub fn pending(&self) -> (r: &Vec<RunId>)
        ensures
            r@ == self@.pending,
    {
        &self.pending
    }

    /// Note what a look at every pending control showed.
    pub fn observe(&mut self, observed: &Vec<Option<CleanupResult>>)
        requires
            observed@.len() == old(self)@.pending.len(),
        ensures
            final(self)@ == old(self)@.observed(observed@),
    {
        let ghost before = self@;
        let mut pending: Vec<RunId> = Vec::new();
        let mut i: usize = 0;
        assert(before.pending.take(0) =~= seq![]);
        assert(self@.failures =~= before.failures + reported_failures(
            before.pending.take(0),
            observed@,
        ));
        while i < self.pending.len()
            invariant
                before.pending == self.pending@,
                observed@.len() == before.pending.len(),
                i <= self.pending@.len(),
                pending@ == still_pending(before.pending.take(i as int), observed@),
                self@.failures == before.failures + reported_failures(
                    before.pending.take(i as int),
                    observed@,
                ),
            decreases self.pending@.len() - i,
        {
            assert(before.pending.take(i + 1).drop_last() =~= before.pending.take(i as int));
            assert(before.pending.take(i + 1).last() == before.pending[i as int]);
            let ghost earlier = self@.failures;
            match &observed[i] {
                None => pending.push(self.pending[i]),
                Some(Ok(_)) => {},
                Some(Err(failure)) => {
                    let line = run_failure_text(self.pending[i], failure.as_str());
                    self.failures.push(line);
                    assert(self@.failures =~= earlier.push(line@));
                },
            }
            i = i + 1;
            assert(self@.failures =~= before.failures + reported_failures(
                before.pending.take(i as int),
                observed@,
            ));
        }
        assert(before.pending.take(i as int) =~= before.pending);
        self.pending = pending;
    }

    /// Give up waiting at the deadline.
    pub fn expire(&mut self)
        ensures
            final(self)@ == old(self)@.expired(),
    {
        let ghost before = self@;
        let ghost late = |id: RunId| run_failure(id, "timed out waiting for tmux control cleanup"@);
        let mut i: usize = 0;
        assert(before.pending.take(0) =~= seq![]);
        assert(self@.failures =~= before.failures + before.pending.take(0).map_values(late));
        while i < self.pending.len()
            invariant
                before.pending == self.pending@,
                late == (|id: RunId|
                    run_failure(id, "timed out waiting for tmux control cleanup"@)),
                i <= self.pending@.len(),
                self@.failures == before.failures + before.pending.take(i as int).map_values(
                    late,
                ),
            decreases self.pending@.len() - i,
        {
            let ghost earlier = self@.failures;
            let line = run_failure_text(
                self.pending[i],
                "timed out waiting for tmux control cleanup",
            );
            self.failures.push(line);
            assert(self@.failures =~= earlier.push(line@));
            i = i + 1;
            assert(self@.failures =~= before.failures + before.pending.take(i as int).map_values(
                late,
            ));
        }
        assert(before.pending.take(i as int) =~= before.pending);
        self.pending = Vec::new();
        assert(self@.pending =~= seq![]);
    }

    /// Decide after a look at every pending control: go on waiting while one is
    /// pending, and give up on those that are left at the deadline. The result
    /// says whether the wait is over.
    pub fn poll(&mut self, observed: &Vec<Option<CleanupResult>>, deadline_passed: bool) -> (r:
        bool)
        requires
            observed@.len() == old(self)@.pending.len(),
        ensures
            final(self)@ == (if deadline_passed {
                old(self)@.observed(observed@).expired()
            } else {
                old(self)@.observed(observed@)
            }),
            r == (final(self)@.pending.len() == 0),
            deadline_passed ==> r,
    {
        self.observe(observed);
        if deadline_passed {
            self.expire();
        }
        self.pending.len() == 0
    }

    /// End the shutdown: succeed only if nothing failed, and otherwise report
    /// every failure once, in the order of the lines.
    pub fn shutdown_owned_controls(
        self,
        flights_drained: bool,
        cleanups: Vec<String>,
        manager: &RunManager,
    ) -> (r: Result<(), ServerError>)
        requires
            self@.pending.len() == 0,
        ensures
            ({
                let all = self@.all_failures(
                    flights_drained,
                    texts_of(cleanups@),
                    wait_failures(manager@.registry.runs),
                );
                if all.len() == 0 {
                    r == Ok::<(), ServerError>(())
                } else {
                    exists|sorted: Seq<Seq<char>>| #[trigger]
                        texts_sorted(sorted) && sorted.to_multiset() == all.to_multiset() && (
                        r matches Err(error) && error.is_shutdown(joined_all(sorted, "; "@)))
                }
            }),
    {
        let ghost start = self@.failures;
        let ghost lines_of_cleanups = texts_of(cleanups@).map_values(
            |failure: Seq<char>| "unpublished Run cleanup "@ + failure,
        );
        let mut failures = self.failures;
        if !flights_drained {
            failures.push(owned("timed out waiting for in-flight Run creation to finish"));
        }
        let ghost flights = if flights_drained {
            seq![]
        } else {
            seq!["timed out waiting for in-flight Run creation to finish"@]
        };
        assert(texts_of(failures@) =~= start + flights);
        let mut i: usize = 0;
        assert(lines_of_cleanups.take(0) =~= seq![]);
        assert(texts_of(failures@) =~= start + flights + lines_of_cleanups.take(0));
        while i < cleanups.len()
            invariant
                lines_of_cleanups == texts_of(cleanups@).map_values(
                    |failure: Seq<char>| "unpublished Run cleanup "@ + failure,
                ),
                i <= cleanups@.len(),
                texts_of(failures@) == start + flights + lines_of_cleanups.take(i as int),
            decreases cleanups@.len() - i,
        {
            let ghost earlier = failures@;
            let line = joined("unpublished Run cleanup ", cleanups[i].as_str());
            failures.push(line);
            assert(texts_of(failures@) =~= texts_of(earlier).push(line@));
            i = i + 1;
            assert(texts_of(failures@) =~= start + flights + lines_of_cleanups.take(i as int));
        }
        assert(lines_of_cleanups.take(i as int) =~= lines_of_cleanups);
        let waits = manager.registry.native_wait_failures();
        let ghost before_waits = start + flights + lines_of_cleanups;
        let ghost lines_of_waits = waits@.map_values(
            |wait: (RunId, String)| run_failure(wait.0, wait.1@),
        );
        let mut k: usize = 0;
        assert(lines_of_waits.take(0) =~= seq![]);
        assert(texts_of(failures@) =~= before_waits + lines_of_waits.take(0));
        while k < waits.len()
            invariant
                lines_of_waits == waits@.map_values(
                    |wait: (RunId, String)| run_failure(wait.0, wait.1@),
                ),
                k <= waits@.len(),
                texts_of(failures@) == before_waits + lines_of_waits.take(k as int),
            decreases waits@.len() - k,
        {
            let ghost earlier = failures@;
            let line = run_failure_text(waits[k].0, waits[k].1.as_str());
            failures.push(line);
            assert(texts_of(failures@) =~= texts_of(earlier).push(line@));
            k = k + 1;
            assert(texts_of(failures@) =~= before_waits + lines_of_waits.take(k as int));
        }
        assert(lines_of_waits.take(k as int) =~= lines_of_waits);
        let ghost all = texts_of(failures@);
        if failures.len() == 0 {
            assert(all.len() == 0);
            return Ok(());
        }
        let ghost unsorted = failures@;
        let sorted = sort_texts(failures);
        proof {
            lemma_texts_multiset(sorted@, unsorted);
            assert(texts_sorted(texts_of(sorted@)));
        }
        Err(ServerError::Shutdown { failures: join_texts(&sorted, "; ") })
    }
}

proof fn lemma_looks_account_for_all(pending: Seq<RunId>, observed: Seq<Option<CleanupResult>>)
    requires
        observed.len() >= pending.len(),
    ensures
        forall|i: int|
            0 <= i < pending.len() && (#[trigger] observed[i]) is None ==> still_pending(
                pending,
                observed,
            ).contains(pending[i]),
        forall|i: int|
            0 <= i < pending.len() ==> ((#[trigger] observed[i]) matches Some(Err(failure))
                ==> reported_failures(pending, observed).contains(
                run_failure(pending[i], failure@),
            )),
        still_pending(pending, observed).len() + reported_failures(pending, observed).len()
            <= pending.len(),
    decreases pending.len(),
{
    if pending.len() > 0 {
        let shorter = pending.drop_last();
        let last = pending.len() - 1;
        lemma_looks_account_for_all(shorter, observed);
        let kept = still_pending(shorter, observed);
        let told = reported_failures(shorter, observed);
        assert forall|i: int|
            0 <= i < pending.len() && (#[trigger] observed[i]) is None implies still_pending(
            pending,
            observed,
        ).contains(pending[i]) by {
            let all = still_pending(pending, observed);
            if i == last {
                assert(all[all.len() - 1] == pending[i]);
            } else {
                assert(kept.contains(shorter[i]));
                let k = choose|k: int| 0 <= k < kept.len() && kept[k] == shorter[i];
                assert(all[k] == pending[i]);
            }
        }
        assert forall|i: int| 0 <= i < pending.len() implies ((#[trigger] observed[i])
            matches Some(Err(failure)) ==> reported_failures(pending, observed).contains(
            run_failure(pending[i], failure@),
        )) by {
            if let Some(Err(failure)) = observed[i] {
                let all = reported_failures(pending, observed);
                let line = run_failure(pending[i], failure@);
                if i == last {
                    assert(all[all.len() - 1] == line);
                } else {
                    assert(told.contains(run_failure(shorter[i], failure@)));
                    let k = choose|k: int| 0 <= k < told.len() && told[k] == line;
                    assert(all[k] == line);
                }
            }
        }
    }
}

/// Nothing that is shut down gets lost: after a look, every control is still
/// pending, has completed cleanly, or has its failure reported; and at the
/// deadline every control that is left is reported.
pub proof fn law_shutdown_accounts_for_every_control(
    shutdown: ShutdownView,
    observed: Seq<Option<CleanupResult>>,
    place: int,
)
    requires
        observed.len() == shutdown.pending.len(),
        0 <= place < shutdown.pending.len(),
    ensures
        match observed[place] {
            None => shutdown.observed(observed).pending.contains(shutdown.pending[place]),
            Some(Ok(_)) => true,
            Some(Err(failure)) => shutdown.observed(observed).failures.contains(
                run_failure(shutdown.pending[place], failure@),
            ),
        },
        shutdown.expired().failures.contains(
            run_failure(
                shutdown.pending[place],
                "timed out waiting for tmux control cleanup"@,
            ),
        ),
        shutdown.expired().pending.len() == 0,
{
    lemma_looks_account_for_all(shutdown.pending, observed);
    if let Some(Err(failure)) = observed[place] {
        let told = reported_failures(shutdown.pending, observed);
        let line = run_failure(shutdown.pending[place], failure@);
        assert(told.contains(line));
        let k = choose|k: int| 0 <= k < told.len() && told[k] == line;
        assert(shutdown.observed(observed).failures[shutdown.failures.len() + k] == line);
    }
    assert(shutdown.expired().failures[shutdown.failures.len() + place] == run_failure(
        shutdown.pending[place],
        "timed out waiting for tmux control cleanup"@,
    ));
}

} // verus!
