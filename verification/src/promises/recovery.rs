//! What a start of the daemon brings back, and what its end accounts for.

use vstd::prelude::*;

use crate::daemon::manager::{info as describe, list, RunManager};
use crate::daemon::recovery::{
    adoption_failure, adoption_of, history_count, recovered_durable_head, Adoption, PersistedRun,
};
use crate::daemon::registry::{RegistryEntry, Residency};
use crate::daemon::run::{OwnerCursors, Run, RunControl};
use crate::daemon::server::ServerError;
use crate::daemon::shutdown::{
    reported_failures, still_pending, tmux_operations_ended, ControlShutdown,
};
use crate::daemon::tmux_tracker::CleanupResult;
use crate::identity::{law_identities_are_ordered_as_their_texts, RunId};
use crate::output::chunk_views;
use crate::promises::creation::{executes, law_the_content_is_the_whole_specification};
use crate::promises::stops::lemma_wait_failures_are_told;
use crate::protocol::{ErrorCode, InterruptionReason, ProtocolError, RunInfo, RunState};

verus! {

/// Whether the first adoption of a Run is this one.
pub open spec fn is_adopted_at(adoptions: Seq<Adoption>, id: RunId, place: int) -> bool {
    &&& 0 <= place < adoptions.len()
    &&& adoptions[place].id == id
    &&& forall|k: int| 0 <= k < place ==> (#[trigger] adoptions[k]).id != id
}

proof fn lemma_adoption_at(adoptions: Seq<Adoption>, id: RunId, place: int)
    requires
        is_adopted_at(adoptions, id, place),
    ensures
        adoption_of(adoptions, id) == Some(adoptions[place].outcome),
    decreases place,
{
    if place > 0 {
        let rest = adoptions.drop_first();
        assert(adoptions[0].id != id);
        assert forall|k: int| 0 <= k < place - 1 implies (#[trigger] rest[k]).id != id by {
            assert(adoptions[k + 1].id != id);
        }
        lemma_adoption_at(rest, id, place - 1);
    }
}

proof fn lemma_no_adoption(adoptions: Seq<Adoption>, id: RunId)
    requires
        forall|k: int| 0 <= k < adoptions.len() ==> (#[trigger] adoptions[k]).id != id,
    ensures
        adoption_of(adoptions, id) is None,
    decreases adoptions.len(),
{
    if adoptions.len() > 0 {
        let rest = adoptions.drop_first();
        assert(adoptions[0].id != id);
        assert forall|k: int| 0 <= k < rest.len() implies (#[trigger] rest[k]).id != id by {
            assert(adoptions[k + 1].id != id);
        }
        lemma_no_adoption(rest, id);
    }
}

/// Every persisted Run comes back, in its order, under its key and with the size
/// of its record. One whose child was adopted goes on with that child.
pub proof fn law_an_adopted_run_comes_back_alive(
    manager: &mut RunManager,
    persisted: Vec<PersistedRun>,
    adoptions: Vec<Adoption>,
    runs: Vec<Run>,
    place: int,
    adopted: int,
    pid: u32,
)
    requires
        call_ensures(
            RunManager::persistent_with_handoff,
            (manager, persisted, &adoptions),
            Ok(runs),
        ),
        0 <= place < persisted@.len(),
        is_adopted_at(adoptions@, persisted@[place].recovered.info.id, adopted),
        adoptions@[adopted].outcome == Ok::<u32, ProtocolError>(pid),
    ensures
        runs@.len() == persisted@.len(),
        ({
            let was = persisted@[place].recovered;
            let run = runs@[place]@;
            &&& run.id == was.info.id
            &&& run.pid == Some(pid)
            &&& run.control == Some(RunControl::Native)
            &&& run.state == was.info.state
            &&& run.lineage == was.info.lineage
            &&& run.output.chunks == chunk_views(was.replay.chunks@)
            &&& run.output.latest == was.replay.latest_output_bytes
            &&& run.ordinal is None
            &&& was.info.spec matches Some(spec) ==> (run.spec matches Some(content) && executes(
                spec,
                content,
            ))
        }),
{
    let id = persisted@[place].recovered.info.id;
    lemma_adoption_at(adoptions@, id, adopted);
    let r = Ok::<Vec<Run>, ProtocolError>(runs);
    assert(r->Ok_0@[place].wf());
    if let Some(spec) = persisted@[place].recovered.info.spec {
        law_the_content_is_the_whole_specification(spec);
    }
}

/// A persisted Run that nobody adopted is history: what was running was
/// interrupted by the restart, and it takes no command.
pub proof fn law_a_run_that_nobody_adopted_is_history(
    manager: &mut RunManager,
    persisted: Vec<PersistedRun>,
    adoptions: Vec<Adoption>,
    runs: Vec<Run>,
    place: int,
)
    requires
        call_ensures(
            RunManager::persistent_with_handoff,
            (manager, persisted, &adoptions),
            Ok(runs),
        ),
        0 <= place < persisted@.len(),
        forall|k: int|
            0 <= k < adoptions@.len() ==> (#[trigger] adoptions@[k]).id
                != persisted@[place].recovered.info.id,
    ensures
        runs@.len() == persisted@.len(),
        ({
            let was = persisted@[place].recovered;
            let run = runs@[place]@;
            &&& run.id == was.info.id
            &&& run.pid == was.info.pid
            &&& run.control is None
            &&& run.state == (if was.info.state is Running {
                RunState::Interrupted { reason: InterruptionReason::DaemonRestart }
            } else {
                was.info.state
            })
            &&& run.lineage == was.info.lineage
            &&& run.output.chunks == chunk_views(was.replay.chunks@)
            &&& run.output.latest == was.replay.latest_output_bytes
            &&& run.ordinal is Some
        }),
{
    lemma_no_adoption(adoptions@, persisted@[place].recovered.info.id);
    let r = Ok::<Vec<Run>, ProtocolError>(runs);
    assert(r->Ok_0@[place].wf());
}

/// What comes back is retained under its own key, with its own record's size,
/// and without a Stop.
pub proof fn law_a_recovered_run_is_retained_under_its_key(
    manager: &mut RunManager,
    persisted: Vec<PersistedRun>,
    adoptions: Vec<Adoption>,
    runs: Vec<Run>,
    place: int,
)
    requires
        call_ensures(
            RunManager::persistent_with_handoff,
            (manager, persisted, &adoptions),
            Ok(runs),
        ),
        0 <= place < persisted@.len(),
    ensures
        final(manager)@.registry.runs.len() == persisted@.len(),
        ({
            let entry = final(manager)@.registry.runs[place];
            &&& entry.facts.id == persisted@[place].recovered.info.id
            &&& entry.operation_key == Some(persisted@[place].operation_key)
            &&& entry.metadata_bytes == Some(persisted@[place].metadata_bytes)
            &&& entry.stop is None
            &&& entry.residency == Residency::Retained
            &&& entry.facts.running == runs@[place]@.state is Running
        }),
        final(manager)@.registry.reservations == old(manager)@.registry.reservations,
        final(manager)@.daemon_instance == old(manager)@.daemon_instance,
{
    let r = Ok::<Vec<Run>, ProtocolError>(runs);
    assert(r->Ok_0@[place].wf());
}

proof fn lemma_failed_adoption_is_found(
    persisted: Seq<PersistedRun>,
    adoptions: Seq<Adoption>,
    place: int,
)
    requires
        0 <= place < persisted.len(),
        adoption_of(adoptions, persisted[place].recovered.info.id) matches Some(Err(_)),
    ensures
        adoption_failure(persisted, adoptions) is Some,
    decreases persisted.len(),
{
    if place < persisted.len() - 1 {
        assert(persisted.drop_last()[place] == persisted[place]);
        lemma_failed_adoption_is_found(persisted.drop_last(), adoptions, place);
    }
}

/// A child that could not be adopted fails the start.
pub proof fn law_a_failed_adoption_fails_the_start(
    manager: &mut RunManager,
    persisted: Vec<PersistedRun>,
    adoptions: Vec<Adoption>,
    r: Result<Vec<Run>, ProtocolError>,
    place: int,
    adopted: int,
)
    requires
        call_ensures(
            RunManager::persistent_with_handoff,
            (manager, persisted, &adoptions),
            r,
        ),
        0 <= place < persisted@.len(),
        is_adopted_at(adoptions@, persisted@[place].recovered.info.id, adopted),
        adoptions@[adopted].outcome is Err,
    ensures
        r is Err,
{
    lemma_adoption_at(adoptions@, persisted@[place].recovered.info.id, adopted);
    lemma_failed_adoption_is_found(persisted@, adoptions@, place);
}

/// Durable output goes on from what the record has, or from the latest output
/// where the record says nothing.
pub proof fn law_durable_output_goes_on_from_the_record(info: RunInfo, head: u64)
    requires
        call_ensures(recovered_durable_head, (&info,), head),
    ensures
        info.durable_output_bytes matches Some(bytes) ==> head == bytes,
        info.durable_output_bytes is None ==> head == info.latest_output_bytes,
{
}

/// A status is of the Run that was asked for, where there is one.
pub proof fn law_a_status_is_of_its_run(
    id: RunId,
    run: Run,
    cursors: OwnerCursors,
    found: Result<RunInfo, ProtocolError>,
    absent: Result<RunInfo, ProtocolError>,
)
    requires
        call_ensures(describe, (id, Some(&run), cursors), found),
        call_ensures(describe, (id, None, cursors), absent),
    ensures
        found matches Ok(info) && info.id == run@.id && info.state == run@.state && info.pid
            == run@.pid && info.latest_output_bytes == run@.output.latest && info.attachments
            == run@.attachments,
        absent matches Err(error) && error.code == ErrorCode::RunNotFound,
{
}

/// A list holds every description once, by ascending identity.
pub proof fn law_a_list_is_in_order(infos: Vec<RunInfo>, listed: Vec<RunInfo>)
    requires
        call_ensures(list, (infos,), listed),
    ensures
        listed@.len() == infos@.len(),
        forall|info: RunInfo| #[trigger] listed@.contains(info) <==> infos@.contains(info),
        forall|i: int, j: int|
            0 <= i <= j < listed@.len() ==> (#[trigger] listed@[i]).id.value <= (
            #[trigger] listed@[j]).id.value,
{
    broadcast use vstd::seq_lib::group_to_multiset_ensures;

    assert forall|info: RunInfo| #[trigger]
        listed@.contains(info) <==> infos@.contains(info) by {
        assert(listed@.contains(info) <==> listed@.to_multiset().count(info) > 0);
        assert(infos@.contains(info) <==> infos@.to_multiset().count(info) > 0);
    }
    assert forall|i: int, j: int| 0 <= i <= j < listed@.len() implies (
    #[trigger] listed@[i]).id.value <= (#[trigger] listed@[j]).id.value by {
        law_identities_are_ordered_as_their_texts(listed@[i].id.value, listed@[j].id.value);
    }
}

/// The wait for tmux work ends when it is done, or at the deadline, and then
/// says that some was left.
pub proof fn law_the_wait_for_tmux_work_ends_with_it(
    acquired: bool,
    deadline_passed: bool,
    r: Option<bool>,
)
    requires
        call_ensures(tmux_operations_ended, (acquired, deadline_passed), r),
    ensures
        r == Some(true) <==> acquired,
        r is None <==> !acquired && !deadline_passed,
{
}

/// A shutdown waits for exactly the retained Runs that tmux controls, and counts
/// tmux work that was left as a failure.
pub proof fn law_a_shutdown_waits_for_every_tmux_run(
    manager: RunManager,
    ended: bool,
    shutdown: ControlShutdown,
)
    requires
        call_ensures(ControlShutdown::begin, (&manager, ended), shutdown),
    ensures
        shutdown@.failures.len() == 0 <==> ended,
        forall|id: RunId| #[trigger]
            shutdown@.pending.contains(id) <==> exists|i: int|
                0 <= i < manager@.registry.runs.len() && (
                #[trigger] manager@.registry.runs[i]).facts.id == id
                    && manager@.registry.runs[i].residency == Residency::Retained
                    && manager@.registry.runs[i].facts.tmux_controlled,
{
    let runs = manager@.registry.runs;
    let keep = |entry: RegistryEntry|
        entry.residency == Residency::Retained && entry.facts.tmux_controlled;
    let kept = runs.filter(keep);
    runs.filter_lemma(keep);
    assert forall|id: RunId| #[trigger] shutdown@.pending.contains(id) <==> exists|i: int|
        0 <= i < runs.len() && (#[trigger] runs[i]).facts.id == id && runs[i].residency
            == Residency::Retained && runs[i].facts.tmux_controlled by {
        if shutdown@.pending.contains(id) {
            let k = choose|k: int| 0 <= k < shutdown@.pending.len() && shutdown@.pending[k] == id;
            assert(keep(kept[k]));
            assert(kept.contains(kept[k]));
            lemma_filtered_comes_from(runs, keep, k);
        }
        if exists|i: int|
            0 <= i < runs.len() && (#[trigger] runs[i]).facts.id == id && runs[i].residency
                == Residency::Retained && runs[i].facts.tmux_controlled {
            let i = choose|i: int|
                0 <= i < runs.len() && (#[trigger] runs[i]).facts.id == id && runs[i].residency
                    == Residency::Retained && runs[i].facts.tmux_controlled;
            assert(keep(runs[i]));
            assert(kept.contains(runs[i]));
            let k = choose|k: int| 0 <= k < kept.len() && kept[k] == runs[i];
            assert(shutdown@.pending[k] == id);
        }
    }
}

proof fn lemma_filtered_comes_from(
    runs: Seq<RegistryEntry>,
    keep: spec_fn(RegistryEntry) -> bool,
    k: int,
)
    requires
        0 <= k < runs.filter(keep).len(),
    ensures
        exists|i: int| 0 <= i < runs.len() && runs[i] == runs.filter(keep)[k],
    decreases runs.len(),
{
    reveal(Seq::filter);
    if runs.len() > 0 {
        let shorter = runs.drop_last();
        let rest = shorter.filter(keep);
        if k < rest.len() {
            lemma_filtered_comes_from(shorter, keep, k);
            let i = choose|i: int| 0 <= i < shorter.len() && shorter[i] == rest[k];
            assert(runs[i] == runs.filter(keep)[k]);
        } else {
            assert(runs[runs.len() - 1] == runs.filter(keep)[k]);
        }
    }
}

proof fn lemma_every_look_counts(pending: Seq<RunId>, observed: Seq<Option<CleanupResult>>)
    requires
        observed.len() >= pending.len(),
    ensures
        forall|i: int|
            0 <= i < pending.len() && (#[trigger] observed[i]) is None ==> still_pending(
                pending,
                observed,
            ).contains(pending[i]),
        forall|i: int|
            0 <= i < pending.len() ==> ((#[trigger] observed[i]) matches Some(Err(failure))
                ==> reported_failures(pending, observed).contains(
                "Run "@ + pending[i].text() + (": "@ + failure@),
            )),
        (forall|i: int| 0 <= i < pending.len() ==> (#[trigger] observed[i]) is Some)
            ==> still_pending(pending, observed).len() == 0,
        (forall|i: int|
            0 <= i < pending.len() ==> !((#[trigger] observed[i]) matches Some(Err(_))))
            ==> reported_failures(pending, observed).len() == 0,
    decreases pending.len(),
{
    if pending.len() > 0 {
        let shorter = pending.drop_last();
        lemma_every_look_counts(shorter, observed);
        let waiting = still_pending(shorter, observed);
        let failures = reported_failures(shorter, observed);
        let end = pending.len() - 1;
        let all = still_pending(pending, observed);
        let told = reported_failures(pending, observed);
        assert forall|i: int|
            0 <= i < pending.len() && (#[trigger] observed[i]) is None implies all.contains(
            pending[i],
        ) by {
            if i < end {
                assert(waiting.contains(shorter[i]));
                let k = choose|k: int| 0 <= k < waiting.len() && waiting[k] == shorter[i];
                assert(all[k] == pending[i]);
            } else {
                assert(all[all.len() - 1] == pending[i]);
            }
        }
        assert forall|i: int| 0 <= i < pending.len() implies ((
        #[trigger] observed[i]) matches Some(Err(failure)) ==> told.contains(
            "Run "@ + pending[i].text() + (": "@ + failure@),
        )) by {
            if let Some(Err(failure)) = observed[i] {
                let line = "Run "@ + pending[i].text() + (": "@ + failure@);
                if i < end {
                    assert(failures.contains("Run "@ + shorter[i].text() + (": "@ + failure@)));
                    let k = choose|k: int| 0 <= k < failures.len() && failures[k] == line;
                    assert(told[k] == line);
                } else {
                    assert(told[told.len() - 1] == line);
                }
            }
        }
    }
}

/// A look at the controls loses none of them: one that is not complete stays
/// awaited until the deadline and then counts as a failure; one that failed
/// counts with its reason; one that succeeded counts as nothing.
pub proof fn law_a_shutdown_loses_no_control(
    shutdown: &mut ControlShutdown,
    observed: Vec<Option<CleanupResult>>,
    deadline_passed: bool,
    done: bool,
    place: int,
)
    requires
        observed@.len() == old(shutdown)@.pending.len(),
        0 <= place < observed@.len(),
        call_ensures(ControlShutdown::poll, (shutdown, &observed, deadline_passed), done),
    ensures
        done <==> final(shutdown)@.pending.len() == 0,
        deadline_passed ==> done,
        observed@[place] is None && !deadline_passed ==> final(shutdown)@.pending.contains(
            old(shutdown)@.pending[place],
        ) && !done,
        observed@[place] is None && deadline_passed ==> final(shutdown)@.failures.contains(
            "Run "@ + old(shutdown)@.pending[place].text() + (": "@
                + "timed out waiting for tmux control cleanup"@),
        ),
        observed@[place] matches Some(Err(failure)) ==> final(shutdown)@.failures.contains(
            "Run "@ + old(shutdown)@.pending[place].text() + (": "@ + failure@),
        ),
        (forall|i: int|
            0 <= i < observed@.len() ==> ((#[trigger] observed@[i]) matches Some(Ok(_)))) ==> done
            && final(shutdown)@.failures == old(shutdown)@.failures,
{
    let before = old(shutdown)@;
    lemma_every_look_counts(before.pending, observed@);
    let told = reported_failures(before.pending, observed@);
    let waiting = still_pending(before.pending, observed@);
    let seen = before.failures + told;
    if let Some(Err(failure)) = observed@[place] {
        let line = "Run "@ + before.pending[place].text() + (": "@ + failure@);
        let k = choose|k: int| 0 <= k < told.len() && told[k] == line;
        assert(seen[before.failures.len() + k] == line);
        assert(final(shutdown)@.failures[before.failures.len() + k] == line);
    }
    if observed@[place] is None {
        let id = before.pending[place];
        assert(waiting.contains(id));
        let k = choose|k: int| 0 <= k < waiting.len() && waiting[k] == id;
        if deadline_passed {
            let line = "Run "@ + id.text() + (": "@
                + "timed out waiting for tmux control cleanup"@);
            assert(final(shutdown)@.failures[seen.len() + k] == line);
        }
    }
    if forall|i: int|
        0 <= i < observed@.len() ==> ((#[trigger] observed@[i]) matches Some(Ok(_))) {
        assert forall|i: int| 0 <= i < before.pending.len() implies (
        #[trigger] observed@[i]) is Some by {
        }
        assert forall|i: int| 0 <= i < before.pending.len() implies !((
        #[trigger] observed@[i]) matches Some(Err(_))) by {
        }
        assert(final(shutdown)@.failures =~= before.failures);
    }
}

/// A shutdown succeeds exactly where no control failed, every creation ended,
/// every unpublished Run is gone and no Run's wait was lost.
pub proof fn law_a_shutdown_succeeds_without_any_failure(
    shutdown: ControlShutdown,
    drained: bool,
    cleanups: Vec<String>,
    manager: RunManager,
    r: Result<(), ServerError>,
)
    requires
        call_ensures(
            ControlShutdown::shutdown_owned_controls,
            (shutdown, drained, cleanups, &manager),
            r,
        ),
    ensures
        r is Ok <==> shutdown@.failures.len() == 0 && drained && cleanups@.len() == 0 && forall|
            i: int,
        |
            0 <= i < manager@.registry.runs.len() ==> (
            #[trigger] manager@.registry.runs[i]).facts.wait_failure is None,
        r matches Err(error) ==> error is Shutdown,
{
    let runs = manager@.registry.runs;
    lemma_wait_failures_are_told(runs);
    let told = crate::daemon::ledger::wait_failures(runs);
    if told.len() > 0 {
        let i = choose|i: int|
            0 <= i < runs.len() && (#[trigger] runs[i]).facts.id == told[0].0
                && runs[i].facts.wait_failure == Some(told[0].1);
        assert(runs[i].facts.wait_failure is Some);
    } else {
        assert forall|i: int| 0 <= i < runs.len() implies (
        #[trigger] runs[i]).facts.wait_failure is None by {
            if runs[i].facts.wait_failure is Some {
                assert(told.contains((runs[i].facts.id, runs[i].facts.wait_failure->0)));
            }
        }
    }
}

/// Runs of the past keep the order in which they were recorded.
pub proof fn law_the_past_keeps_its_order(
    manager: &mut RunManager,
    persisted: Vec<PersistedRun>,
    adoptions: Vec<Adoption>,
    runs: Vec<Run>,
    earlier: int,
    later: int,
)
    requires
        old(manager)@.terminals + persisted@.len() <= u64::MAX,
        call_ensures(
            RunManager::persistent_with_handoff,
            (manager, persisted, &adoptions),
            Ok(runs),
        ),
        0 <= earlier < later < persisted@.len(),
        forall|k: int|
            0 <= k < adoptions@.len() ==> (#[trigger] adoptions@[k]).id
                != persisted@[earlier].recovered.info.id && adoptions@[k].id
                != persisted@[later].recovered.info.id,
    ensures
        runs@[earlier]@.ordinal matches Some(first) && runs@[later]@.ordinal matches Some(second)
            && old(manager)@.terminals < first.number < second.number
            <= final(manager)@.terminals,
{
    lemma_no_adoption(adoptions@, persisted@[earlier].recovered.info.id);
    lemma_no_adoption(adoptions@, persisted@[later].recovered.info.id);
    let r = Ok::<Vec<Run>, ProtocolError>(runs);
    assert(r->Ok_0@[earlier].wf());
    assert(r->Ok_0@[later].wf());
    lemma_history_counts(persisted@, adoptions@, earlier, later);
    assert(persisted@.take(persisted@.len() as int) =~= persisted@);
}

proof fn lemma_history_counts(
    persisted: Seq<PersistedRun>,
    adoptions: Seq<Adoption>,
    earlier: int,
    later: int,
)
    requires
        0 <= earlier < later < persisted.len(),
        adoption_of(adoptions, persisted[earlier].recovered.info.id) is None,
        adoption_of(adoptions, persisted[later].recovered.info.id) is None,
    ensures
        1 <= history_count(persisted.take(earlier + 1), adoptions) < history_count(
            persisted.take(later + 1),
            adoptions,
        ) <= history_count(persisted, adoptions) <= persisted.len(),
{
    assert(persisted.take(earlier + 1).last() == persisted[earlier]);
    assert(persisted.take(later + 1).last() == persisted[later]);
    assert(persisted.take(later + 1).drop_last() =~= persisted.take(later));
    lemma_history_rises(persisted, adoptions, earlier + 1, later);
    lemma_history_rises(persisted, adoptions, later + 1, persisted.len() as int);
    lemma_history_rises(persisted, adoptions, 0, persisted.len() as int);
    assert(persisted.take(persisted.len() as int) =~= persisted);
    assert(persisted.take(0) =~= seq![]);
}

proof fn lemma_history_rises(
    persisted: Seq<PersistedRun>,
    adoptions: Seq<Adoption>,
    low: int,
    high: int,
)
    requires
        0 <= low <= high <= persisted.len(),
    ensures
        history_count(persisted.take(low), adoptions) <= history_count(
            persisted.take(high),
            adoptions,
        ) <= history_count(persisted.take(low), adoptions) + (high - low),
    decreases high - low,
{
    if low < high {
        assert(persisted.take(high).drop_last() =~= persisted.take(high - 1));
        lemma_history_rises(persisted, adoptions, low, high - 1);
    }
}

} // verus!
