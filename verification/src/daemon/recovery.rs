//! Bringing Runs back at the daemon's start: those whose children outlived an
//! upgrade are live again, all others are history.

use vstd::prelude::*;

use crate::daemon::manager::{ManagerView, RunManager};
use crate::daemon::publication::{law_a_retried_creation_finds_its_run, resolves};
use crate::daemon::registry::{key_view, RegistryEntry, RegistryView, Residency};
use crate::daemon::run::{RecoveredRun, Run, RunControl, RunView};
use crate::identity::RunId;
use crate::protocol::{InterruptionReason, OperationKey, ProtocolError, RunInfo, RunState};
use crate::run_spec::{request_created, spec_view, CreationRequest};

verus! {

/// A Run of the durable state, with the key that created it and the size of
/// its record.
#[derive(Debug, PartialEq, Eq)]
pub struct PersistedRun {
    pub recovered: RecoveredRun,
    pub operation_key: OperationKey,
    pub metadata_bytes: u64,
}

/// The attempt to adopt the child of one Run.
#[derive(Debug, PartialEq, Eq)]
pub struct Adoption {
    pub id: RunId,
    pub outcome: Result<u32, ProtocolError>,
}

/// The attempt to adopt a Run's child, if there was one.
pub open spec fn adoption_of(adoptions: Seq<Adoption>, id: RunId) -> Option<
    Result<u32, ProtocolError>,
>
    decreases adoptions.len(),
{
    if adoptions.len() == 0 {
        None
    } else if adoptions[0].id == id {
        Some(adoptions[0].outcome)
    } else {
        adoption_of(adoptions.drop_first(), id)
    }
}

/// Whether a Run of the durable state is history.
pub open spec fn is_history(persisted: PersistedRun, adoptions: Seq<Adoption>) -> bool {
    adoption_of(adoptions, persisted.recovered.info.id) is None
}

/// How many Runs are history.
pub open spec fn history_count(persisted: Seq<PersistedRun>, adoptions: Seq<Adoption>) -> nat
    decreases persisted.len(),
{
    if persisted.len() == 0 {
        0
    } else {
        history_count(persisted.drop_last(), adoptions) + (if is_history(
            persisted.last(),
            adoptions,
        ) {
            1nat
        } else {
            0
        })
    }
}

/// The failure of the first adoption that failed.
pub open spec fn adoption_failure(
    persisted: Seq<PersistedRun>,
    adoptions: Seq<Adoption>,
) -> Option<ProtocolError>
    decreases persisted.len(),
{
    if persisted.len() == 0 {
        None
    } else {
        match adoption_failure(persisted.drop_last(), adoptions) {
            Some(error) => Some(error),
            None => match adoption_of(adoptions, persisted.last().recovered.info.id) {
                Some(Err(error)) => Some(error),
                _ => None,
            },
        }
    }
}

/// What the Run at `place` becomes. History takes the next places in the order
/// of endings, beginning behind `terminals`.
pub open spec fn restored_run(
    persisted: Seq<PersistedRun>,
    adoptions: Seq<Adoption>,
    terminals: int,
    place: int,
) -> RunView {
    let recovered = persisted[place].recovered;
    match adoption_of(adoptions, recovered.info.id) {
        Some(Ok(pid)) => RunView::recovered(recovered, Some(pid), Some(RunControl::Native), None),
        _ => RunView::historical(
            recovered,
            (terminals + history_count(persisted.take(place + 1), adoptions)) as u64,
        ),
    }
}

/// Whether an entry retains a Run that was brought back.
pub open spec fn retains(entry: RegistryEntry, persisted: PersistedRun, run: RunView) -> bool {
    &&& entry.facts.id == run.id
    &&& spec_view(entry.facts.spec) == run.spec
    &&& entry.facts.lineage == run.lineage
    &&& entry.facts.running == (run.state is Running)
    &&& entry.facts.ordinal == run.collectable(false)
    &&& !entry.facts.tmux_controlled
    &&& entry.operation_key == Some(persisted.operation_key)
    &&& entry.metadata_bytes == Some(persisted.metadata_bytes)
    &&& entry.stop is None
    &&& entry.residency == Residency::Retained
}

/// Whether the durable state can be brought back: every Run and every key
/// occurs once, and every record is sound.
pub open spec fn is_recoverable(persisted: Seq<PersistedRun>) -> bool {
    &&& forall|i: int| 0 <= i < persisted.len() ==> (#[trigger] persisted[i]).recovered.valid()
    &&& forall|i: int, j: int|
        0 <= i < j < persisted.len() ==> (#[trigger] persisted[i]).recovered.info.id != (
        #[trigger] persisted[j]).recovered.info.id && persisted[i].operation_key@
            != persisted[j].operation_key@
}

/// Output bytes that a recovered record is known to hold.
pub fn recovered_durable_head(info: &RunInfo) -> (r: u64)
    ensures
        r == (match info.durable_output_bytes {
            Some(bytes) => bytes,
            None => info.latest_output_bytes,
        }),
{
    match info.durable_output_bytes {
        Some(bytes) => bytes,
        None => info.latest_output_bytes,
    }
}

fn find_adoption(adoptions: &Vec<Adoption>, id: RunId) -> (r: Option<Result<u32, ProtocolError>>)
    ensures
        r == adoption_of(adoptions@, id),
{
    let mut i: usize = 0;
    assert(adoptions@.skip(0) =~= adoptions@);
    while i < adoptions.len()
        invariant
            i <= adoptions@.len(),
            adoption_of(adoptions@, id) == adoption_of(adoptions@.skip(i as int), id),
        decreases adoptions@.len() - i,
    {
        assert(adoptions@.skip(i as int)[0] == adoptions@[i as int]);
        assert(adoptions@.skip(i as int).drop_first() =~= adoptions@.skip(i + 1));
        if adoptions[i].id == id {
            return Some(
                match &adoptions[i].outcome {
                    Ok(pid) => Ok(*pid),
                    Err(error) => Err(error.copied()),
                },
            );
        }
        i = i + 1;
    }
    assert(adoptions@.skip(i as int) =~= seq![]);
    None
}

proof fn lemma_history_is_bounded(persisted: Seq<PersistedRun>, adoptions: Seq<Adoption>)
    ensures
        history_count(persisted, adoptions) <= persisted.len(),
    decreases persisted.len(),
{
    if persisted.len() > 0 {
        lemma_history_is_bounded(persisted.drop_last(), adoptions);
    }
}

proof fn lemma_failure_stays(
    persisted: Seq<PersistedRun>,
    adoptions: Seq<Adoption>,
    count: int,
)
    requires
        0 <= count <= persisted.len(),
    ensures
        adoption_failure(persisted.take(count), adoptions) matches Some(error) ==> adoption_failure(
            persisted,
            adoptions,
        ) == Some(error),
    decreases persisted.len(),
{
    if count < persisted.len() {
        lemma_failure_stays(persisted.drop_last(), adoptions, count);
        assert(persisted.drop_last().take(count) =~= persisted.take(count));
    } else {
        assert(persisted.take(count) =~= persisted);
    }
}

impl RunManager {
    /// Bring all Runs of the durable state back into an empty registry. A Run
    /// whose child was adopted is live, and any other has ended: one that was
    /// running was interrupted. The first adoption that failed is the failure
    /// of all.
    pub fn persistent_with_handoff(
        &mut self,
        persisted: Vec<PersistedRun>,
        adoptions: &Vec<Adoption>,
    ) -> (r: Result<Vec<Run>, ProtocolError>)
        requires
            old(self)@.valid(),
            old(self)@.registry.runs.len() == 0,
            is_recoverable(persisted@),
            old(self)@.terminals + persisted@.len() <= u64::MAX,
        ensures
            final(self)@.valid(),
            match adoption_failure(persisted@, adoptions@) {
                Some(error) => r == Err::<Vec<Run>, ProtocolError>(error),
                None => r matches Ok(runs) && {
                    &&& runs@.len() == persisted@.len()
                    &&& forall|i: int|
                        0 <= i < runs@.len() ==> (#[trigger] runs@[i]).wf() && runs@[i]@
                            == restored_run(
                            persisted@,
                            adoptions@,
                            old(self)@.terminals as int,
                            i,
                        ) && retains(
                            final(self)@.registry.runs[i],
                            persisted@[i],
                            runs@[i]@,
                        )
                    &&& final(self)@.registry.runs.len() == persisted@.len()
                    &&& final(self)@ == (ManagerView {
                        registry: RegistryView {
                            runs: final(self)@.registry.runs,
                            ..old(self)@.registry
                        },
                        terminals: (old(self)@.terminals + history_count(
                            persisted@,
                            adoptions@,
                        )) as u64,
                        ..old(self)@
                    })
                },
            },
    {
        let ghost given = persisted@;
        let ghost before = self@;
        let ghost tried = adoptions@;
        let mut rest = persisted;
        let mut runs: Vec<Run> = Vec::new();
        let ghost mut done: int = 0;
        assert(given.skip(0) =~= given);
        assert(given.take(0) =~= seq![]);
        while rest.len() > 0
            invariant
                given == persisted@,
                tried == adoptions@,
                is_recoverable(given),
                before.terminals + given.len() <= u64::MAX,
                self@.valid(),
                0 <= done <= given.len(),
                rest@ == given.skip(done),
                runs@.len() == done,
                self@.registry.runs.len() == done,
                adoption_failure(given.take(done), tried) is None,
                forall|i: int|
                    0 <= i < done ==> (#[trigger] runs@[i]).wf() && runs@[i]@ == restored_run(
                        given,
                        tried,
                        before.terminals as int,
                        i,
                    ) && retains(self@.registry.runs[i], given[i], runs@[i]@),
                forall|i: int|
                    0 <= i < done ==> (#[trigger] self@.registry.runs[i]).facts.id
                        == given[i].recovered.info.id && self@.registry.runs[i].operation_key
                        == Some(given[i].operation_key),
                self@.terminals == before.terminals + history_count(given.take(done), tried),
                self@ == (ManagerView {
                    registry: RegistryView { runs: self@.registry.runs, ..before.registry },
                    terminals: self@.terminals,
                    ..before
                }),
            decreases rest@.len(),
        {
            let ghost registry_before = self@.registry;
            let ghost runs_before = runs@;
            let PersistedRun { recovered, operation_key, metadata_bytes } = rest.remove(0);
            let ghost current = given[done];
            proof {
                assert(current == (PersistedRun { recovered, operation_key, metadata_bytes }));
                assert(given.take(done + 1).drop_last() =~= given.take(done));
                assert(given.take(done + 1).last() == current);
                lemma_history_is_bounded(given.take(done), tried);
                assert forall|i: int| 0 <= i < done implies (
                #[trigger] registry_before.runs[i]).facts.id != recovered.info.id && key_view(
                    registry_before.runs[i].operation_key,
                ) != Some(operation_key@) by {
                    assert(given[i].recovered.info.id != given[done].recovered.info.id);
                }
            }
            let run = match find_adoption(adoptions, recovered.info.id) {
                Some(Ok(pid)) => Run::readopt(recovered, pid),
                Some(Err(error)) => {
                    proof {
                        assert(adoption_failure(given.take(done + 1), tried) == Some(error));
                        lemma_failure_stays(given, tried, done + 1);
                    }
                    return Err(error);
                },
                None => Run::recover(recovered, &mut self.terminal_publications),
            };
            let facts = run.facts(false, false, None);
            self.registry.retain(facts, Some(operation_key), Some(metadata_bytes));
            runs.push(run);
            proof {
                done = done + 1;
                assert(rest@ =~= given.skip(done));
                assert(runs@[done - 1]@ == restored_run(
                    given,
                    tried,
                    before.terminals as int,
                    done - 1,
                ));
                assert forall|i: int| 0 <= i < done implies (#[trigger] runs@[i]).wf() && runs@[i]@
                    == restored_run(given, tried, before.terminals as int, i) && retains(
                    self@.registry.runs[i],
                    given[i],
                    runs@[i]@,
                ) by {
                    if i < done - 1 {
                        assert(runs@[i] == runs_before[i]);
                        assert(self@.registry.runs[i] == registry_before.runs[i]);
                    }
                }
                assert forall|i: int| 0 <= i < done implies (
                #[trigger] self@.registry.runs[i]).facts.id == given[i].recovered.info.id
                    && self@.registry.runs[i].operation_key == Some(given[i].operation_key) by {
                    if i < done - 1 {
                        assert(self@.registry.runs[i] == registry_before.runs[i]);
                    }
                }
            }
        }
        assert(given.take(done) =~= given);
        Ok(runs)
    }
}

/// Every Run that was live before an upgrade is live after it if its child was
/// adopted: its state and its output go on from where they stood, it can be
/// controlled, and it has no place among the endings.
pub proof fn law_an_adopted_run_goes_on(
    persisted: Seq<PersistedRun>,
    adoptions: Seq<Adoption>,
    terminals: int,
    place: int,
    pid: u32,
)
    requires
        0 <= place < persisted.len(),
        adoption_of(adoptions, persisted[place].recovered.info.id) == Some(
            Ok::<u32, ProtocolError>(pid),
        ),
    ensures
        ({
            let run = restored_run(persisted, adoptions, terminals, place);
            &&& run.pid == Some(pid)
            &&& run.state == persisted[place].recovered.info.state
            &&& run.control == Some(RunControl::Native)
            &&& run.output.latest == persisted[place].recovered.replay.latest_output_bytes
            &&& run.ordinal is None
            &&& run.control_refusal() is None
        }),
{
}

/// A restart without adoption interrupts what was running: such a Run is
/// reported as interrupted by the restart and cannot be controlled any more.
/// What had ended stays as it ended.
pub proof fn law_a_cold_restart_interrupts_what_was_running(
    persisted: Seq<PersistedRun>,
    adoptions: Seq<Adoption>,
    terminals: int,
    place: int,
)
    requires
        0 <= place < persisted.len(),
        is_history(persisted[place], adoptions),
    ensures
        ({
            let was = persisted[place].recovered.info.state;
            let run = restored_run(persisted, adoptions, terminals, place);
            &&& was is Running ==> run.state == (RunState::Interrupted {
                reason: InterruptionReason::DaemonRestart,
            })
            &&& !(was is Running) ==> run.state == was
            &&& run.control is None
            &&& run.control_refusal() is Some
            &&& run.output == persisted[place].recovered.log()
        }),
{
}

/// A creation that is retried after a restart finds the Run that it made
/// before.
pub proof fn law_a_creation_is_found_again_after_a_restart(
    registry: RegistryView,
    place: int,
    persisted: PersistedRun,
    run: RunView,
    request: CreationRequest,
    r: Result<Option<RunId>, ProtocolError>,
)
    requires
        registry.valid(),
        registry.reservations.len() == 0,
        0 <= place < registry.runs.len(),
        retains(registry.runs[place], persisted, run),
        request_created(request@, run.spec, run.lineage),
        resolves(registry, persisted.operation_key@, request, r),
    ensures
        r == Ok::<Option<RunId>, ProtocolError>(Some(run.id)),
{
    law_a_retried_creation_finds_its_run(
        registry,
        place,
        persisted.operation_key@,
        request,
        r,
    );
}

proof fn lemma_history_grows(
    persisted: Seq<PersistedRun>,
    adoptions: Seq<Adoption>,
    earlier: int,
    later: int,
)
    requires
        0 <= earlier <= later <= persisted.len(),
    ensures
        history_count(persisted.take(earlier), adoptions) <= history_count(
            persisted.take(later),
            adoptions,
        ),
    decreases later - earlier,
{
    if earlier < later {
        lemma_history_grows(persisted, adoptions, earlier, later - 1);
        assert(persisted.take(later).drop_last() =~= persisted.take(later - 1));
    }
}

/// History keeps its order: a Run that comes earlier in the durable state has
/// an earlier place among the endings, so no two share one.
pub proof fn law_history_keeps_its_order(
    persisted: Seq<PersistedRun>,
    adoptions: Seq<Adoption>,
    terminals: int,
    earlier: int,
    later: int,
)
    requires
        0 <= earlier < later < persisted.len(),
        is_history(persisted[earlier], adoptions),
        is_history(persisted[later], adoptions),
        0 <= terminals,
        terminals + persisted.len() <= u64::MAX,
    ensures
        restored_run(persisted, adoptions, terminals, earlier).ordinal matches Some(first)
            && restored_run(persisted, adoptions, terminals, later).ordinal matches Some(second)
            && first.number < second.number,
{
    lemma_history_grows(persisted, adoptions, earlier + 1, later);
    assert(persisted.take(later + 1).drop_last() =~= persisted.take(later));
    assert(persisted.take(later + 1).last() == persisted[later]);
    lemma_history_is_bounded(persisted.take(later + 1), adoptions);
}

} // verus!
