//! What creations own on their way: flights, slots, tickets, and Runs that were
//! started but are not public.

use vstd::prelude::*;

use crate::daemon::creation::{
    CommitOutcome, CreationPublication, FlightStep, PersistentPublicationOwner, PublishStep,
    StartFault,
};
use crate::daemon::manager::{ManagerView, RunManager};
use crate::daemon::owners::{
    fence_reports, fenced_runs, law_pruning_frees_only_proven_slots, pruned_fences, tmux_reports,
    unproven, Admission, CleanupEntry, CleanupView, CreationFlightOwner, FenceView, FlightsView,
    TerminalOrdinal, TerminalPublicationOwner, UnpublishedCleanupOwner,
};
use crate::daemon::pending::{
    tmux_cleanup_result, PendingPublication, PendingTmuxPublication, TerminationStep,
    UnpublishedTermination,
};
use crate::daemon::registry::{
    lemma_reservation_place, RegistryEntry, RegistryView, Residency, RunFacts,
};
use crate::daemon::run::{
    DurableWork, PersistenceBinding, PersistenceMode, Run, RunControl, RunView,
};
use crate::identity::{DaemonInstanceId, RunId};
use crate::order::texts_of;
use crate::protocol::{ErrorCode, OperationKey, ProtocolError, RunEvent, RunState};
use crate::run_spec::CreationRequest;

verus! {

/// The order of endings starts at zero and every end takes the next place.
pub proof fn law_every_end_takes_the_next_place(
    fresh: TerminalPublicationOwner,
    recovering: &mut TerminalPublicationOwner,
    recovered: &mut Option<TerminalOrdinal>,
    owner: &mut TerminalPublicationOwner,
    ordinal: &mut Option<TerminalOrdinal>,
    state: &mut RunState,
    terminal: RunState,
)
    requires
        call_ensures(TerminalPublicationOwner::new, (), fresh),
        call_ensures(TerminalPublicationOwner::recover, (recovering, recovered), ()),
        call_ensures(TerminalPublicationOwner::publish, (owner, ordinal, state, terminal), ()),
    ensures
        fresh@ == 0,
        final(recovering)@ == old(recovering)@ + 1,
        *final(recovered) matches Some(place) && place.number == final(recovering)@,
        final(owner)@ == old(owner)@ + 1,
        *final(ordinal) matches Some(place) && place.number == final(owner)@,
        *final(state) == terminal,
{
}

/// A creation is let in while creations are taken and fewer than eight are under
/// way or let in; else it waits, and once creations are fenced it is refused.
pub proof fn law_at_most_eight_creations_are_let_in(
    owner: &mut CreationFlightOwner,
    admission: Admission,
)
    requires
        old(owner)@.valid(),
        call_ensures(CreationFlightOwner::acquire_admission, (owner,), admission),
    ensures
        admission == Admission::Refused <==> !old(owner)@.accepting,
        admission == Admission::Granted <==> old(owner)@.accepting && old(owner)@.active + old(
            owner,
        )@.granted < 8,
        admission == Admission::Granted ==> final(owner)@ == (FlightsView {
            granted: old(owner)@.granted + 1,
            ..old(owner)@
        }),
        admission != Admission::Granted ==> final(owner)@ == old(owner)@,
{
}

/// A flight that was let in begins unless creations were fenced meanwhile; one
/// that ends is counted off; a fence lets what is under way go on.
pub proof fn law_flights_are_counted(
    begun: &mut CreationFlightOwner,
    begins: bool,
    ended: &mut CreationFlightOwner,
    fenced: &mut CreationFlightOwner,
    fresh: CreationFlightOwner,
)
    requires
        call_ensures(CreationFlightOwner::new, (), fresh),
        call_ensures(CreationFlightOwner::try_begin, (begun,), begins),
        call_ensures(CreationFlightOwner::finish, (ended,), ()),
        call_ensures(CreationFlightOwner::fence, (fenced,), ()),
    ensures
        fresh@.accepting && fresh@.active == 0 && fresh@.granted == 0,
        begins == old(begun)@.accepting,
        final(begun)@.granted == old(begun)@.granted - 1,
        begins ==> final(begun)@.active == old(begun)@.active + 1,
        !begins ==> final(begun)@.active == old(begun)@.active,
        final(begun)@.accepting == old(begun)@.accepting,
        final(ended)@.active == old(ended)@.active - 1,
        final(ended)@.granted == old(ended)@.granted,
        final(ended)@.accepting == old(ended)@.accepting,
        !final(fenced)@.accepting,
        final(fenced)@.active == old(fenced)@.active,
        final(fenced)@.granted == old(fenced)@.granted,
{
}

/// The wait for creations ends when none is under way, or at the deadline, and
/// then says that some are left.
pub proof fn law_the_wait_for_creations_ends_with_them(
    owner: CreationFlightOwner,
    deadline_passed: bool,
    r: Option<bool>,
    drained: bool,
)
    requires
        call_ensures(CreationFlightOwner::wait_until, (&owner, deadline_passed), r),
        call_ensures(CreationFlightOwner::drained, (&owner,), drained),
    ensures
        drained <==> owner@.active == 0,
        r == Some(true) <==> owner@.active == 0,
        r is None <==> owner@.active != 0 && !deadline_passed,
{
}

proof fn lemma_unproven_members(entries: Seq<CleanupEntry>)
    ensures
        forall|entry: CleanupEntry| #[trigger]
            unproven(entries).contains(entry) <==> entries.contains(entry) && entry.current is Err,
        unproven(entries).len() == 0 <==> forall|k: int|
            0 <= k < entries.len() ==> (#[trigger] entries[k]).current is Ok,
    decreases entries.len(),
{
    reveal(Seq::filter);
    if entries.len() > 0 {
        let shorter = entries.drop_last();
        lemma_unproven_members(shorter);
        let rest = unproven(shorter);
        let all = unproven(entries);
        assert forall|entry: CleanupEntry| #[trigger]
            all.contains(entry) <==> entries.contains(entry) && entry.current is Err by {
            if all.contains(entry) {
                let k = choose|k: int| 0 <= k < all.len() && all[k] == entry;
                if k < rest.len() {
                    assert(rest[k] == entry);
                    assert(rest.contains(entry));
                    let i = choose|i: int| 0 <= i < shorter.len() && shorter[i] == entry;
                    assert(entries[i] == entry);
                } else {
                    assert(entries[entries.len() - 1] == entry);
                }
            }
            if entries.contains(entry) && entry.current is Err {
                let i = choose|i: int| 0 <= i < entries.len() && entries[i] == entry;
                if i < shorter.len() {
                    assert(shorter[i] == entry);
                    assert(rest.contains(entry));
                    let k = choose|k: int| 0 <= k < rest.len() && rest[k] == entry;
                    assert(all[k] == entry);
                } else {
                    assert(all[all.len() - 1] == entry);
                }
            }
        }
        if all.len() == 0 {
            assert forall|k: int| 0 <= k < entries.len() implies (
            #[trigger] entries[k]).current is Ok by {
                if entries[k].current is Err {
                    assert(entries.contains(entries[k]));
                    assert(all.contains(entries[k]));
                }
            }
        } else {
            assert(all.contains(all[0]));
            let k = choose|k: int| 0 <= k < entries.len() && entries[k] == all[0];
            assert(!(entries[k].current is Ok));
        }
    } else {
        assert(unproven(entries) =~= entries);
    }
}

/// Whether a key is fenced for a request: a Run that was started for it is not
/// proven to be gone.
pub open spec fn key_is_fenced(fences: Seq<FenceView>, place: int) -> bool {
    exists|k: int|
        0 <= k < fences[place].owners.len() && (#[trigger] fences[place].owners[k]).current is Err
}

proof fn lemma_pruned_fences_keep_the_unproven(fences: Seq<FenceView>)
    ensures
        forall|i: int|
            0 <= i < pruned_fences(fences).len() ==> exists|p: int|
                0 <= p < fences.len() && key_is_fenced(fences, p) && (
                #[trigger] pruned_fences(fences)[i]).key == (#[trigger] fences[p]).key
                    && pruned_fences(fences)[i].request == fences[p].request,
        forall|p: int|
            0 <= p < fences.len() && key_is_fenced(fences, p) ==> exists|i: int|
                0 <= i < pruned_fences(fences).len() && (#[trigger] pruned_fences(fences)[i]).key
                    == (#[trigger] fences[p]).key && pruned_fences(fences)[i].request
                    == fences[p].request,
    decreases fences.len(),
{
    if fences.len() > 0 {
        let shorter = fences.drop_last();
        let rest = pruned_fences(shorter);
        let all = pruned_fences(fences);
        lemma_pruned_fences_keep_the_unproven(shorter);
        lemma_unproven_members(fences.last().owners);
        let end = fences.len() - 1;
        assert forall|i: int| 0 <= i < all.len() implies exists|p: int|
            0 <= p < fences.len() && key_is_fenced(fences, p) && (#[trigger] all[i]).key == (
            #[trigger] fences[p]).key && all[i].request == fences[p].request by {
            if i < rest.len() {
                assert(rest[i] == all[i]);
                let p = choose|p: int|
                    0 <= p < shorter.len() && key_is_fenced(shorter, p) && rest[i].key == (
                    #[trigger] shorter[p]).key && rest[i].request == shorter[p].request;
                let k = choose|k: int|
                    0 <= k < shorter[p].owners.len() && (
                    #[trigger] shorter[p].owners[k]).current is Err;
                assert(fences[p].owners[k].current is Err);
                assert(key_is_fenced(fences, p));
                assert(all[i].key == fences[p].key);
            } else {
                let k = choose|k: int|
                    0 <= k < fences.last().owners.len() && !((
                    #[trigger] fences.last().owners[k]).current is Ok);
                assert(fences[end].owners[k].current is Err);
                assert(key_is_fenced(fences, end));
                assert(all[i].key == fences[end].key);
            }
        }
        assert forall|p: int| 0 <= p < fences.len() && key_is_fenced(fences, p) implies exists|
            i: int,
        |
            0 <= i < all.len() && (#[trigger] all[i]).key == (#[trigger] fences[p]).key
                && all[i].request == fences[p].request by {
            let k = choose|k: int|
                0 <= k < fences[p].owners.len() && (#[trigger] fences[p].owners[k]).current is Err;
            if p < shorter.len() {
                assert(shorter[p].owners[k].current is Err);
                assert(key_is_fenced(shorter, p));
                let i = choose|i: int|
                    0 <= i < rest.len() && (#[trigger] rest[i]).key == shorter[p].key
                        && rest[i].request == shorter[p].request;
                assert(all[i].key == fences[p].key);
            } else {
                assert(!(fences.last().owners[k].current is Ok));
                assert(all[all.len() - 1].key == fences[p].key);
            }
        }
    }
}

/// A key is free for a new creation exactly where every Run that was started
/// for it and not published is proven to be gone. Until then the same request
/// is told to come again, and another one is a conflict.
pub proof fn law_a_key_is_fenced_until_its_runs_are_gone(
    owner: &mut UnpublishedCleanupOwner,
    key: OperationKey,
    request: CreationRequest,
    r: Result<(), ProtocolError>,
)
    requires
        old(owner)@.valid(),
        call_ensures(UnpublishedCleanupOwner::resolve_fence, (owner, &key, &request), r),
    ensures
        r is Ok <==> forall|p: int|
            0 <= p < old(owner)@.fences.len() && key_is_fenced(old(owner)@.fences, p) ==> (
            #[trigger] old(owner)@.fences[p]).key != key@,
        r matches Err(error) ==> exists|p: int|
            0 <= p < old(owner)@.fences.len() && key_is_fenced(old(owner)@.fences, p) && (
            #[trigger] old(owner)@.fences[p]).key == key@ && error.code == (if old(
                owner,
            )@.fences[p].request == request@ {
                ErrorCode::BackendUnavailable
            } else {
                ErrorCode::CreationConflict
            }),
{
    let fences = old(owner)@.fences;
    let kept = pruned_fences(fences);
    lemma_pruned_fences_keep_the_unproven(fences);
    if r is Err {
        let i = choose|i: int| 0 <= i < kept.len() && (#[trigger] kept[i]).key == key@;
        assert(old(owner)@.pruned().fence_of(key@) == Some(kept[i]));
        let p = choose|p: int|
            0 <= p < fences.len() && key_is_fenced(fences, p) && kept[i].key == (
            #[trigger] fences[p]).key && kept[i].request == fences[p].request;
        assert(fences[p].key == key@);
    } else {
        assert forall|p: int|
            0 <= p < fences.len() && key_is_fenced(fences, p) implies (
        #[trigger] fences[p]).key != key@ by {
            if fences[p].key == key@ {
                let i = choose|i: int|
                    0 <= i < kept.len() && (#[trigger] kept[i]).key == fences[p].key
                        && kept[i].request == fences[p].request;
                assert(kept[i].key == key@);
            }
        }
    }
}

/// A publication gets a slot while one of eight is free, and is refused
/// otherwise. What is proven to be gone frees its slot, and nothing else does.
pub proof fn law_at_most_eight_publications_have_a_slot(
    owner: &mut UnpublishedCleanupOwner,
    r: Result<(), ProtocolError>,
)
    requires
        old(owner)@.valid(),
        call_ensures(UnpublishedCleanupOwner::reserve, (owner,), r),
    ensures
        old(owner)@.owned < 8 ==> r is Ok,
        r is Ok ==> final(owner)@.owned <= 8 && final(owner)@.reserved() == old(owner)@.reserved()
            + 1,
        r matches Err(error) ==> error.code == ErrorCode::BackendUnavailable
            && final(owner)@.owned >= 8 && final(owner)@.reserved() == old(owner)@.reserved(),
        forall|entry: CleanupEntry| #[trigger]
            final(owner)@.tmux.contains(entry) <==> old(owner)@.tmux.contains(entry)
                && entry.current is Err,
{
    law_pruning_frees_only_proven_slots(old(owner)@);
    lemma_unproven_members(old(owner)@.tmux);
}

/// A slot that is given back leaves everything else as it is.
pub proof fn law_a_slot_is_given_back(owner: &mut UnpublishedCleanupOwner)
    requires
        call_ensures(UnpublishedCleanupOwner::release, (owner,), ()),
    ensures
        final(owner)@.owned == old(owner)@.owned - 1,
        final(owner)@.fences == old(owner)@.fences,
        final(owner)@.tmux == old(owner)@.tmux,
{
}

/// Whether a Run that was started for a key is handed over: its key is fenced
/// with it, its slot is kept, and every other key stays as it was.
pub open spec fn handed_over(
    before: CleanupView,
    after: CleanupView,
    key: Seq<char>,
    entry: CleanupEntry,
) -> bool {
    &&& after.owned == before.owned
    &&& after.tmux == before.tmux
    &&& exists|p: int|
        0 <= p < after.fences.len() && (#[trigger] after.fences[p]).key == key
            && after.fences[p].owners.contains(entry)
    &&& forall|p: int|
        0 <= p < before.fences.len() ==> p < after.fences.len() && (
        #[trigger] before.fences[p]).key == after.fences[p].key && before.fences[p].request
            == after.fences[p].request && (before.fences[p].key != key ==> after.fences[p]
            == before.fences[p])
}

/// A Run that is handed over fences its key, keeps its slot, and leaves every
/// other key as it was.
pub proof fn law_a_handed_over_run_fences_its_key(
    owner: &mut UnpublishedCleanupOwner,
    key: OperationKey,
    request: CreationRequest,
    run: RunId,
    reason: String,
    current: Result<(), String>,
)
    requires
        old(owner)@.valid(),
        call_ensures(
            UnpublishedCleanupOwner::transfer,
            (owner, key, request, run, reason, current),
            (),
        ),
    ensures
        handed_over(
            old(owner)@,
            final(owner)@,
            key@,
            CleanupEntry { run, transfer_reason: reason, current },
        ),
        (forall|p: int|
            0 <= p < old(owner)@.fences.len() ==> (#[trigger] old(owner)@.fences[p]).key != key@)
            ==> final(owner)@.fences.last().request == request@,
{
    let entry = CleanupEntry { run, transfer_reason: reason, current };
    lemma_transfer_hands_over(old(owner)@, final(owner)@, key@, request, entry);
}

proof fn lemma_transfer_hands_over(
    before: CleanupView,
    after: CleanupView,
    key: Seq<char>,
    request: CreationRequest,
    entry: CleanupEntry,
)
    requires
        before.valid(),
        before.transfers(key, request@, entry, after),
    ensures
        handed_over(before, after, key, entry),
        (forall|p: int| 0 <= p < before.fences.len() ==> (#[trigger] before.fences[p]).key != key)
            ==> after.fences.last().request == request@,
{
    match before.fence_of(key) {
        None => {
            let end = before.fences.len() as int;
            assert(after.fences[end].key == key);
            assert(after.fences[end].owners[0] == entry);
        },
        Some(fence) => {
            let place = choose|place: int|
                0 <= place < before.fences.len() && (#[trigger] before.fences[place]) == fence
                    && after.fences == before.fences.update(
                    place,
                    FenceView { owners: fence.owners.push(entry), ..fence },
                );
            let owners = fence.owners.push(entry);
            assert(owners[fence.owners.len() as int] == entry);
            assert(after.fences[place].key == key);
        },
    }
}

/// A started Run that is not published is gone at once, and gives its slot
/// back, or is handed over with the failure of its termination.
pub proof fn law_an_unpublished_run_is_gone_or_handed_over(
    pending: PendingPublication,
    owner: &mut UnpublishedCleanupOwner,
    terminated: Result<(), String>,
    r: Result<(), String>,
)
    requires
        old(owner)@.valid(),
        call_ensures(PendingPublication::cleanup_unpublished, (pending, owner, terminated), r),
    ensures
        r == terminated,
        terminated is Ok ==> final(owner)@ == (CleanupView {
            owned: old(owner)@.owned - 1,
            ..old(owner)@
        }),
        terminated matches Err(error) ==> handed_over(
            old(owner)@,
            final(owner)@,
            pending.key@,
            CleanupEntry { run: pending.run, transfer_reason: error, current: Err(error) },
        ),
{
    if let Err(error) = terminated {
        lemma_transfer_hands_over(
            old(owner)@,
            final(owner)@,
            pending.key@,
            pending.request,
            CleanupEntry { run: pending.run, transfer_reason: error, current: Err(error) },
        );
    }
}

/// A published Run gives its slot back; an abandoned import is handed over, and
/// is not proven to be gone.
pub proof fn law_a_published_run_gives_its_slot_back(
    native: PendingPublication,
    a: &mut UnpublishedCleanupOwner,
    imported: PendingTmuxPublication,
    b: &mut UnpublishedCleanupOwner,
    transferred: PendingTmuxPublication,
    c: &mut UnpublishedCleanupOwner,
    reason: String,
    abandoned: PendingTmuxPublication,
    d: &mut UnpublishedCleanupOwner,
)
    requires
        call_ensures(PendingPublication::into_published, (native, a), ()),
        call_ensures(PendingTmuxPublication::into_published, (imported, b), ()),
        call_ensures(PendingTmuxPublication::transfer, (transferred, c, reason), ()),
        call_ensures(PendingTmuxPublication::abandon, (abandoned, d), ()),
    ensures
        final(a)@ == (CleanupView { owned: old(a)@.owned - 1, ..old(a)@ }),
        final(b)@ == (CleanupView { owned: old(b)@.owned - 1, ..old(b)@ }),
        final(c)@.owned == old(c)@.owned && final(c)@.fences == old(c)@.fences,
        final(c)@.tmux.len() == old(c)@.tmux.len() + 1 && final(c)@.tmux.drop_last()
            == old(c)@.tmux,
        final(c)@.tmux.last().run == transferred.run && final(c)@.tmux.last().current is Err
            && final(c)@.tmux.last().transfer_reason == reason,
        final(d)@.owned == old(d)@.owned && final(d)@.fences == old(d)@.fences,
        final(d)@.tmux.len() == old(d)@.tmux.len() + 1 && final(d)@.tmux.drop_last()
            == old(d)@.tmux,
        final(d)@.tmux.last().run == abandoned.run && final(d)@.tmux.last().current is Err,
{
    assert(final(c)@.tmux.drop_last() =~= old(c)@.tmux);
    assert(final(d)@.tmux.drop_last() =~= old(d)@.tmux);
}

/// What is known of a Run's cleanup is noted with that Run alone.
pub proof fn law_a_cleanup_is_noted_with_its_run(
    owner: &mut UnpublishedCleanupOwner,
    run: RunId,
    current: Result<(), String>,
)
    requires
        call_ensures(UnpublishedCleanupOwner::note_cleanup, (owner, run, &current), ()),
    ensures
        final(owner)@.owned == old(owner)@.owned,
        final(owner)@.tmux.len() == old(owner)@.tmux.len(),
        forall|k: int|
            0 <= k < old(owner)@.tmux.len() ==> (#[trigger] final(owner)@.tmux[k]) == if old(
                owner,
            )@.tmux[k].run == run {
                CleanupEntry { current, ..old(owner)@.tmux[k] }
            } else {
                old(owner)@.tmux[k]
            },
        final(owner)@.fences.len() == old(owner)@.fences.len(),
        forall|p: int|
            0 <= p < old(owner)@.fences.len() ==> (#[trigger] final(owner)@.fences[p]).key == old(
                owner,
            )@.fences[p].key && final(owner)@.fences[p].request == old(owner)@.fences[p].request
                && final(owner)@.fences[p].owners.len() == old(owner)@.fences[p].owners.len(),
        forall|p: int, k: int|
            0 <= p < old(owner)@.fences.len() && 0 <= k < old(owner)@.fences[p].owners.len() ==> (
            #[trigger] final(owner)@.fences[p].owners[k]) == if old(
                owner,
            )@.fences[p].owners[k].run == run {
                CleanupEntry { current, ..old(owner)@.fences[p].owners[k] }
            } else {
                old(owner)@.fences[p].owners[k]
            },
{
}

/// A termination begins only with native control, and remembers why its request
/// failed, if it did.
pub proof fn law_a_termination_remembers_its_request(
    run: Run,
    requested: Result<(), String>,
    begun: Result<UnpublishedTermination, String>,
)
    requires
        call_ensures(UnpublishedTermination::begin, (&run, requested), begun),
    ensures
        begun is Ok <==> run@.control == Some(RunControl::Native),
        begun matches Ok(termination) ==> (termination.request_error is Some <==> requested
            is Err) && (requested matches Err(error) ==> termination.request_error == Some(error)),
{
}

/// Descriptors are given up only once the Run is proven to be gone. Until then
/// it is looked at again, up to the deadline.
pub proof fn law_only_a_run_that_is_gone_is_detached(
    termination: UnpublishedTermination,
    waited: Result<(), String>,
    reaped: Result<(), String>,
    cleanup: Result<(), String>,
    deadline_passed: bool,
    step: TerminationStep,
)
    requires
        call_ensures(UnpublishedTermination::reaped, (&termination, waited), reaped),
        call_ensures(
            UnpublishedTermination::terminate_unpublished,
            (&termination, cleanup, deadline_passed),
            step,
        ),
    ensures
        reaped is Ok <==> waited is Ok,
        step is DetachDescriptors <==> cleanup is Ok,
        step is PollAgain <==> cleanup is Err && !deadline_passed,
        step is Failed <==> cleanup is Err && deadline_passed,
{
}

/// An import is gone only where it is controlled by tmux, its control says so
/// and nothing else owns it.
pub proof fn law_an_import_is_gone_without_owners(
    run: Run,
    control: Result<(), String>,
    owners: u64,
    r: Result<(), String>,
)
    requires
        call_ensures(tmux_cleanup_result, (&run, control, owners), r),
    ensures
        r is Ok <==> run@.control == Some(RunControl::Tmux) && control is Ok && owners == 1,
{
}

/// A new manager is of its daemon incarnation, takes creations and requests,
/// and has nothing.
pub proof fn law_a_new_manager_has_nothing(
    daemon_instance: DaemonInstanceId,
    budget: u64,
    persistent: bool,
    manager: RunManager,
    mode: PersistenceMode,
)
    requires
        call_ensures(RunManager::new, (daemon_instance, budget, persistent), manager),
        call_ensures(RunManager::persistence_mode, (&manager,), mode),
    ensures
        manager@.daemon_instance == daemon_instance,
        manager@.persistent == persistent,
        mode == PersistenceMode::PersistentCapable <==> persistent,
        manager@.registry.runs.len() == 0 && manager@.registry.reservations.len() == 0,
        manager@.registry.record_capacity == 4000 && manager@.registry.metadata_budget == budget,
        manager@.flights.accepting && manager@.flights.active == 0,
        manager@.cleanups.owned == 0,
        manager@.gate.phase is Open && manager@.gate.active == 0,
        manager@.incarnation is None && !manager@.tmux_shutting_down,
{
}

/// A flight begins where creations are taken and one of eight is free; the
/// manager is otherwise unchanged.
pub proof fn law_a_creation_takes_a_free_flight(manager: &mut RunManager, step: FlightStep)
    requires
        call_ensures(RunManager::begin_creation_flight, (manager,), step),
    ensures
        step is Refused <==> !old(manager)@.flights.accepting,
        step is Begun <==> old(manager)@.flights.accepting && old(manager)@.flights.active + old(
            manager,
        )@.flights.granted != 8,
        step is Begun ==> final(manager)@ == (ManagerView {
            flights: FlightsView {
                active: old(manager)@.flights.active + 1,
                ..old(manager)@.flights
            },
            ..old(manager)@
        }),
        !(step is Begun) ==> final(manager)@ == old(manager)@,
{
}

/// A creation takes a slot beside its flight; without a free slot its flight
/// ends. The registry is not touched.
pub proof fn law_a_creation_takes_a_slot(manager: &mut RunManager, r: Result<(), ProtocolError>)
    requires
        old(manager)@.valid(),
        call_ensures(RunManager::reserve_creation, (manager,), r),
    ensures
        old(manager)@.cleanups.owned < 8 ==> r is Ok,
        r is Ok ==> final(manager)@.flights == old(manager)@.flights
            && final(manager)@.cleanups.reserved() == old(manager)@.cleanups.reserved() + 1,
        r is Err ==> final(manager)@.flights.active == old(manager)@.flights.active - 1
            && final(manager)@.cleanups.reserved() == old(manager)@.cleanups.reserved(),
        final(manager)@.registry == old(manager)@.registry,
        final(manager)@.incarnation == old(manager)@.incarnation,
{
    law_pruning_frees_only_proven_slots(old(manager)@.cleanups);
}

/// A creation whose owner never started gives back its flight and its slot.
pub proof fn law_an_owner_that_never_started_gives_all_back(
    manager: &mut RunManager,
    error: &str,
    r: ProtocolError,
)
    requires
        call_ensures(RunManager::creation_owner_not_started, (manager, error), r),
    ensures
        r.code == ErrorCode::Internal,
        final(manager)@.flights.active == old(manager)@.flights.active - 1,
        final(manager)@.flights.accepting == old(manager)@.flights.accepting,
        final(manager)@.cleanups.owned == old(manager)@.cleanups.owned - 1,
        final(manager)@.cleanups.fences == old(manager)@.cleanups.fences,
        final(manager)@.registry == old(manager)@.registry,
{
}

/// The place of a new Run is reserved under its identity and its key. A durable
/// one is bound to its request and to the size of its record; where the record
/// could not be prepared, nothing is reserved.
pub proof fn law_a_creation_reserves_its_place(
    manager: &mut RunManager,
    key: OperationKey,
    request: CreationRequest,
    id: RunId,
    prepared: Result<u64, String>,
    r: Result<u64, ProtocolError>,
)
    requires
        call_ensures(
            RunManager::prepare_creation_publication,
            (manager, key, request, id, prepared),
            r,
        ),
    ensures
        final(manager)@ == (ManagerView { registry: final(manager)@.registry, ..old(manager)@ }),
        r is Err ==> final(manager)@ == old(manager)@,
        old(manager)@.persistent && prepared is Err ==> (r matches Err(error) && error.code
            == ErrorCode::Persistence),
        r matches Ok(ticket) ==> {
            let made = final(manager)@.registry.reservations.last();
            &&& final(manager)@.registry.reservations.len()
                == old(manager)@.registry.reservations.len() + 1
            &&& made.ticket == ticket
            &&& made.new_run_id == id
            &&& made.operation_key == Some(key)
            &&& made.request == (if old(manager)@.persistent {
                Some(request)
            } else {
                None
            })
            &&& made.new_metadata_bytes == (if old(manager)@.persistent {
                Some(prepared->Ok_0)
            } else {
                None
            })
        },
{
}

/// Whether a reservation was given up and nothing else changed in a registry:
/// its Runs are available again.
pub open spec fn gave_up(before: RegistryView, after: RegistryView, place: int) -> bool {
    let freed = before.reservations[place].candidates@;
    &&& after.reservations == before.reservations.remove(place)
    &&& after.runs.len() == before.runs.len()
    &&& forall|i: int|
        0 <= i < before.runs.len() ==> #[trigger] after.runs[i] == if freed.contains(
            before.runs[i].facts.id,
        ) {
            RegistryEntry { residency: Residency::Retained, ..before.runs[i] }
        } else {
            before.runs[i]
        }
    &&& after.record_capacity == before.record_capacity
    &&& after.metadata_budget == before.metadata_budget
}

/// Whether the daemon has stopped creating because nobody knows whether a commit
/// happened: the reservation stays, and so does everything else.
pub open spec fn stopped_creating(before: ManagerView, after: ManagerView, ticket: u64) -> bool {
    &&& after.registry == before.registry
    &&& after.unknown_commits == before.unknown_commits.push(ticket)
    &&& !after.flights.accepting
    &&& after.flights.active == before.flights.active
    &&& after.incarnation is Some
    &&& before.incarnation is Some ==> after.incarnation == before.incarnation
    &&& after.cleanups == before.cleanups
    &&& after.gate == before.gate
}

/// A durable start that was staged owns its ticket. One that failed gives its
/// reservation up, unless it may have been committed: that stops creation.
pub proof fn law_a_failed_staging_is_undone_or_stops(
    manager: &mut RunManager,
    ticket: u64,
    staged: Result<(), StartFault>,
    r: Result<PersistentPublicationOwner, ProtocolError>,
    place: int,
)
    requires
        old(manager)@.valid(),
        0 <= place < old(manager)@.registry.reservations.len(),
        old(manager)@.registry.reservations[place].ticket == ticket,
        call_ensures(RunManager::stage_publication, (manager, ticket, staged), r),
    ensures
        match staged {
            Ok(_) => r matches Ok(owner) && owner.ticket == ticket && owner.phase is Staged
                && final(manager)@ == old(manager)@,
            Err(fault) => {
                &&& r matches Err(error) && error.code == (if fault.capacity {
                    ErrorCode::RunCapacity
                } else {
                    ErrorCode::Persistence
                }) && error.message@ == fault.message@
                &&& fault.commit_unknown ==> stopped_creating(
                    old(manager)@,
                    final(manager)@,
                    ticket,
                )
                &&& !fault.commit_unknown ==> gave_up(
                    old(manager)@.registry,
                    final(manager)@.registry,
                    place,
                ) && final(manager)@.flights == old(manager)@.flights
                    && final(manager)@.incarnation == old(manager)@.incarnation
            },
        },
{
    lemma_reservation_place(old(manager)@.registry, ticket, place);
}

/// A launch that failed gives its reservation up and is answered with its own
/// failure. Where the durable rollback may not have happened, creation stops.
pub proof fn law_a_failed_launch_gives_its_place_up(
    manager: &mut RunManager,
    publication: CreationPublication,
    spawn_error: ProtocolError,
    rollback: Result<(), StartFault>,
    r: ProtocolError,
    place: int,
)
    requires
        old(manager)@.valid(),
        0 <= place < old(manager)@.registry.reservations.len(),
        old(manager)@.registry.reservations[place].ticket == (match publication {
            CreationPublication::Memory { ticket } => ticket,
            CreationPublication::Persistent(owner) => owner.ticket,
        }),
        call_ensures(
            RunManager::abort_publication,
            (manager, publication, spawn_error, rollback),
            r,
        ),
    ensures
        publication is Memory || rollback is Ok ==> r == spawn_error && gave_up(
            old(manager)@.registry,
            final(manager)@.registry,
            place,
        ) && final(manager)@.flights == old(manager)@.flights,
        publication is Persistent && rollback is Err ==> r.code == ErrorCode::Persistence,
        publication is Persistent && (rollback matches Err(fault) && fault.commit_unknown)
            ==> stopped_creating(
            old(manager)@,
            final(manager)@,
            old(manager)@.registry.reservations[place].ticket,
        ),
        publication is Persistent && (rollback matches Err(fault) && !fault.commit_unknown)
            ==> gave_up(old(manager)@.registry, final(manager)@.registry, place)
            && final(manager)@.flights == old(manager)@.flights,
{
    lemma_reservation_place(
        old(manager)@.registry,
        old(manager)@.registry.reservations[place].ticket,
        place,
    );
}

/// A Run without a durable record becomes public under its reservation's key and
/// gives its slot back.
pub proof fn law_a_memory_run_becomes_public(
    manager: &mut RunManager,
    ticket: u64,
    pending: PendingPublication,
    facts: RunFacts,
    removed: Vec<RegistryEntry>,
    place: int,
)
    requires
        old(manager)@.valid(),
        0 <= place < old(manager)@.registry.reservations.len(),
        old(manager)@.registry.reservations[place].ticket == ticket,
        call_ensures(
            RunManager::publish_memory_creation,
            (manager, ticket, pending, facts),
            removed,
        ),
    ensures
        final(manager)@.registry.runs.len() > 0,
        final(manager)@.registry.runs.last() == (RegistryEntry {
            facts,
            operation_key: old(manager)@.registry.reservations[place].operation_key,
            stop: None,
            metadata_bytes: None,
            residency: Residency::Retained,
        }),
        final(manager)@.registry.reservations == old(manager)@.registry.reservations.remove(place),
        final(manager)@.cleanups == (CleanupView {
            owned: old(manager)@.cleanups.owned - 1,
            ..old(manager)@.cleanups
        }),
        final(manager)@.flights == old(manager)@.flights,
        final(manager)@.gate == old(manager)@.gate,
{
    lemma_reservation_place(old(manager)@.registry, ticket, place);
}

/// A committed Run becomes public with its record's size, and its record is
/// active. An end that came before becomes visible with it. A trouble behind the
/// commit is told, and the Run is public all the same.
pub proof fn law_a_committed_run_becomes_public(
    manager: &mut RunManager,
    publication: PersistentPublicationOwner,
    pending: PendingPublication,
    facts: RunFacts,
    run: &mut Run,
    metadata_bytes: u64,
    trouble: Option<String>,
    step: PublishStep,
    place: int,
)
    requires
        old(manager)@.valid(),
        old(run)@.binding is Pending,
        old(manager)@.terminals < u64::MAX,
        0 <= place < old(manager)@.registry.reservations.len(),
        old(manager)@.registry.reservations[place].ticket == publication.ticket,
        call_ensures(
            RunManager::publish_persistent_creation,
            (
                manager,
                publication,
                pending,
                facts,
                run,
                CommitOutcome::Committed { metadata_bytes, post_commit_error: trouble },
            ),
            step,
        ),
    ensures
        final(manager)@.registry.runs.len() > 0,
        final(manager)@.registry.runs.last() == (RegistryEntry {
            facts,
            operation_key: old(manager)@.registry.reservations[place].operation_key,
            stop: None,
            metadata_bytes: Some(metadata_bytes),
            residency: Residency::Retained,
        }),
        final(manager)@.registry.reservations == old(manager)@.registry.reservations.remove(place),
        final(run)@.binding is Active,
        step matches PublishStep::Published { answer, effects, .. } && {
            &&& answer is Ok <==> trouble is None
            &&& answer matches Err(error) ==> error.code == ErrorCode::Persistence
            &&& match old(run)@.binding->Pending_terminal {
                None => {
                    &&& final(run)@ == (RunView {
                        binding: PersistenceBinding::Active,
                        ..old(run)@
                    })
                    &&& effects.event is None
                    &&& effects.durable matches Some(DurableWork::Append { replay }) && old(
                        run,
                    )@.output.replays(0, replay)
                    &&& final(manager)@.terminals == old(manager)@.terminals
                },
                Some(terminal) => {
                    &&& final(run)@.state == terminal
                    &&& final(run)@.ordinal matches Some(ordinal) && ordinal.number
                        == final(manager)@.terminals
                    &&& final(manager)@.terminals == old(manager)@.terminals + 1
                    &&& effects.durable matches Some(DurableWork::Finalize { replay, state, .. })
                        && state == terminal && old(run)@.output.replays(0, replay)
                    &&& effects.event == (if old(run)@.attachments > 0 {
                        Some(RunEvent::Exited { state: terminal })
                    } else {
                        None
                    })
                },
            }
        },
{
    lemma_reservation_place(old(manager)@.registry, publication.ticket, place);
}

/// A Run whose commit failed stays private and is cleaned up. Its reservation is
/// given up where the commit is known not to have happened; otherwise creation
/// stops.
pub proof fn law_an_uncommitted_run_stays_private(
    manager: &mut RunManager,
    publication: PersistentPublicationOwner,
    pending: PendingPublication,
    facts: RunFacts,
    run: &mut Run,
    outcome: CommitOutcome,
    step: PublishStep,
    place: int,
)
    requires
        !(outcome is Committed),
        old(manager)@.valid(),
        0 <= place < old(manager)@.registry.reservations.len(),
        old(manager)@.registry.reservations[place].ticket == publication.ticket,
        call_ensures(
            RunManager::publish_persistent_creation,
            (manager, publication, pending, facts, run, outcome),
            step,
        ),
    ensures
        final(run)@ == old(run)@,
        step matches PublishStep::CleanUp { pending: left, failure } && left == pending && match outcome {
            CommitOutcome::NotCommitted(fault) => !failure.commit_unknown && failure.capacity
                == fault.capacity && failure.message == fault.message,
            CommitOutcome::Unknown(fault) => failure.commit_unknown && failure.message
                == fault.message,
            _ => false,
        },
        outcome is NotCommitted ==> gave_up(
            old(manager)@.registry,
            final(manager)@.registry,
            place,
        ) && final(manager)@.flights == old(manager)@.flights,
        outcome is Unknown ==> stopped_creating(
            old(manager)@,
            final(manager)@,
            publication.ticket,
        ),
{
    lemma_reservation_place(old(manager)@.registry, publication.ticket, place);
}

/// The answer to a creation whose commit failed is a lack of room only where
/// that is the reason and the commit did not happen. Its Run is gone and gives
/// its slot back, or is handed over under its key.
pub proof fn law_a_failed_commit_is_answered(
    manager: &mut RunManager,
    pending: PendingPublication,
    failure: StartFault,
    terminated: Result<(), String>,
    r: ProtocolError,
)
    requires
        old(manager)@.valid(),
        call_ensures(
            RunManager::finish_failed_publication,
            (manager, pending, failure, terminated),
            r,
        ),
    ensures
        r.code == (if failure.capacity && !failure.commit_unknown {
            ErrorCode::RunCapacity
        } else {
            ErrorCode::Persistence
        }),
        terminated is Ok ==> r.message@ == failure.message@ && final(manager)@.cleanups == (
        CleanupView { owned: old(manager)@.cleanups.owned - 1, ..old(manager)@.cleanups }),
        terminated matches Err(error) ==> handed_over(
            old(manager)@.cleanups,
            final(manager)@.cleanups,
            pending.key@,
            CleanupEntry { run: pending.run, transfer_reason: error, current: Err(error) },
        ),
        final(manager)@.registry == old(manager)@.registry,
        final(manager)@.flights == old(manager)@.flights,
{
    if let Err(error) = terminated {
        lemma_transfer_hands_over(
            old(manager)@.cleanups,
            final(manager)@.cleanups,
            pending.key@,
            pending.request,
            CleanupEntry { run: pending.run, transfer_reason: error, current: Err(error) },
        );
    }
}

/// A publication that is left in the middle is undone while its commit has not
/// begun, or is known not to have happened. Behind that, creation stops; a
/// finished one needs nothing.
pub proof fn law_a_publication_left_in_the_middle_is_undone_or_stops(
    manager: &mut RunManager,
    publication: PersistentPublicationOwner,
    rollback: Result<(), StartFault>,
    place: int,
)
    requires
        old(manager)@.valid(),
        0 <= place < old(manager)@.registry.reservations.len(),
        old(manager)@.registry.reservations[place].ticket == publication.ticket,
        call_ensures(RunManager::unwind_publication, (manager, publication, rollback), ()),
    ensures
        publication.phase is Finished ==> final(manager)@ == old(manager)@,
        publication.phase is NotCommitted ==> gave_up(
            old(manager)@.registry,
            final(manager)@.registry,
            place,
        ),
        publication.phase is Deciding || publication.phase is CommittedUnpublished
            ==> stopped_creating(old(manager)@, final(manager)@, publication.ticket),
        publication.phase is Staged && !(rollback matches Err(fault) && fault.commit_unknown)
            ==> gave_up(old(manager)@.registry, final(manager)@.registry, place),
        publication.phase is Staged && (rollback matches Err(fault) && fault.commit_unknown)
            ==> stopped_creating(old(manager)@, final(manager)@, publication.ticket),
{
    lemma_reservation_place(old(manager)@.registry, publication.ticket, place);
}

/// From the begin of its commit a publication is undecided, until the commit is
/// known to have happened or not.
pub proof fn law_a_commit_is_undecided_until_known(
    begun: &mut PersistentPublicationOwner,
    decided: &mut PersistentPublicationOwner,
    outcome: CommitOutcome,
)
    requires
        call_ensures(PersistentPublicationOwner::begin_commit, (begun,), ()),
        call_ensures(PersistentPublicationOwner::commit, (decided, &outcome), ()),
    ensures
        final(begun).ticket == old(begun).ticket && final(begun).phase is Deciding,
        final(decided).ticket == old(decided).ticket,
        outcome is Committed <==> final(decided).phase is CommittedUnpublished,
        outcome is NotCommitted <==> final(decided).phase is NotCommitted,
        outcome is Unknown <==> final(decided).phase is Deciding,
{
}

/// A pane is imported where Runs have no durable records and tmux work is still
/// taken; then a slot and a place under its identity, without a key, are taken.
/// Otherwise no place is taken.
pub proof fn law_an_import_takes_a_slot_and_a_place(
    manager: &mut RunManager,
    id: RunId,
    r: Result<u64, ProtocolError>,
)
    requires
        old(manager)@.valid(),
        call_ensures(RunManager::import_tmux, (manager, id), r),
    ensures
        old(manager)@.persistent ==> (r matches Err(error) && error.code
            == ErrorCode::UnsupportedCapability),
        !old(manager)@.persistent && old(manager)@.tmux_shutting_down ==> (r matches Err(error)
            && error.code == ErrorCode::BackendUnavailable),
        r is Err ==> final(manager)@.registry == old(manager)@.registry
            && final(manager)@.cleanups.reserved() == old(manager)@.cleanups.reserved(),
        r matches Ok(ticket) ==> {
            let made = final(manager)@.registry.reservations.last();
            &&& made.ticket == ticket
            &&& made.new_run_id == id
            &&& made.operation_key is None
            &&& made.request is None
            &&& made.new_metadata_bytes is None
            &&& final(manager)@.cleanups.reserved() == old(manager)@.cleanups.reserved() + 1
        },
        final(manager)@.flights == old(manager)@.flights,
{
    law_pruning_frees_only_proven_slots(old(manager)@.cleanups);
}

/// An imported Run becomes public without a key and gives its slot back.
pub proof fn law_an_imported_run_becomes_public(
    manager: &mut RunManager,
    ticket: u64,
    facts: RunFacts,
    removed: Vec<RegistryEntry>,
    place: int,
)
    requires
        old(manager)@.valid(),
        0 <= place < old(manager)@.registry.reservations.len(),
        old(manager)@.registry.reservations[place].ticket == ticket,
        call_ensures(RunManager::publish_tmux_import, (manager, ticket, facts), removed),
    ensures
        final(manager)@.registry.runs.len() > 0,
        final(manager)@.registry.runs.last() == (RegistryEntry {
            facts,
            operation_key: None,
            stop: None,
            metadata_bytes: None,
            residency: Residency::Retained,
        }),
        final(manager)@.registry.reservations == old(manager)@.registry.reservations.remove(place),
        final(manager)@.cleanups.owned == old(manager)@.cleanups.owned - 1,
        final(manager)@.flights == old(manager)@.flights,
{
    lemma_reservation_place(old(manager)@.registry, ticket, place);
}

/// tmux work is taken until the shutdown, and imports only without durable
/// records.
pub proof fn law_tmux_work_is_taken_until_the_shutdown(
    manager: RunManager,
    operation: Result<(), ProtocolError>,
    import: Result<(), ProtocolError>,
    stopping: &mut RunManager,
)
    requires
        call_ensures(RunManager::with_tmux_operation, (&manager,), operation),
        call_ensures(RunManager::ensure_tmux_import_supported, (&manager,), import),
        call_ensures(RunManager::fence_owned_work, (stopping,), ()),
    ensures
        operation is Ok <==> !manager@.tmux_shutting_down,
        operation matches Err(error) ==> error.code == ErrorCode::BackendUnavailable
            && error.message@ == "ctxmux daemon is shutting down"@,
        import is Ok <==> !manager@.persistent,
        import matches Err(error) ==> error.code == ErrorCode::UnsupportedCapability,
        final(stopping)@.tmux_shutting_down && !final(stopping)@.flights.accepting,
        final(stopping)@.registry == old(stopping)@.registry,
        final(stopping)@.flights.active == old(stopping)@.flights.active,
        final(stopping)@.cleanups == old(stopping)@.cleanups,
{
}

/// The report of what is left names every Run that is not proven to be gone, and
/// only those; the wait for it ends when there is none, or at the deadline.
pub proof fn law_the_report_names_what_is_left(
    owner: &mut UnpublishedCleanupOwner,
    report: Vec<String>,
    waiting: &mut UnpublishedCleanupOwner,
    deadline_passed: bool,
    r: Option<Vec<String>>,
)
    requires
        old(owner)@.valid(),
        old(waiting)@.valid(),
        call_ensures(UnpublishedCleanupOwner::prune_and_report, (owner,), report),
        call_ensures(UnpublishedCleanupOwner::wait_until, (waiting, deadline_passed), r),
    ensures
        report@.len() == final(owner)@.transferred(),
        final(owner)@.reserved() == old(owner)@.reserved(),
        forall|entry: CleanupEntry| #[trigger]
            final(owner)@.tmux.contains(entry) <==> old(owner)@.tmux.contains(entry)
                && entry.current is Err,
        r is None <==> final(waiting)@.transferred() > 0 && !deadline_passed,
        r matches Some(lines) ==> lines@.len() == final(waiting)@.transferred(),
{
    broadcast use vstd::seq_lib::group_to_multiset_ensures;

    law_pruning_frees_only_proven_slots(old(owner)@);
    law_pruning_frees_only_proven_slots(old(waiting)@);
    lemma_unproven_members(old(owner)@.tmux);
    lemma_reports_are_counted(final(owner)@.fences);
    lemma_reports_are_counted(final(waiting)@.fences);
    let lines = fence_reports(final(owner)@.fences) + tmux_reports(final(owner)@.tmux);
    assert(texts_of(report@).to_multiset().len() == lines.to_multiset().len());
    let left = fence_reports(final(waiting)@.fences) + tmux_reports(final(waiting)@.tmux);
    if let Some(told) = r {
        assert(texts_of(told@).to_multiset().len() == left.to_multiset().len());
    }
}

proof fn lemma_reports_are_counted(fences: Seq<FenceView>)
    ensures
        fence_reports(fences).len() == fenced_runs(fences),
    decreases fences.len(),
{
    if fences.len() > 0 {
        lemma_reports_are_counted(fences.drop_last());
    }
}

/// How many Runs stand behind some fences.
pub open spec fn runs_behind(fences: Seq<FenceView>) -> int
    decreases fences.len(),
{
    if fences.len() == 0 {
        0
    } else {
        runs_behind(fences.drop_last()) + fences.last().owners.len()
    }
}

proof fn lemma_runs_behind(fences: Seq<FenceView>)
    ensures
        runs_behind(fences) == fenced_runs(fences),
    decreases fences.len(),
{
    if fences.len() > 0 {
        lemma_runs_behind(fences.drop_last());
    }
}

/// What is counted is what is owned: slots, Runs that are cleaned up, flights.
pub proof fn law_what_is_owned_is_counted(
    owner: UnpublishedCleanupOwner,
    owned: usize,
    cleanups: usize,
    flights: CreationFlightOwner,
    active: usize,
    available: usize,
)
    requires
        call_ensures(UnpublishedCleanupOwner::owned_count, (&owner,), owned),
        call_ensures(UnpublishedCleanupOwner::cleanup_count, (&owner,), cleanups),
        call_ensures(CreationFlightOwner::active_count, (&flights,), active),
        call_ensures(CreationFlightOwner::available_admission, (&flights,), available),
    ensures
        owned == owner@.owned,
        cleanups == runs_behind(owner@.fences) + owner@.tmux.len(),
        owner@.reserved() == owned - cleanups,
        active == flights@.active,
        available == 8 - flights@.active - flights@.granted,
{
    lemma_runs_behind(owner@.fences);
}

/// A commit that nobody knows the outcome of stops creation for good; the first
/// reason counts.
pub proof fn law_an_unknown_commit_stops_creation(
    manager: &mut RunManager,
    ticket: u64,
    message: &str,
)
    requires
        call_ensures(RunManager::fail_stop_persistence, (manager, Some(ticket), message), ()),
    ensures
        stopped_creating(old(manager)@, final(manager)@, ticket),
{
}

/// A native Run that is abandoned is handed over under its key; it is not proven
/// to be gone. An import is handed over as it is.
pub proof fn law_an_abandoned_run_is_handed_over(
    pending: PendingPublication,
    owner: &mut UnpublishedCleanupOwner,
    requested: Result<(), String>,
    importing: &mut UnpublishedCleanupOwner,
    run: RunId,
    reason: String,
    current: Result<(), String>,
)
    requires
        old(owner)@.valid(),
        call_ensures(PendingPublication::abandon, (pending, owner, requested), ()),
        call_ensures(
            UnpublishedCleanupOwner::transfer_tmux,
            (importing, run, reason, current),
            (),
        ),
    ensures
        exists|entry: CleanupEntry| #[trigger]
            handed_over(old(owner)@, final(owner)@, pending.key@, entry) && entry.run
                == pending.run && entry.current is Err,
        final(importing)@ == (CleanupView {
            tmux: old(importing)@.tmux.push(
                CleanupEntry { run, transfer_reason: reason, current },
            ),
            ..old(importing)@
        }),
{
    let why = choose|why: String| #[trigger]
        old(owner)@.transfers(
            pending.key@,
            pending.request@,
            CleanupEntry { run: pending.run, transfer_reason: why, current: Err(why) },
            final(owner)@,
        );
    let entry = CleanupEntry { run: pending.run, transfer_reason: why, current: Err(why) };
    lemma_transfer_hands_over(old(owner)@, final(owner)@, pending.key@, pending.request, entry);
    assert(handed_over(old(owner)@, final(owner)@, pending.key@, entry));
}

} // verus!
