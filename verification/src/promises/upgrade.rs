//! How the daemon replaces its own image, and which requests it takes meanwhile.

use vstd::prelude::*;

use crate::daemon::connection::{handle_connection, ConnectionPhase, ConnectionStep};
use crate::daemon::upgrade::{
    exec_arguments, perform_exec_upgrade, upgrade_retry_error, DrainPoll, ExecUpgrade, UpgradeAbort,
    UpgradeEvent, UpgradeIdentity, UpgradeRequestAdmission, UpgradeRequestFence, UpgradeRequestGate,
    UpgradeRequestPhase, UpgradeStage, UpgradeStep,
};
use crate::protocol::{ErrorCode, ProtocolError};
use crate::text::decimal;

verus! {

/// Requests are executed while no upgrade drains them, told to come again while
/// one does, and turned away once it has sealed. Each that is answered counts
/// until it is finished.
pub proof fn law_requests_are_taken_by_the_phase(
    gate: &mut UpgradeRequestGate,
    admission: UpgradeRequestAdmission,
)
    requires
        call_ensures(UpgradeRequestGate::admit_request, (gate,), admission),
    ensures
        final(gate)@.phase == old(gate)@.phase,
        match old(gate)@.phase {
            UpgradeRequestPhase::Open => admission == UpgradeRequestAdmission::Execute
                && final(gate)@.active == old(gate)@.active + 1,
            UpgradeRequestPhase::Draining => admission == UpgradeRequestAdmission::Retry
                && final(gate)@.active == old(gate)@.active + 1,
            UpgradeRequestPhase::Sealed => admission == UpgradeRequestAdmission::Sealed
                && final(gate)@.active == old(gate)@.active,
        },
{
}

/// A finished request is counted off, whatever the phase is by then; the last
/// one is told.
pub proof fn law_a_finished_request_is_counted_off(gate: &mut UpgradeRequestGate, last: bool)
    requires
        old(gate)@.active > 0,
        call_ensures(UpgradeRequestGate::finish_request, (gate,), last),
    ensures
        final(gate)@.phase == old(gate)@.phase,
        final(gate)@.active == old(gate)@.active - 1,
        last <==> old(gate)@.active == 1,
{
}

/// A new barrier is open and counts nothing.
pub proof fn law_a_new_barrier_is_open(
    gate: UpgradeRequestGate,
    active: usize,
    phase: UpgradeRequestPhase,
)
    requires
        call_ensures(UpgradeRequestGate::new, (), gate),
        call_ensures(UpgradeRequestGate::active, (&gate,), active),
        call_ensures(UpgradeRequestGate::phase, (&gate,), phase),
    ensures
        active == 0 && phase == UpgradeRequestPhase::Open,
        gate@.phase == UpgradeRequestPhase::Open && gate@.active == 0,
{
}

/// Only one upgrade drains at a time.
pub proof fn law_one_upgrade_drains_at_a_time(
    gate: &mut UpgradeRequestGate,
    r: Result<(), String>,
)
    requires
        call_ensures(UpgradeRequestGate::begin_drain, (gate,), r),
    ensures
        r is Ok <==> old(gate)@.phase == UpgradeRequestPhase::Open,
        final(gate)@.active == old(gate)@.active,
        r is Ok ==> final(gate)@.phase == UpgradeRequestPhase::Draining,
        r is Err ==> final(gate)@.phase == old(gate)@.phase,
{
}

/// A drain seals exactly when no request is left. At the deadline it opens
/// again; until then it goes on.
pub proof fn law_a_drain_seals_when_all_requests_are_done(
    gate: &mut UpgradeRequestGate,
    deadline_passed: bool,
    poll: DrainPoll,
)
    requires
        old(gate)@.phase == UpgradeRequestPhase::Draining,
        call_ensures(UpgradeRequestGate::poll_drain, (gate, deadline_passed), poll),
    ensures
        final(gate)@.active == old(gate)@.active,
        poll is Sealed <==> old(gate)@.active == 0,
        poll is Sealed <==> final(gate)@.phase == UpgradeRequestPhase::Sealed,
        poll is TimedOut <==> old(gate)@.active > 0 && deadline_passed,
        poll is TimedOut <==> final(gate)@.phase == UpgradeRequestPhase::Open,
        poll is Wait <==> final(gate)@.phase == UpgradeRequestPhase::Draining,
        poll matches DrainPoll::Sealed(fence) ==> !fence.committed,
{
}

/// A fence that is given up opens the barrier again, unless the upgrade was
/// committed: then it stays sealed.
pub proof fn law_only_a_committed_fence_stays(
    fence: UpgradeRequestFence,
    gate: &mut UpgradeRequestGate,
    committed: &mut UpgradeRequestFence,
)
    requires
        call_ensures(UpgradeRequestFence::release, (fence, gate), ()),
        call_ensures(UpgradeRequestFence::commit, (committed,), ()),
        old(gate)@.phase == UpgradeRequestPhase::Sealed,
    ensures
        final(committed).committed,
        fence.committed <==> final(gate)@.phase == UpgradeRequestPhase::Sealed,
        !fence.committed <==> final(gate)@.phase == UpgradeRequestPhase::Open,
        final(gate)@.active == old(gate)@.active,
{
}

/// While an upgrade drains, clients are told to come again.
pub proof fn law_draining_clients_are_told_to_come_again(error: ProtocolError)
    requires
        call_ensures(upgrade_retry_error, (), error),
    ensures
        error.code == ErrorCode::BackendUnavailable,
{
}

/// An upgrade begins by creating its file.
pub proof fn law_an_upgrade_begins_with_its_file(identity: UpgradeIdentity, upgrade: ExecUpgrade)
    requires
        call_ensures(ExecUpgrade::new, (identity,), upgrade),
    ensures
        upgrade.stage is CreateFile,
        upgrade.identity == identity,
        upgrade.manifest is None,
{
}

/// The stages of an upgrade come in one order. Requests are drained before
/// anything is extracted, and nothing is extracted while one is under way. What
/// was extracted is committed durably before the manifest is written, and the
/// image is replaced last. What the upgrade is of never changes.
pub proof fn law_an_upgrade_comes_in_order(
    upgrade: ExecUpgrade,
    gate: &mut UpgradeRequestGate,
    event: UpgradeEvent,
    next: ExecUpgrade,
)
    requires
        call_ensures(perform_exec_upgrade, (upgrade, gate, event), UpgradeStep::Perform(next)),
    ensures
        next.identity == upgrade.identity,
        event is Done ==> match upgrade.stage {
            UpgradeStage::CreateFile => next.stage is UnlinkFile,
            UpgradeStage::UnlinkFile => next.stage is GuardFile,
            UpgradeStage::GuardFile => next.stage is FindExecutable,
            UpgradeStage::FindExecutable => next.stage is VerifyTarget,
            UpgradeStage::VerifyTarget => next.stage is Drain,
            UpgradeStage::Drain => next.stage is Extract,
            UpgradeStage::Extract => next.stage is CommitDurable,
            UpgradeStage::CommitDurable => next.stage is WriteManifest,
            UpgradeStage::WriteManifest => next.stage is FinishManifest,
            UpgradeStage::FinishManifest => next.stage is KeepDescriptors,
            UpgradeStage::KeepDescriptors => next.stage is KeepManifest,
            UpgradeStage::KeepManifest => next.stage is Exec,
            UpgradeStage::Exec => next.stage is Exec,
        },
        event is Done ==> next.manifest == upgrade.manifest,
        event is Done && upgrade.stage is VerifyTarget ==> old(gate)@.phase
            == UpgradeRequestPhase::Open && final(gate)@.phase == UpgradeRequestPhase::Draining
            && final(gate)@.active == old(gate)@.active,
        event is Done && !(upgrade.stage is VerifyTarget) ==> final(gate)@ == old(gate)@,
        event is Extracted ==> next.stage is CommitDurable && next.manifest is Some
            && final(gate)@ == old(gate)@,
        event is Polled ==> next.manifest == upgrade.manifest && (next.stage is Extract
            ==> old(gate)@.active == 0 && final(gate)@.phase == UpgradeRequestPhase::Sealed) && (
        old(gate)@.active > 0 ==> next == upgrade && final(gate)@ == old(gate)@),
        !(event is Failed) && !(event is NotDurable),
{
}

/// A failure before anything was extracted lets the daemon serve on, with the
/// barrier open where the upgrade had closed it. Behind that point the daemon
/// cannot serve on: the barrier stays as it is.
pub proof fn law_a_failed_upgrade_serves_on_or_stops(
    upgrade: ExecUpgrade,
    gate: &mut UpgradeRequestGate,
    event: UpgradeEvent,
    step: UpgradeStep,
)
    requires
        event is Failed || event is NotDurable,
        call_ensures(perform_exec_upgrade, (upgrade, gate, event), step),
    ensures
        step is Aborted,
        event is NotDurable ==> step == UpgradeStep::Aborted(
            UpgradeAbort::AfterExtract(event->NotDurable_0),
        ),
        event is Failed ==> match upgrade.stage {
            UpgradeStage::CreateFile | UpgradeStage::UnlinkFile | UpgradeStage::GuardFile
            | UpgradeStage::FindExecutable | UpgradeStage::VerifyTarget | UpgradeStage::Drain => {
                &&& step matches UpgradeStep::Aborted(UpgradeAbort::BeforeExtract(_))
                &&& final(gate)@ == old(gate)@
            },
            UpgradeStage::Extract => {
                &&& step matches UpgradeStep::Aborted(UpgradeAbort::BeforeExtract(_))
                &&& final(gate)@.phase == UpgradeRequestPhase::Open
                &&& final(gate)@.active == old(gate)@.active
            },
            _ => {
                &&& step matches UpgradeStep::Aborted(UpgradeAbort::AfterExtract(_))
                &&& final(gate)@ == old(gate)@
            },
        },
{
}

/// A drain that takes too long ends the upgrade and opens the barrier again.
pub proof fn law_an_upgrade_gives_up_a_long_drain(
    upgrade: ExecUpgrade,
    gate: &mut UpgradeRequestGate,
    deadline_passed: bool,
    step: UpgradeStep,
)
    requires
        old(gate)@.phase == UpgradeRequestPhase::Draining,
        call_ensures(
            perform_exec_upgrade,
            (upgrade, gate, UpgradeEvent::Polled { deadline_passed }),
            step,
        ),
    ensures
        old(gate)@.active > 0 && deadline_passed ==> (step matches UpgradeStep::Aborted(
            UpgradeAbort::BeforeExtract(_),
        )) && final(gate)@.phase == UpgradeRequestPhase::Open,
        old(gate)@.active == 0 ==> (step matches UpgradeStep::Perform(next) && next.stage is Extract
            && final(gate)@.phase == UpgradeRequestPhase::Sealed),
        old(gate)@.active > 0 && !deadline_passed ==> step == UpgradeStep::Perform(upgrade),
        final(gate)@.active == old(gate)@.active,
{
}

/// The new image is told the same socket and the same state directory, and
/// where the manifest is.
pub proof fn law_the_new_image_gets_the_same_paths(
    socket_path: String,
    state_dir: String,
    fd: u32,
    arguments: Vec<String>,
)
    requires
        call_ensures(exec_arguments, (socket_path, state_dir, fd), arguments),
    ensures
        arguments@.len() == 6,
        arguments@[0]@ == "--socket"@ && arguments@[1]@ == socket_path@,
        arguments@[2]@ == "--state-dir"@ && arguments@[3]@ == state_dir@,
        arguments@[4]@ == "--handoff-fd"@ && arguments@[5]@ == decimal(fd as nat),
{
}

/// What a connection may do follows the barrier: a request that arrives while
/// an upgrade drains is never executed.
pub proof fn law_nothing_is_executed_during_a_drain(
    received: Option<crate::protocol::ClientFrame>,
    gate: &mut UpgradeRequestGate,
    step: ConnectionStep,
)
    requires
        old(gate)@.phase != UpgradeRequestPhase::Open,
        call_ensures(handle_connection, (ConnectionPhase::AwaitRequest, received, gate), step),
    ensures
        !(step is Execute) && !(step is Attach),
        final(gate)@.phase == old(gate)@.phase,
{
}

} // verus!
