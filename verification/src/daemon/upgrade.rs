//! Replacing the daemon's image in place: the barrier that drains requests, and
//! the order of the steps before and after the point of no return.

use vstd::prelude::*;

use crate::daemon::handoff::{
    input_total, stop_total, HandoffManifest, HandoffRun, HandoffStopOperation,
};
use crate::daemon::manifest::{manifest_built, manifest_fds};
use crate::daemon::server::ServerError;
use crate::identity::DaemonInstanceId;
use crate::protocol::{protocol_error, ErrorCode, ProtocolError};
use crate::text::{decimal, decimal_text, joined3, owned};

verus! {

/// How long, in milliseconds, an upgrade waits for requests to finish.
pub const UPGRADE_QUIESCE_TIMEOUT: u64 = 8000;

/// Whether requests are executed.
#[derive(Debug, Clone, Copy, PartialEq, Eq, Structural)]
pub enum UpgradeRequestPhase {
    Open,
    Draining,
    Sealed,
}

/// What a request may do. Other than a sealed one, it holds a permit until its
/// response is written.
#[derive(Debug, Clone, Copy, PartialEq, Eq, Structural)]
pub enum UpgradeRequestAdmission {
    Execute,
    Retry,
    Sealed,
}

/// State of the barrier.
pub struct GateView {
    pub phase: UpgradeRequestPhase,
    pub active: nat,
}

impl GateView {
    /// A sealed barrier has no request behind it.
    pub open spec fn valid(&self) -> bool {
        self.phase is Sealed ==> self.active == 0
    }

    /// What a new request may do.
    pub open spec fn admission(&self) -> UpgradeRequestAdmission {
        match self.phase {
            UpgradeRequestPhase::Open => UpgradeRequestAdmission::Execute,
            UpgradeRequestPhase::Draining => UpgradeRequestAdmission::Retry,
            UpgradeRequestPhase::Sealed => UpgradeRequestAdmission::Sealed,
        }
    }

    /// The barrier after a new request.
    pub open spec fn admitted(&self) -> GateView {
        if self.phase is Sealed {
            *self
        } else {
            GateView { active: self.active + 1, ..*self }
        }
    }

    /// The barrier after a response.
    pub open spec fn finished(&self) -> GateView {
        GateView { active: (self.active - 1) as nat, ..*self }
    }

    /// The barrier in another phase.
    pub open spec fn in_phase(&self, phase: UpgradeRequestPhase) -> GateView {
        GateView { phase, ..*self }
    }

    /// The barrier after a look at a drain.
    pub open spec fn drained(&self, deadline_passed: bool) -> GateView {
        if self.active == 0 {
            self.in_phase(UpgradeRequestPhase::Sealed)
        } else if deadline_passed {
            self.in_phase(UpgradeRequestPhase::Open)
        } else {
            *self
        }
    }
}

/// What a look at a drain shows.
#[derive(Debug, PartialEq, Eq)]
pub enum DrainPoll {
    /// Requests are still running.
    Wait,
    /// None is left, and none can start.
    Sealed(UpgradeRequestFence),
    /// Too many are left; the barrier is open again.
    TimedOut(String),
}

/// The barrier that every request passes.
pub struct UpgradeRequestGate {
    phase: UpgradeRequestPhase,
    active: usize,
}

impl UpgradeRequestGate {
    /// State of this barrier.
    pub closed spec fn view(&self) -> GateView {
        GateView { phase: self.phase, active: self.active as nat }
    }

    /// An open barrier.
    pub fn new() -> (r: UpgradeRequestGate)
        ensures
            r@ == (GateView { phase: UpgradeRequestPhase::Open, active: 0 }),
            r@.valid(),
    {
        UpgradeRequestGate { phase: UpgradeRequestPhase::Open, active: 0 }
    }

    /// Requests that hold a permit.
    pub fn active(&self) -> (r: usize)
        ensures
            r == self@.active,
    {
        self.active
    }

    /// The phase of this barrier.
    pub fn phase(&self) -> (r: UpgradeRequestPhase)
        ensures
            r == self@.phase,
    {
        self.phase
    }

    /// Let a request in, or tell it to retry, or turn it away.
    pub fn admit_request(&mut self) -> (r: UpgradeRequestAdmission)
        requires
            old(self)@.valid(),
            old(self)@.active < usize::MAX,
        ensures
            final(self)@.valid(),
            r == old(self)@.admission(),
            final(self)@ == old(self)@.admitted(),
    {
        match self.phase {
            UpgradeRequestPhase::Open => {
                self.active = self.active + 1;
                UpgradeRequestAdmission::Execute
            },
            UpgradeRequestPhase::Draining => {
                self.active = self.active + 1;
                UpgradeRequestAdmission::Retry
            },
            UpgradeRequestPhase::Sealed => UpgradeRequestAdmission::Sealed,
        }
    }

    /// Give the permit of a request back. The result says whether it was the
    /// last.
    pub fn finish_request(&mut self) -> (r: bool)
        requires
            old(self)@.valid(),
            old(self)@.active > 0,
        ensures
            final(self)@.valid(),
            final(self)@ == old(self)@.finished(),
            r == (final(self)@.active == 0),
    {
        self.active = self.active - 1;
        self.active == 0
    }

    /// Stop executing new requests. Only one drain can be under way.
    pub fn begin_drain(&mut self) -> (r: Result<(), String>)
        requires
            old(self)@.valid(),
        ensures
            final(self)@.valid(),
            if old(self)@.phase is Open {
                &&& r == Ok::<(), String>(())
                &&& final(self)@ == old(self)@.in_phase(UpgradeRequestPhase::Draining)
            } else {
                &&& r matches Err(message) && message@
                    == "another exec-in-place upgrade is already draining requests"@
                &&& final(self)@ == old(self)@
            },
    {
        match self.phase {
            UpgradeRequestPhase::Open => {
                self.phase = UpgradeRequestPhase::Draining;
                Ok(())
            },
            _ => Err(owned("another exec-in-place upgrade is already draining requests")),
        }
    }

    /// Look whether the drain is over: sealed once no request is left, open
    /// again where requests are left at the deadline.
    pub fn poll_drain(&mut self, deadline_passed: bool) -> (r: DrainPoll)
        requires
            old(self)@.phase is Draining,
        ensures
            final(self)@.valid(),
            final(self)@ == old(self)@.drained(deadline_passed),
            if old(self)@.active == 0 {
                r matches DrainPoll::Sealed(fence) && !fence.committed
            } else if deadline_passed {
                r matches DrainPoll::TimedOut(message) && message@ == "timed out waiting for "@
                    + decimal(old(self)@.active) + " admitted request(s) to finish"@
            } else {
                r is Wait
            },
    {
        if self.active == 0 {
            self.phase = UpgradeRequestPhase::Sealed;
            return DrainPoll::Sealed(UpgradeRequestFence { committed: false });
        }
        if deadline_passed {
            self.phase = UpgradeRequestPhase::Open;
            let count = decimal_text(self.active as u64);
            return DrainPoll::TimedOut(
                joined3(
                    "timed out waiting for ",
                    count.as_str(),
                    " admitted request(s) to finish",
                ),
            );
        }
        DrainPoll::Wait
    }
}

/// Holds a barrier sealed. Unless it was committed, giving it up opens the barrier.
#[derive(Debug, PartialEq, Eq)]
pub struct UpgradeRequestFence {
    pub committed: bool,
}

impl UpgradeRequestFence {
    /// Keep the barrier sealed for good.
    pub fn commit(&mut self)
        ensures
            final(self).committed,
    {
        self.committed = true;
    }

    /// Give the fence up.
    pub fn release(self, gate: &mut UpgradeRequestGate)
        requires
            old(gate)@.phase is Sealed,
            old(gate)@.valid(),
        ensures
            final(gate)@.valid(),
            final(gate)@ == (if self.committed {
                old(gate)@
            } else {
                old(gate)@.in_phase(UpgradeRequestPhase::Open)
            }),
    {
        if !self.committed {
            gate.phase = UpgradeRequestPhase::Open;
        }
    }
}

/// The answer to a request that came during a drain.
pub fn upgrade_retry_error() -> (r: ProtocolError)
    ensures
        r.says(
            ErrorCode::BackendUnavailable,
            "ctxmux daemon is draining for an exec-in-place upgrade; reconnect and retry"@,
        ),
{
    protocol_error(
        ErrorCode::BackendUnavailable,
        "ctxmux daemon is draining for an exec-in-place upgrade; reconnect and retry",
    )
}

/// The barrier seals only when no request is left, and a drain that runs out of
/// time gives every request back what it had before the drain.
pub proof fn law_a_drain_seals_or_restores(gate: GateView, deadline_passed: bool)
    requires
        gate.phase is Draining,
    ensures
        gate.drained(deadline_passed).phase is Sealed <==> gate.active == 0,
        gate.drained(deadline_passed).active == gate.active,
        gate.active > 0 && deadline_passed ==> gate.drained(deadline_passed).admission()
            == UpgradeRequestAdmission::Execute,
        gate.drained(deadline_passed).valid(),
{
}

/// Permits stay balanced: a response takes back exactly what its request took,
/// in whatever phase the barrier is by then.
pub proof fn law_permits_stay_balanced(gate: GateView, later: UpgradeRequestPhase)
    requires
        gate.valid(),
        !(gate.phase is Sealed),
    ensures
        gate.admitted().finished() == gate,
        gate.admitted().in_phase(later).finished() == gate.in_phase(later),
{
}

/// Why an upgrade was given up, relative to the point of no return.
#[derive(Debug, PartialEq, Eq)]
pub enum UpgradeAbort {
    /// Nothing is lost: the daemon keeps serving.
    BeforeExtract(ServerError),
    /// The children belong to nobody in this image any more: the daemon stops.
    AfterExtract(ServerError),
}

/// One step of an upgrade.
#[derive(Debug, Clone, Copy, PartialEq, Eq, Structural)]
pub enum UpgradeStage {
    CreateFile,
    UnlinkFile,
    GuardFile,
    FindExecutable,
    VerifyTarget,
    Drain,
    Extract,
    CommitDurable,
    WriteManifest,
    FinishManifest,
    KeepDescriptors,
    KeepManifest,
    Exec,
}

impl UpgradeStage {
    /// How many stages are left, this one included.
    pub open spec fn remaining(&self) -> nat {
        match *self {
            UpgradeStage::CreateFile => 13,
            UpgradeStage::UnlinkFile => 12,
            UpgradeStage::GuardFile => 11,
            UpgradeStage::FindExecutable => 10,
            UpgradeStage::VerifyTarget => 9,
            UpgradeStage::Drain => 8,
            UpgradeStage::Extract => 7,
            UpgradeStage::CommitDurable => 6,
            UpgradeStage::WriteManifest => 5,
            UpgradeStage::FinishManifest => 4,
            UpgradeStage::KeepDescriptors => 3,
            UpgradeStage::KeepManifest => 2,
            UpgradeStage::Exec => 1,
        }
    }

    /// Whether this stage lies behind the point of no return.
    pub open spec fn is_irreversible(&self) -> bool {
        self.remaining() < UpgradeStage::Extract.remaining()
    }

    /// Where a platform failure of this stage is reported.
    pub open spec fn place(&self, file: Seq<char>) -> Seq<char> {
        match *self {
            UpgradeStage::CreateFile => file,
            UpgradeStage::UnlinkFile => file,
            UpgradeStage::GuardFile => "<handoff file cloexec>"@,
            UpgradeStage::FindExecutable => "<current_exe>"@,
            UpgradeStage::WriteManifest => "<handoff manifest>"@,
            UpgradeStage::FinishManifest => "<handoff manifest>"@,
            UpgradeStage::KeepDescriptors => "<handoff fd cloexec>"@,
            UpgradeStage::KeepManifest => "<handoff-fd cloexec>"@,
            _ => "<exec-in-place>"@,
        }
    }

    /// Whether a failure of this stage is a reason in words instead of a
    /// platform failure.
    pub open spec fn fails_in_words(&self) -> bool {
        self is VerifyTarget || self is Extract
    }

    /// The stage after this one.
    pub open spec fn following(&self) -> UpgradeStage {
        match *self {
            UpgradeStage::CreateFile => UpgradeStage::UnlinkFile,
            UpgradeStage::UnlinkFile => UpgradeStage::GuardFile,
            UpgradeStage::GuardFile => UpgradeStage::FindExecutable,
            UpgradeStage::FindExecutable => UpgradeStage::VerifyTarget,
            UpgradeStage::VerifyTarget => UpgradeStage::Drain,
            UpgradeStage::Drain => UpgradeStage::Extract,
            UpgradeStage::Extract => UpgradeStage::CommitDurable,
            UpgradeStage::CommitDurable => UpgradeStage::WriteManifest,
            UpgradeStage::WriteManifest => UpgradeStage::FinishManifest,
            UpgradeStage::FinishManifest => UpgradeStage::KeepDescriptors,
            UpgradeStage::KeepDescriptors => UpgradeStage::KeepManifest,
            UpgradeStage::KeepManifest => UpgradeStage::Exec,
            UpgradeStage::Exec => UpgradeStage::Exec,
        }
    }
}

/// What came out of one stage.
#[derive(Debug, PartialEq, Eq)]
pub enum UpgradeEvent {
    Done,
    Failed(String),
    /// A look at the drain.
    Polled { deadline_passed: bool },
    /// The live Runs left their owners.
    Extracted { runs: Vec<HandoffRun>, stop_operations: Vec<HandoffStopOperation> },
    /// The durable record could not be brought up to date.
    NotDurable(ServerError),
}

/// Whether a stage can come out this way. A successful exec does not come
/// back.
pub open spec fn upgrade_event_possible(stage: UpgradeStage, event: UpgradeEvent) -> bool {
    match event {
        UpgradeEvent::Done => !(stage is Drain) && !(stage is Extract) && !(stage is Exec),
        UpgradeEvent::Failed(_) => !(stage is Drain) && !(stage is CommitDurable),
        UpgradeEvent::Polled { .. } => stage is Drain,
        UpgradeEvent::Extracted { .. } => stage is Extract,
        UpgradeEvent::NotDurable(_) => stage is CommitDurable,
    }
}

/// What stays the same while an upgrade goes on.
#[derive(Debug, PartialEq, Eq)]
pub struct UpgradeIdentity {
    /// The file that carries the manifest.
    pub file: String,
    pub epoch: DaemonInstanceId,
    pub listener_fd: i32,
    pub state_lock_fd: i32,
}

/// An upgrade that is under way.
#[derive(Debug, PartialEq, Eq)]
pub struct ExecUpgrade {
    pub stage: UpgradeStage,
    pub identity: UpgradeIdentity,
    pub manifest: Option<HandoffManifest>,
}

impl ExecUpgrade {
    /// The manifest exists behind the point of no return, and the barrier fits
    /// the stage: draining in the drain, sealed from its end on. Before the
    /// drain another upgrade may have it in any phase.
    pub open spec fn fits(&self, gate: GateView) -> bool {
        &&& gate.valid()
        &&& self.manifest is Some <==> self.stage.is_irreversible()
        &&& if self.stage is Drain {
            gate.phase is Draining
        } else if self.stage is Extract || self.stage.is_irreversible() {
            gate.phase is Sealed
        } else {
            true
        }
    }

    /// An upgrade before its first stage.
    pub fn new(identity: UpgradeIdentity) -> (r: ExecUpgrade)
        ensures
            r == (ExecUpgrade { stage: UpgradeStage::CreateFile, identity, manifest: None }),
    {
        ExecUpgrade { stage: UpgradeStage::CreateFile, identity, manifest: None }
    }
}

/// What comes after one stage of an upgrade.
#[derive(Debug, PartialEq, Eq)]
pub enum UpgradeStep {
    /// Perform the stage that the upgrade has reached.
    Perform(ExecUpgrade),
    Aborted(UpgradeAbort),
}

/// Whether a step gives up before the point of no return.
pub open spec fn aborts_before(step: UpgradeStep) -> Option<ServerError> {
    match step {
        UpgradeStep::Aborted(UpgradeAbort::BeforeExtract(error)) => Some(error),
        _ => None,
    }
}

/// Whether a step gives up behind the point of no return.
pub open spec fn aborts_after(step: UpgradeStep) -> Option<ServerError> {
    match step {
        UpgradeStep::Aborted(UpgradeAbort::AfterExtract(error)) => Some(error),
        _ => None,
    }
}

/// What an upgrade does after one event, and what becomes of the barrier.
pub open spec fn upgrade_next(
    upgrade: ExecUpgrade,
    gate: GateView,
    event: UpgradeEvent,
    step: UpgradeStep,
    after: GateView,
) -> bool {
    let stage = upgrade.stage;
    match event {
        UpgradeEvent::Done => if stage is VerifyTarget {
            if gate.phase is Open {
                &&& step == UpgradeStep::Perform(
                    ExecUpgrade { stage: UpgradeStage::Drain, ..upgrade },
                )
                &&& after == gate.in_phase(UpgradeRequestPhase::Draining)
            } else {
                &&& aborts_before(step) matches Some(error) && error.is_shutdown(
                    "another exec-in-place upgrade is already draining requests"@,
                )
                &&& after == gate
            }
        } else {
            &&& step == UpgradeStep::Perform(ExecUpgrade { stage: stage.following(), ..upgrade })
            &&& after == gate
        },
        UpgradeEvent::Polled { deadline_passed } => {
            &&& after == gate.drained(deadline_passed)
            &&& if gate.active == 0 {
                step == UpgradeStep::Perform(
                    ExecUpgrade { stage: UpgradeStage::Extract, ..upgrade },
                )
            } else if deadline_passed {
                aborts_before(step) matches Some(error) && error.is_shutdown(
                    "timed out waiting for "@ + decimal(gate.active)
                        + " admitted request(s) to finish"@,
                )
            } else {
                step == UpgradeStep::Perform(upgrade)
            }
        },
        UpgradeEvent::Extracted { runs, stop_operations } => {
            &&& after == gate
            &&& step matches UpgradeStep::Perform(next) && next.stage is CommitDurable
                && next.identity == upgrade.identity && (next.manifest matches Some(manifest)
                && manifest_built(
                upgrade.identity.epoch.text(),
                upgrade.identity.listener_fd,
                upgrade.identity.state_lock_fd,
                runs@,
                stop_operations@,
                manifest,
            ))
        },
        UpgradeEvent::Failed(message) => if stage.is_irreversible() {
            &&& aborts_after(step) matches Some(error) && error.is_io(
                stage.place(upgrade.identity.file@),
                message@,
            )
            &&& after == gate
        } else {
            &&& aborts_before(step) matches Some(error) && if stage.fails_in_words() {
                error.is_shutdown(message@)
            } else {
                error.is_io(stage.place(upgrade.identity.file@), message@)
            }
            &&& after == (if stage is Extract {
                gate.in_phase(UpgradeRequestPhase::Open)
            } else {
                gate
            })
        },
        UpgradeEvent::NotDurable(given) => {
            &&& aborts_after(step) == Some(given)
            &&& after == gate
        },
    }
}

fn stage_place(stage: UpgradeStage, file: &String) -> (r: String)
    ensures
        r@ == stage.place(file@),
{
    match stage {
        UpgradeStage::CreateFile => file.clone(),
        UpgradeStage::UnlinkFile => file.clone(),
        UpgradeStage::GuardFile => owned("<handoff file cloexec>"),
        UpgradeStage::FindExecutable => owned("<current_exe>"),
        UpgradeStage::WriteManifest => owned("<handoff manifest>"),
        UpgradeStage::FinishManifest => owned("<handoff manifest>"),
        UpgradeStage::KeepDescriptors => owned("<handoff fd cloexec>"),
        UpgradeStage::KeepManifest => owned("<handoff-fd cloexec>"),
        _ => owned("<exec-in-place>"),
    }
}

fn next_stage(stage: UpgradeStage) -> (r: UpgradeStage)
    ensures
        r == stage.following(),
{
    match stage {
        UpgradeStage::CreateFile => UpgradeStage::UnlinkFile,
        UpgradeStage::UnlinkFile => UpgradeStage::GuardFile,
        UpgradeStage::GuardFile => UpgradeStage::FindExecutable,
        UpgradeStage::FindExecutable => UpgradeStage::VerifyTarget,
        UpgradeStage::VerifyTarget => UpgradeStage::Drain,
        UpgradeStage::Drain => UpgradeStage::Extract,
        UpgradeStage::Extract => UpgradeStage::CommitDurable,
        UpgradeStage::CommitDurable => UpgradeStage::WriteManifest,
        UpgradeStage::WriteManifest => UpgradeStage::FinishManifest,
        UpgradeStage::FinishManifest => UpgradeStage::KeepDescriptors,
        UpgradeStage::KeepDescriptors => UpgradeStage::KeepManifest,
        UpgradeStage::KeepManifest => UpgradeStage::Exec,
        UpgradeStage::Exec => UpgradeStage::Exec,
    }
}

fn is_irreversible(stage: UpgradeStage) -> (r: bool)
    ensures
        r == stage.is_irreversible(),
{
    match stage {
        UpgradeStage::CommitDurable
        | UpgradeStage::WriteManifest
        | UpgradeStage::FinishManifest
        | UpgradeStage::KeepDescriptors
        | UpgradeStage::KeepManifest
        | UpgradeStage::Exec => true,
        _ => false,
    }
}

/// Carry on with an upgrade after one event.
///
/// Everything up to the extraction can be undone: a failure there leaves the
/// barrier as it was, or opens it where the drain had sealed it. The extraction
/// takes the children from their owners; from then on every failure stops the
/// daemon, and the barrier stays sealed.
pub fn perform_exec_upgrade(
    upgrade: ExecUpgrade,
    gate: &mut UpgradeRequestGate,
    event: UpgradeEvent,
) -> (r: UpgradeStep)
    requires
        upgrade.fits(old(gate)@),
        upgrade_event_possible(upgrade.stage, event),
        event matches UpgradeEvent::Extracted { runs, stop_operations } ==> input_total(runs@)
            <= usize::MAX && stop_total(stop_operations@) <= usize::MAX,
    ensures
        upgrade_next(upgrade, old(gate)@, event, r, final(gate)@),
        final(gate)@.valid(),
        r matches UpgradeStep::Perform(next) ==> next.fits(final(gate)@),
{
    let stage = upgrade.stage;
    match event {
        UpgradeEvent::Done => {
            if let UpgradeStage::VerifyTarget = stage {
                if let Err(failures) = gate.begin_drain() {
                    return UpgradeStep::Aborted(
                        UpgradeAbort::BeforeExtract(ServerError::Shutdown { failures }),
                    );
                }
            }
            UpgradeStep::Perform(
                ExecUpgrade {
                    stage: next_stage(stage),
                    identity: upgrade.identity,
                    manifest: upgrade.manifest,
                },
            )
        },
        UpgradeEvent::Polled { deadline_passed } => match gate.poll_drain(deadline_passed) {
            DrainPoll::Wait => UpgradeStep::Perform(upgrade),
            DrainPoll::Sealed(_) => UpgradeStep::Perform(
                ExecUpgrade {
                    stage: UpgradeStage::Extract,
                    identity: upgrade.identity,
                    manifest: upgrade.manifest,
                },
            ),
            DrainPoll::TimedOut(failures) => UpgradeStep::Aborted(
                UpgradeAbort::BeforeExtract(ServerError::Shutdown { failures }),
            ),
        },
        UpgradeEvent::Extracted { runs, stop_operations } => {
            let mut fence = UpgradeRequestFence { committed: false };
            fence.commit();
            fence.release(gate);
            let identity = upgrade.identity;
            let manifest = HandoffManifest::new_with_stop_operations(
                identity.epoch.to_text(),
                identity.listener_fd,
                identity.state_lock_fd,
                runs,
                stop_operations,
            );
            UpgradeStep::Perform(
                ExecUpgrade {
                    stage: UpgradeStage::CommitDurable,
                    identity,
                    manifest: Some(manifest),
                },
            )
        },
        UpgradeEvent::Failed(message) => {
            let error = match stage {
                UpgradeStage::VerifyTarget | UpgradeStage::Extract => ServerError::Shutdown {
                    failures: message,
                },
                _ => {
                    let place = stage_place(stage, &upgrade.identity.file);
                    ServerError::io(place.as_str(), message)
                },
            };
            if is_irreversible(stage) {
                return UpgradeStep::Aborted(UpgradeAbort::AfterExtract(error));
            }
            if let UpgradeStage::Extract = stage {
                let fence = UpgradeRequestFence { committed: false };
                fence.release(gate);
            }
            UpgradeStep::Aborted(UpgradeAbort::BeforeExtract(error))
        },
        UpgradeEvent::NotDurable(error) => UpgradeStep::Aborted(UpgradeAbort::AfterExtract(error)),
    }
}

/// The descriptors that must survive the exec besides the manifest's own.
pub fn kept_descriptors(upgrade: &ExecUpgrade) -> (r: Vec<i32>)
    ensures
        r@ == (match upgrade.manifest {
            Some(manifest) => manifest_fds(manifest),
            None => seq![],
        }),
{
    match &upgrade.manifest {
        Some(manifest) => manifest.all_fds(),
        None => Vec::new(),
    }
}

/// The arguments of the new image.
pub fn exec_arguments(socket_path: String, state_dir: String, manifest_fd: u32) -> (r: Vec<String>)
    ensures
        r@.len() == 6,
        r@[0]@ == "--socket"@,
        r@[1] == socket_path,
        r@[2]@ == "--state-dir"@,
        r@[3] == state_dir,
        r@[4]@ == "--handoff-fd"@,
        r@[5]@ == decimal(manifest_fd as nat),
{
    let mut arguments: Vec<String> = Vec::new();
    arguments.push(owned("--socket"));
    arguments.push(socket_path);
    arguments.push(owned("--state-dir"));
    arguments.push(state_dir);
    arguments.push(owned("--handoff-fd"));
    arguments.push(decimal_text(manifest_fd as u64));
    arguments
}

/// An upgrade that gives up before the point of no return leaves the daemon
/// serving: where this upgrade had it draining or sealed, the barrier is open
/// again, and otherwise it is as it was. Behind that point the barrier stays
/// sealed.
pub proof fn law_an_aborted_upgrade_serves_on_or_stops(
    upgrade: ExecUpgrade,
    gate: GateView,
    event: UpgradeEvent,
    step: UpgradeStep,
    after: GateView,
)
    requires
        upgrade.fits(gate),
        upgrade_event_possible(upgrade.stage, event),
        upgrade_next(upgrade, gate, event, step, after),
    ensures
        step is Aborted ==> (aborts_before(step) is Some <==> !upgrade.stage.is_irreversible()),
        aborts_before(step) is Some && (upgrade.stage is Drain || upgrade.stage is Extract)
            ==> after == gate.in_phase(UpgradeRequestPhase::Open),
        aborts_before(step) is Some && !(upgrade.stage is Drain || upgrade.stage is Extract)
            ==> after == gate,
        aborts_after(step) is Some ==> after == gate && after.phase is Sealed,
{
}

/// An upgrade never goes back: it performs each stage once and repeats only
/// the look at the drain, and it has no request left when it extracts.
pub proof fn law_an_upgrade_goes_forward(
    upgrade: ExecUpgrade,
    gate: GateView,
    event: UpgradeEvent,
    next: ExecUpgrade,
    after: GateView,
)
    requires
        upgrade.fits(gate),
        upgrade_event_possible(upgrade.stage, event),
        upgrade_next(upgrade, gate, event, UpgradeStep::Perform(next), after),
    ensures
        next.fits(after),
        next.stage.remaining() < upgrade.stage.remaining() || (next == upgrade
            && upgrade.stage is Drain),
        next.stage is Extract ==> after.phase is Sealed && after.active == 0,
        next.identity == upgrade.identity,
{
}

} // verus!
