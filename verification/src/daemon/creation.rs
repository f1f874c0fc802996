//! Creating a Run for a key: resolving the key, deciding what to execute, and
//! publishing the Run together with its durable record.

use vstd::prelude::*;

use crate::daemon::manager::{pin_refusal, ManagerView, RunManager};
use crate::daemon::owners::{Admission, CleanupEntry, CleanupView, FlightsView};
use crate::daemon::pending::{
    cleanup_failed_persistent_creation, cleanup_unknown_persistent_creation, PendingPublication,
};
use crate::daemon::publication::{fresh_entry, key_is_free, published, resolves};
use crate::daemon::registry::{has_run, RegistryEntry, RunFacts};
use crate::daemon::run::{Run, RunControl, RunEffects, RunView};
use crate::daemon::fd_budget::MAX_CREATION_OWNER_SLOTS;
use crate::daemon::ledger::{about_run, run_error};
use crate::identity::RunId;
use crate::protocol::{
    native_capabilities, protocol_error, ErrorCode, ForkFidelity, ForkPlan, OperationKey,
    ProtocolError, RunBackend, RunEvent, RunInfo, RunLineage, RunSpec, RunState,
};
use crate::run_spec::{
    request_created, spec_defect, spec_view, validate_run_spec, CreationRequest, RunSpecView,
};
use crate::text::{joined, joined3, owned};

verus! {

/// A creation with everything that it will execute.
#[derive(Debug, PartialEq, Eq)]
pub struct MaterializedCreation {
    pub request: CreationRequest,
    pub spec: RunSpec,
    pub lineage: Option<RunLineage>,
}

/// Why a fork is refused, or the specification and the fidelity of the child.
pub open spec fn fork_answer(
    id: RunId,
    parent: RunView,
    plan: ForkPlan,
    continues: bool,
) -> Result<(RunSpecView, ForkFidelity), (ErrorCode, Seq<char>)> {
    match plan {
        ForkPlan::LevelA => if !parent.capabilities.fork_level_a {
            Err(
                (
                    ErrorCode::UnsupportedCapability,
                    about_run(id, " backend does not support the requested fork"@),
                ),
            )
        } else {
            match parent.spec {
                Some(spec) => Ok((spec, ForkFidelity::LevelA)),
                None => Err(
                    (
                        ErrorCode::UnsupportedCapability,
                        about_run(id, " has no portable launch specification"@),
                    ),
                ),
            }
        },
        ForkPlan::LevelB { spec } => if !parent.capabilities.fork_level_b {
            Err(
                (
                    ErrorCode::UnsupportedCapability,
                    about_run(id, " backend does not support the requested fork"@),
                ),
            )
        } else if parent.control == Some(RunControl::Native) && continues {
            Ok((spec@, ForkFidelity::LevelB))
        } else {
            Err(
                (
                    ErrorCode::InvalidRunState,
                    "cannot Level B fork Run "@ + id.text()
                        + " without live continuation authority"@,
                ),
            )
        },
    }
}

/// Whether `r` is what a creation executes, or why it is refused.
pub open spec fn materializes(
    request: CreationRequest,
    parent: Option<RunView>,
    continues: bool,
    r: Result<MaterializedCreation, ProtocolError>,
) -> bool {
    match request {
        CreationRequest::Start { spec } => r matches Ok(made) && made.request == request
            && made.spec@ == spec@ && made.lineage is None,
        CreationRequest::Fork { parent: id, plan } => match fork_answer(
            id,
            parent->Some_0,
            plan,
            continues,
        ) {
            Ok(answer) => r matches Ok(made) && made.request == request && made.spec@ == answer.0
                && made.lineage == Some(RunLineage { parent: id, fidelity: answer.1 }),
            Err(refusal) => r matches Err(e) && e.says(refusal.0, refusal.1),
        },
    }
}

/// Decide what a creation executes. A fork takes its specification from its
/// parent, or from the caller where the parent's native control continues.
pub fn materialize_creation(request: CreationRequest, parent: Option<&Run>, continues: bool) -> (r:
    Result<MaterializedCreation, ProtocolError>)
    requires
        request is Fork ==> parent is Some,
    ensures
        materializes(
            request,
            match parent {
                Some(parent) => Some(parent@),
                None => None,
            },
            continues,
            r,
        ),
{
    let (spec, lineage) = match &request {
        CreationRequest::Start { spec } => (spec.copied(), None),
        CreationRequest::Fork { parent: id, plan } => {
            let unsupported = run_error(
                ErrorCode::UnsupportedCapability,
                *id,
                " backend does not support the requested fork",
            );
            let run = match parent {
                Some(run) => run,
                None => {
                    return Err(unsupported);
                },
            };
            match plan {
                ForkPlan::LevelA => {
                    if !run.capabilities().fork_level_a {
                        return Err(unsupported);
                    }
                    match run.spec() {
                        Some(spec) => (
                            spec,
                            Some(RunLineage { parent: *id, fidelity: ForkFidelity::LevelA }),
                        ),
                        None => {
                            return Err(
                                run_error(
                                    ErrorCode::UnsupportedCapability,
                                    *id,
                                    " has no portable launch specification",
                                ),
                            );
                        },
                    }
                },
                ForkPlan::LevelB { spec } => {
                    if !run.capabilities().fork_level_b {
                        return Err(unsupported);
                    }
                    if !run.has_continuation_authority(continues) {
                        let text = id.to_text();
                        return Err(
                            ProtocolError {
                                code: ErrorCode::InvalidRunState,
                                message: joined3(
                                    "cannot Level B fork Run ",
                                    text.as_str(),
                                    " without live continuation authority",
                                ),
                            },
                        );
                    }
                    (
                        spec.copied(),
                        Some(RunLineage { parent: *id, fidelity: ForkFidelity::LevelB }),
                    )
                },
            }
        },
    };
    Ok(MaterializedCreation { request, spec, lineage })
}

impl MaterializedCreation {
    /// Judge the specification that will be executed.
    pub fn checked(self) -> (r: Result<MaterializedCreation, ProtocolError>)
        ensures
            match spec_defect(self.spec@) {
                None => r == Ok::<MaterializedCreation, ProtocolError>(self),
                Some(defect) => r matches Err(e) && e.says(ErrorCode::InvalidRequest, defect),
            },
    {
        match validate_run_spec(&self.spec) {
            Ok(_) => Ok(self),
            Err(defect) => Err(
                ProtocolError { code: ErrorCode::InvalidRequest, message: defect },
            ),
        }
    }

    /// The description with which the durable record of the Run begins.
    pub fn persistence_start_info(&self, id: RunId) -> (r: RunInfo)
        ensures
            r.id == id,
            spec_view(r.spec) == Some(self.spec@),
            r.lineage == self.lineage,
            r.backend is Native,
            r.capabilities.input && r.capabilities.resize && r.capabilities.stop
                && r.capabilities.fork_level_a && r.capabilities.fork_level_b,
            r.pid is None,
            r.state is Running,
            r.latest_output_bytes == 0,
            r.durable_output_bytes == Some(0u64),
            r.first_available_byte == 0,
            r.attachments == 0,
            r.applied_input_bytes == Some(0u64),
    {
        RunInfo {
            id,
            spec: Some(self.spec.copied()),
            lineage: self.lineage,
            backend: RunBackend::Native,
            capabilities: native_capabilities(),
            pid: None,
            state: RunState::Running,
            latest_output_bytes: 0,
            durable_output_bytes: Some(0),
            first_available_byte: 0,
            attachments: 0,
            applied_input_bytes: Some(0),
        }
    }
}

/// What a creation comes to before anything is started.
#[derive(Debug, PartialEq, Eq)]
pub enum CreationStep {
    /// The key already made this Run.
    Existing(RunId),
    /// Start a new Run with this.
    Execute(MaterializedCreation),
    Refused(ProtocolError),
}

/// What becomes of a request for a creation flight.
#[derive(Debug, PartialEq, Eq)]
pub enum FlightStep {
    Begun,
    /// Every slot is taken.
    Wait,
    Refused(ProtocolError),
}

/// Why a durable start failed.
#[derive(Debug, PartialEq, Eq)]
pub struct StartFault {
    /// The record would not fit.
    pub capacity: bool,
    /// The commit may have happened.
    pub commit_unknown: bool,
    pub message: String,
}

/// How far the durable part of a publication is.
#[derive(Debug, Clone, Copy, PartialEq, Eq, Structural)]
pub enum PersistentPublicationPhase {
    Staged,
    Deciding,
    NotCommitted,
    CommittedUnpublished,
    Finished,
}

/// A staged durable start and the place that is reserved for its Run.
#[derive(Debug, PartialEq, Eq)]
pub struct PersistentPublicationOwner {
    pub ticket: u64,
    pub phase: PersistentPublicationPhase,
}

impl PersistentPublicationOwner {
    /// Begin the commit: from now on nothing is proven until its outcome is
    /// known.
    pub fn begin_commit(&mut self)
        requires
            old(self).phase is Staged,
        ensures
            final(self).ticket == old(self).ticket,
            final(self).phase is Deciding,
    {
        self.phase = PersistentPublicationPhase::Deciding;
    }

    /// Note the outcome of the commit.
    pub fn commit(&mut self, outcome: &CommitOutcome)
        requires
            old(self).phase is Deciding,
        ensures
            final(self).ticket == old(self).ticket,
            final(self).phase == (match *outcome {
                CommitOutcome::Committed { .. } => PersistentPublicationPhase::CommittedUnpublished,
                CommitOutcome::NotCommitted(_) => PersistentPublicationPhase::NotCommitted,
                CommitOutcome::Unknown(_) => PersistentPublicationPhase::Deciding,
            }),
    {
        self.phase = match outcome {
            CommitOutcome::Committed { .. } => PersistentPublicationPhase::CommittedUnpublished,
            CommitOutcome::NotCommitted(_) => PersistentPublicationPhase::NotCommitted,
            CommitOutcome::Unknown(_) => PersistentPublicationPhase::Deciding,
        };
    }
}

/// What is reserved for a Run that will be created.
#[derive(Debug, PartialEq, Eq)]
pub enum CreationPublication {
    Memory { ticket: u64 },
    Persistent(PersistentPublicationOwner),
}

/// What came out of a commit.
#[derive(Debug, PartialEq, Eq)]
pub enum CommitOutcome {
    Committed { metadata_bytes: u64, post_commit_error: Option<String> },
    NotCommitted(StartFault),
    Unknown(StartFault),
}

/// What follows from a commit.
pub enum PublishStep {
    /// The Run is public.
    Published { removed: Vec<RegistryEntry>, effects: RunEffects, answer: Result<(), ProtocolError> },
    /// Terminate the Run, which stays private.
    CleanUp { pending: PendingPublication, failure: StartFault },
}

impl ManagerView {
    /// The manager after the durable part of a publication came to nothing:
    /// where that is proven the reservation is given up, and otherwise it is
    /// kept for good.
    pub open spec fn rolled_back(&self, ticket: u64, unknown: Option<Seq<char>>) -> ManagerView {
        match unknown {
            None => ManagerView { registry: self.registry.restored(ticket), ..*self },
            Some(message) => self.fail_stopped(Some(ticket), message),
        }
    }

    /// The manager once a reserved Run is public.
    pub open spec fn with_published(
        &self,
        ticket: u64,
        facts: RunFacts,
        metadata_bytes: Option<u64>,
    ) -> ManagerView {
        ManagerView {
            registry: published(
                self.registry.consumed(ticket),
                fresh_entry(
                    facts,
                    self.registry.reservation(ticket).operation_key,
                    metadata_bytes,
                ),
            ),
            cleanups: CleanupView { owned: self.cleanups.owned - 1, ..self.cleanups },
            ..*self
        }
    }

    /// Whether a creation with a free key comes to `step`: a fork needs its
    /// parent, then the creation is materialized, and its specification must
    /// be one that can be executed.
    pub open spec fn begins_creation(
        &self,
        request: CreationRequest,
        parent: Option<RunView>,
        continues: bool,
        step: CreationStep,
    ) -> bool {
        let refusal = match request {
            CreationRequest::Start { .. } => None,
            CreationRequest::Fork { parent: id, .. } => pin_refusal(*self, id),
        };
        match refusal {
            Some(refusal) => step matches CreationStep::Refused(e) && e.says(refusal.0, refusal.1),
            None => match step {
                CreationStep::Execute(made) => materializes(request, parent, continues, Ok(made))
                    && spec_defect(made.spec@) is None,
                CreationStep::Refused(e) => {
                    ||| materializes(request, parent, continues, Err(e))
                    ||| exists|made: MaterializedCreation| #[trigger]
                        materializes(request, parent, continues, Ok(made)) && (spec_defect(
                            made.spec@,
                        ) matches Some(defect) && e.says(ErrorCode::InvalidRequest, defect))
                },
                CreationStep::Existing(_) => false,
            },
        }
    }

    /// Whether `r` is the resolution of a creation by its key, and `after` the
    /// manager afterwards.
    pub open spec fn resolves_creation(
        &self,
        key: OperationKey,
        request: CreationRequest,
        after: ManagerView,
        r: Result<Option<RunId>, ProtocolError>,
    ) -> bool {
        match key.defect {
            Some(defect) => {
                &&& r matches Err(e) && e.says(ErrorCode::InvalidRequest, defect@)
                &&& after == *self
            },
            None => exists|found: Result<Option<RunId>, ProtocolError>|
                {
                    &&& #[trigger] resolves(self.registry, key@, request, found)
                    &&& if found is Err || found->Ok_0 is Some {
                        r == found && after == *self
                    } else {
                        &&& after == (ManagerView { cleanups: self.cleanups.pruned(), ..*self })
                        &&& match self.cleanups.pruned().fence_of(key@) {
                            None => r == Ok::<Option<RunId>, ProtocolError>(None),
                            Some(fence) => if fence.request == request@ {
                                r matches Err(e) && e.says(
                                    ErrorCode::BackendUnavailable,
                                    "Run creation is fenced while unpublished native owners remain active"@,
                                )
                            } else {
                                r matches Err(e) && e.says(
                                    ErrorCode::CreationConflict,
                                    "Run creation operation key is fenced for a different request"@,
                                )
                            },
                        }
                    }
                },
        }
    }

    /// Whether a Run can become public with a ticket.
    pub open spec fn can_publish(&self, ticket: u64, id: RunId) -> bool {
        &&& self.cleanups.reserved() > 0
        &&& self.registry.has_ticket(ticket)
        &&& self.registry.reservation(ticket).new_run_id == id
        &&& !has_run(self.registry.runs, id)
        &&& self.registry.reservation(ticket).operation_key matches Some(key) ==> key_is_free(
            self.registry.runs,
            key@,
        )
    }
}

/// The reason of an unknown rollback, if it is one.
pub open spec fn unknown_rollback(rollback: Result<(), StartFault>) -> Option<Seq<char>> {
    match rollback {
        Err(fault) => if fault.commit_unknown {
            Some(fault.message@)
        } else {
            None
        },
        Ok(_) => None,
    }
}

impl RunManager {
    /// Resolve a creation by its key: a Run that it already made, a reason to
    /// refuse it, or `None` where a new Run has to be made.
    pub fn resolve_creation(&mut self, key: &OperationKey, request: &CreationRequest) -> (r: Result<
        Option<RunId>,
        ProtocolError,
    >)
        requires
            old(self)@.valid(),
        ensures
            final(self)@.valid(),
            old(self)@.resolves_creation(*key, *request, final(self)@, r),
    {
        if let Some(defect) = &key.defect {
            return Err(
                ProtocolError { code: ErrorCode::InvalidRequest, message: defect.clone() },
            );
        }
        let found = self.registry.resolve_creation_info(key, request);
        match found {
            Err(error) => Err(error),
            Ok(Some(id)) => Ok(Some(id)),
            Ok(None) => {
                assert(resolves(old(self)@.registry, key@, *request, found));
                match self.unpublished_cleanups.resolve_fence(key, request) {
                    Ok(_) => Ok(None),
                    Err(error) => Err(error),
                }
            },
        }
    }

    /// Begin a creation: return the Run that its key already made, or decide
    /// what a new Run executes. `parent` is the Run that a fork names, as far
    /// as the manager retains it, and `continues` what its native control says
    /// of its continuation.
    pub fn create(
        &mut self,
        key: &OperationKey,
        request: CreationRequest,
        parent: Option<&Run>,
        continues: bool,
    ) -> (r: CreationStep)
        requires
            old(self)@.valid(),
            request matches CreationRequest::Fork { parent: id, .. } ==> (has_run(
                old(self)@.registry.runs,
                id,
            ) ==> parent is Some),
        ensures
            final(self)@.valid(),
            exists|resolved: Result<Option<RunId>, ProtocolError>|
                {
                    &&& #[trigger] old(self)@.resolves_creation(
                        *key,
                        request,
                        final(self)@,
                        resolved,
                    )
                    &&& match resolved {
                        Err(error) => r == CreationStep::Refused(error),
                        Ok(Some(id)) => r == CreationStep::Existing(id),
                        Ok(None) => old(self)@.begins_creation(
                            request,
                            match parent {
                                Some(parent) => Some(parent@),
                                None => None,
                            },
                            continues,
                            r,
                        ),
                    }
                },
    {
        match self.resolve_creation(key, &request) {
            Err(error) => CreationStep::Refused(error),
            Ok(Some(id)) => CreationStep::Existing(id),
            Ok(None) => {
                assert(old(self)@.resolves_creation(
                    *key,
                    request,
                    self@,
                    Ok::<Option<RunId>, ProtocolError>(None),
                ));
                if let CreationRequest::Fork { parent: id, .. } = &request {
                    if let Err(error) = self.pin(*id) {
                        return CreationStep::Refused(error);
                    }
                }
                match materialize_creation(request, parent, continues) {
                    Ok(made) => {
                        let ghost candidate = made;
                        match made.checked() {
                            Ok(made) => CreationStep::Execute(made),
                            Err(error) => {
                                assert(materializes(
                                    request,
                                    match parent {
                                        Some(parent) => Some(parent@),
                                        None => None,
                                    },
                                    continues,
                                    Ok(candidate),
                                ));
                                CreationStep::Refused(error)
                            },
                        }
                    },
                    Err(error) => CreationStep::Refused(error),
                }
            },
        }
    }

    /// Begin a creation flight, where a slot is free.
    pub fn begin_creation_flight(&mut self) -> (r: FlightStep)
        requires
            old(self)@.valid(),
        ensures
            final(self)@.valid(),
            if !old(self)@.flights.accepting {
                &&& r matches FlightStep::Refused(e) && e.says(
                    ErrorCode::BackendUnavailable,
                    "ctxmux daemon is shutting down"@,
                )
                &&& final(self)@ == old(self)@
            } else if old(self)@.flights.available() == 0 {
                r is Wait && final(self)@ == old(self)@
            } else {
                &&& r is Begun
                &&& final(self)@ == (ManagerView {
                    flights: FlightsView {
                        active: old(self)@.flights.active + 1,
                        ..old(self)@.flights
                    },
                    ..old(self)@
                })
            },
    {
        let refused = protocol_error(
            ErrorCode::BackendUnavailable,
            "ctxmux daemon is shutting down",
        );
        match self.creation_flights.acquire_admission() {
            Admission::Refused => FlightStep::Refused(refused),
            Admission::Wait => FlightStep::Wait,
            Admission::Granted => {
                if self.creation_flights.try_begin() {
                    FlightStep::Begun
                } else {
                    FlightStep::Refused(refused)
                }
            },
        }
    }

    /// Take the slot that a creation holds until its Run is public or gone. A
    /// refused creation ends its flight.
    pub fn reserve_creation(&mut self) -> (r: Result<(), ProtocolError>)
        requires
            old(self)@.valid(),
            old(self)@.flights.active > 0,
        ensures
            final(self)@.valid(),
            ({
                let pruned = old(self)@.cleanups.pruned();
                if pruned.owned >= MAX_CREATION_OWNER_SLOTS {
                    &&& r matches Err(e) && e.says(
                        ErrorCode::BackendUnavailable,
                        "Run publication cleanup capacity is exhausted"@,
                    )
                    &&& final(self)@ == (ManagerView {
                        cleanups: pruned,
                        flights: FlightsView {
                            active: old(self)@.flights.active - 1,
                            ..old(self)@.flights
                        },
                        ..old(self)@
                    })
                } else {
                    &&& r == Ok::<(), ProtocolError>(())
                    &&& final(self)@ == (ManagerView {
                        cleanups: CleanupView { owned: pruned.owned + 1, ..pruned },
                        ..old(self)@
                    })
                }
            }),
    {
        match self.unpublished_cleanups.reserve() {
            Ok(done) => Ok(done),
            Err(error) => {
                self.creation_flights.finish();
                Err(error)
            },
        }
    }

    /// End a creation whose owner never started: its flight and its slot are
    /// given back.
    pub fn creation_owner_not_started(&mut self, error: &str) -> (r: ProtocolError)
        requires
            old(self)@.valid(),
            old(self)@.flights.active > 0,
            old(self)@.cleanups.reserved() > 0,
        ensures
            final(self)@.valid(),
            r.says(ErrorCode::Internal, "failed to start Run creation owner: "@ + error@),
            final(self)@ == (ManagerView {
                flights: FlightsView {
                    active: old(self)@.flights.active - 1,
                    ..old(self)@.flights
                },
                cleanups: CleanupView {
                    owned: old(self)@.cleanups.owned - 1,
                    ..old(self)@.cleanups
                },
                ..old(self)@
            }),
    {
        self.creation_flights.finish();
        self.unpublished_cleanups.release();
        ProtocolError {
            code: ErrorCode::Internal,
            message: joined("failed to start Run creation owner: ", error),
        }
    }

    /// Reserve the place of a new Run. A durable Run needs the size of its
    /// record, which `prepared` brings.
    pub fn prepare_creation_publication(
        &mut self,
        operation_key: OperationKey,
        request: CreationRequest,
        new_run_id: RunId,
        prepared: Result<u64, String>,
    ) -> (r: Result<u64, ProtocolError>)
        requires
            old(self)@.valid(),
            old(self)@.registry.runs.len() + old(self)@.registry.reservations.len() <= usize::MAX,
            old(self)@.registry.next_ticket < u64::MAX,
            old(self)@.persistent ==> old(self)@.registry.metadata_is_summable(),
        ensures
            final(self)@.valid(),
            final(self)@ == (ManagerView { registry: final(self)@.registry, ..old(self)@ }),
            if old(self)@.persistent && prepared is Err {
                &&& r matches Err(e) && e.says(ErrorCode::Persistence, prepared->Err_0@)
                &&& final(self)@ == old(self)@
            } else {
                let metadata = if old(self)@.persistent {
                    Some(prepared->Ok_0)
                } else {
                    None
                };
                let bound = if old(self)@.persistent {
                    Some(request)
                } else {
                    None
                };
                match r {
                    Ok(ticket) => old(self)@.registry.reserves(
                        new_run_id,
                        Some(operation_key),
                        bound,
                        metadata,
                        ticket,
                        final(self)@.registry,
                    ),
                    Err(e) => old(self)@.registry.selection(metadata, Err(e)) && final(self)@
                        == old(self)@,
                }
            },
    {
        if !self.persistent {
            return self.registry.reserve_publication(new_run_id, Some(operation_key), None, None);
        }
        match prepared {
            Err(message) => Err(ProtocolError { code: ErrorCode::Persistence, message }),
            Ok(metadata_bytes) => self.registry.reserve_publication(
                new_run_id,
                Some(operation_key),
                Some(request),
                Some(metadata_bytes),
            ),
        }
    }

    /// Judge the staging of the durable start for a reservation.
    pub fn stage_publication(&mut self, ticket: u64, staged: Result<(), StartFault>) -> (r: Result<
        PersistentPublicationOwner,
        ProtocolError,
    >)
        requires
            old(self)@.valid(),
            old(self)@.registry.has_ticket(ticket),
        ensures
            final(self)@.valid(),
            match staged {
                Ok(_) => {
                    &&& r == Ok::<PersistentPublicationOwner, ProtocolError>(
                        PersistentPublicationOwner {
                            ticket,
                            phase: PersistentPublicationPhase::Staged,
                        },
                    )
                    &&& final(self)@ == old(self)@
                },
                Err(fault) => {
                    &&& r matches Err(e) && e.says(
                        if fault.capacity {
                            ErrorCode::RunCapacity
                        } else {
                            ErrorCode::Persistence
                        },
                        fault.message@,
                    )
                    &&& final(self)@ == old(self)@.rolled_back(ticket, unknown_rollback(staged))
                },
            },
    {
        match staged {
            Ok(_) => Ok(
                PersistentPublicationOwner { ticket, phase: PersistentPublicationPhase::Staged },
            ),
            Err(fault) => {
                let code = if fault.capacity {
                    ErrorCode::RunCapacity
                } else {
                    ErrorCode::Persistence
                };
                if fault.commit_unknown {
                    self.fail_stop_persistence(Some(ticket), fault.message.as_str());
                } else {
                    self.registry.restore_reservation(ticket);
                }
                Err(ProtocolError { code, message: fault.message })
            },
        }
    }

    /// Give up a publication whose Run could not be launched, with the outcome
    /// of the durable rollback.
    pub fn abort_publication(
        &mut self,
        publication: CreationPublication,
        spawn_error: ProtocolError,
        rollback: Result<(), StartFault>,
    ) -> (r: ProtocolError)
        requires
            old(self)@.valid(),
            publication matches CreationPublication::Memory { ticket }
                ==> old(self)@.registry.has_ticket(ticket),
            publication matches CreationPublication::Persistent(owner)
                ==> old(self)@.registry.has_ticket(owner.ticket),
        ensures
            final(self)@.valid(),
            match publication {
                CreationPublication::Memory { ticket } => {
                    &&& r == spawn_error
                    &&& final(self)@ == old(self)@.rolled_back(ticket, None)
                },
                CreationPublication::Persistent(owner) => {
                    &&& final(self)@ == old(self)@.rolled_back(
                        owner.ticket,
                        unknown_rollback(rollback),
                    )
                    &&& match rollback {
                        Ok(_) => r == spawn_error,
                        Err(fault) => r.says(
                            ErrorCode::Persistence,
                            spawn_error.message@ + "; persistent rollback: "@ + fault.message@,
                        ),
                    }
                },
            },
    {
        match publication {
            CreationPublication::Memory { ticket } => {
                self.registry.restore_reservation(ticket);
                spawn_error
            },
            CreationPublication::Persistent(owner) => match rollback {
                Ok(_) => {
                    self.registry.restore_reservation(owner.ticket);
                    spawn_error
                },
                Err(fault) => {
                    if fault.commit_unknown {
                        self.fail_stop_persistence(Some(owner.ticket), fault.message.as_str());
                    } else {
                        self.registry.restore_reservation(owner.ticket);
                    }
                    ProtocolError {
                        code: ErrorCode::Persistence,
                        message: joined3(
                            spawn_error.message.as_str(),
                            "; persistent rollback: ",
                            fault.message.as_str(),
                        ),
                    }
                },
            },
        }
    }

    /// Make a Run without a durable record public.
    pub fn publish_memory_creation(
        &mut self,
        ticket: u64,
        pending: PendingPublication,
        facts: RunFacts,
    ) -> (r: Vec<RegistryEntry>)
        requires
            old(self)@.valid(),
            old(self)@.can_publish(ticket, facts.id),
            pending.run == facts.id,
        ensures
            final(self)@.valid(),
            final(self)@ == old(self)@.with_published(ticket, facts, None),
            r@ == old(self)@.registry.leaving(ticket),
    {
        let removed = self.registry.publish_creation(ticket, facts, None);
        pending.into_published(&mut self.unpublished_cleanups);
        removed
    }

    /// Publish a Run with a durable record after its commit. The record is
    /// bound first, then the Run becomes public, and only then the record is
    /// active; a Run whose commit failed stays private.
    pub fn publish_persistent_creation(
        &mut self,
        publication: PersistentPublicationOwner,
        pending: PendingPublication,
        facts: RunFacts,
        run: &mut Run,
        outcome: CommitOutcome,
    ) -> (r: PublishStep)
        requires
            old(self)@.valid(),
            old(self)@.can_publish(publication.ticket, facts.id),
            pending.run == facts.id,
            old(run).wf(),
            old(run)@.id == facts.id,
            old(run)@.binding is Pending,
            old(run)@.control is Some,
            old(self)@.terminals < u64::MAX,
        ensures
            final(self)@.valid(),
            final(run).wf(),
            match outcome {
                CommitOutcome::Committed { metadata_bytes, post_commit_error } => {
                    let number = (old(self)@.terminals + 1) as u64;
                    let held = old(run)@.binding.held();
                    &&& final(run)@ == old(run)@.committed().activated(number)
                    &&& final(self)@ == (ManagerView {
                        terminals: if held is Some {
                            number
                        } else {
                            old(self)@.terminals
                        },
                        ..old(self)@.with_published(
                            publication.ticket,
                            facts,
                            Some(metadata_bytes),
                        )
                    })
                    &&& r matches PublishStep::Published { removed, effects, answer }
                        && removed@ == old(self)@.registry.leaving(publication.ticket) && (
                    match post_commit_error {
                        Some(message) => answer matches Err(e) && e.says(
                            ErrorCode::Persistence,
                            message@,
                        ),
                        None => answer == Ok::<(), ProtocolError>(()),
                    }) && (effects.durable matches Some(work) && match held {
                        Some(terminal) => work.finalizes(
                            old(run)@.output,
                            old(run)@.pid,
                            terminal,
                        ) && old(run)@.tells(effects.event, RunEvent::Exited { state: terminal }),
                        None => work.appends(old(run)@.output, 0) && effects.event is None,
                    })
                },
                CommitOutcome::NotCommitted(fault) => {
                    &&& r == (PublishStep::CleanUp {
                        pending,
                        failure: StartFault { commit_unknown: false, ..fault },
                    })
                    &&& final(run)@ == old(run)@
                    &&& final(self)@ == old(self)@.rolled_back(publication.ticket, None)
                },
                CommitOutcome::Unknown(fault) => {
                    &&& r == (PublishStep::CleanUp {
                        pending,
                        failure: StartFault { commit_unknown: true, ..fault },
                    })
                    &&& final(run)@ == old(run)@
                    &&& final(self)@ == old(self)@.rolled_back(
                        publication.ticket,
                        Some(fault.message@),
                    )
                },
            },
    {
        match outcome {
            CommitOutcome::Committed { metadata_bytes, post_commit_error } => {
                run.install_committed_persistence();
                let removed = self.registry.publish_creation(
                    publication.ticket,
                    facts,
                    Some(metadata_bytes),
                );
                pending.into_published(&mut self.unpublished_cleanups);
                let effects = run.activate_persistence_after_publication(
                    &mut self.terminal_publications,
                );
                let answer = match post_commit_error {
                    Some(message) => Err(ProtocolError { code: ErrorCode::Persistence, message }),
                    None => Ok(()),
                };
                PublishStep::Published { removed, effects, answer }
            },
            CommitOutcome::NotCommitted(fault) => {
                self.registry.restore_reservation(publication.ticket);
                PublishStep::CleanUp {
                    pending,
                    failure: StartFault {
                        capacity: fault.capacity,
                        commit_unknown: false,
                        message: fault.message,
                    },
                }
            },
            CommitOutcome::Unknown(fault) => {
                self.fail_stop_persistence(Some(publication.ticket), fault.message.as_str());
                PublishStep::CleanUp {
                    pending,
                    failure: StartFault {
                        capacity: fault.capacity,
                        commit_unknown: true,
                        message: fault.message,
                    },
                }
            },
        }
    }

    /// Answer a creation whose commit failed, with the outcome of the Run's
    /// termination.
    pub fn finish_failed_publication(
        &mut self,
        pending: PendingPublication,
        failure: StartFault,
        terminated: Result<(), String>,
    ) -> (r: ProtocolError)
        requires
            old(self)@.valid(),
            old(self)@.cleanups.reserved() > 0,
        ensures
            final(self)@.valid(),
            final(self)@ == (ManagerView { cleanups: final(self)@.cleanups, ..old(self)@ }),
            match terminated {
                Ok(_) => final(self)@.cleanups == (CleanupView {
                    owned: old(self)@.cleanups.owned - 1,
                    ..old(self)@.cleanups
                }),
                Err(error) => old(self)@.cleanups.transfers(
                    pending.key@,
                    pending.request@,
                    CleanupEntry { run: pending.run, transfer_reason: error, current: Err(error) },
                    final(self)@.cleanups,
                ),
            },
            r.says(
                if failure.capacity && !failure.commit_unknown {
                    ErrorCode::RunCapacity
                } else {
                    ErrorCode::Persistence
                },
                match terminated {
                    Ok(_) => failure.message@,
                    Err(error) => failure.message@ + (if failure.commit_unknown {
                        "; cleanup pending after unknown COMMIT: "@
                    } else {
                        "; rollback pending: exact creation key remains fenced until all unpublished native owners are quiescent: "@
                    }) + error@,
                },
            ),
    {
        let cleanup = pending.cleanup_unpublished(&mut self.unpublished_cleanups, terminated);
        if failure.commit_unknown {
            cleanup_unknown_persistent_creation(failure.message, cleanup)
        } else {
            cleanup_failed_persistent_creation(failure.capacity, failure.message, cleanup)
        }
    }

    /// Give up a publication that was left in the middle. A staged start is
    /// rolled back; behind the start of the commit nothing is proven any more.
    pub fn unwind_publication(
        &mut self,
        publication: PersistentPublicationOwner,
        rollback: Result<(), StartFault>,
    )
        requires
            old(self)@.valid(),
            !(publication.phase is Finished) ==> old(self)@.registry.has_ticket(
                publication.ticket,
            ),
        ensures
            final(self)@.valid(),
            final(self)@ == (match publication.phase {
                PersistentPublicationPhase::Staged => old(self)@.rolled_back(
                    publication.ticket,
                    unknown_rollback(rollback),
                ),
                PersistentPublicationPhase::NotCommitted => old(self)@.rolled_back(
                    publication.ticket,
                    None,
                ),
                PersistentPublicationPhase::Finished => old(self)@,
                _ => old(self)@.rolled_back(
                    publication.ticket,
                    Some("persistent publication unwound after durable disposition began"@),
                ),
            }),
    {
        match publication.phase {
            PersistentPublicationPhase::Staged => match rollback {
                Ok(_) => self.registry.restore_reservation(publication.ticket),
                Err(fault) => {
                    if fault.commit_unknown {
                        self.fail_stop_persistence(
                            Some(publication.ticket),
                            fault.message.as_str(),
                        );
                    } else {
                        self.registry.restore_reservation(publication.ticket);
                    }
                },
            },
            PersistentPublicationPhase::NotCommitted => {
                self.registry.restore_reservation(publication.ticket);
            },
            PersistentPublicationPhase::Finished => {},
            _ => {
                self.fail_stop_persistence(
                    Some(publication.ticket),
                    "persistent publication unwound after durable disposition began",
                );
            },
        }
    }
}

/// The answer to a creation whose owner ended without a word.
pub fn creation_owner_lost(error: &str) -> (r: ProtocolError)
    ensures
        r.says(ErrorCode::Internal, "Run creation owner ended without a result: "@ + error@),
{
    ProtocolError {
        code: ErrorCode::Internal,
        message: joined("Run creation owner ended without a result: ", error),
    }
}

/// What was materialized for a request is recognised as that request's Run, so
/// a retry of the request matches it.
pub proof fn law_a_materialized_creation_matches_its_request(
    request: CreationRequest,
    parent: Option<RunView>,
    continues: bool,
    made: MaterializedCreation,
)
    requires
        materializes(request, parent, continues, Ok(made)),
    ensures
        request_created(request@, Some(made.spec@), made.lineage),
        made.request == request,
{
}

/// Only a proven rollback makes the Runs available again that a publication
/// was to replace. Where the commit may have happened, their fence and the
/// reservation stay, nothing more is created, and the incarnation has failed.
pub proof fn law_only_a_proven_rollback_frees_what_was_fenced(
    manager: ManagerView,
    ticket: u64,
    unknown: Option<Seq<char>>,
)
    requires
        manager.valid(),
        manager.registry.has_ticket(ticket),
    ensures
        ({
            let after = manager.rolled_back(ticket, unknown);
            match unknown {
                Some(_) => {
                    &&& after.registry == manager.registry
                    &&& after.unknown_commits.contains(ticket)
                    &&& !after.flights.accepting
                    &&& after.incarnation is Some
                },
                None => {
                    &&& after.registry == manager.registry.restored(ticket)
                    &&& after.flights == manager.flights
                    &&& after.incarnation == manager.incarnation
                    &&& after.unknown_commits == manager.unknown_commits
                },
            }
        }),
{
    if let Some(message) = unknown {
        let after = manager.rolled_back(ticket, unknown);
        assert(after.unknown_commits[manager.unknown_commits.len() as int] == ticket);
    }
}

} // verus!
