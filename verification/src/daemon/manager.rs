//! The manager of all Runs: what it owns, how Runs are found and listed, tmux
//! operations, recovery at the start and cleanup at the end.

use vstd::prelude::*;

use crate::daemon::fd_budget::{FD_BUDGET_LIVE_RUNS, MAX_CREATION_OWNER_SLOTS};
use crate::daemon::ledger::{about_run, run_error};
use crate::daemon::owners::{
    law_pruning_frees_only_proven_slots,
    CleanupView, CreationFlightOwner, FlightsView, TerminalPublicationOwner,
    UnpublishedCleanupOwner,
};
use crate::daemon::publication::{fresh_entry, published};
use crate::daemon::registry::{
    has_run, place_of, RegistryEntry, RegistryView, Residency, RunFacts, RunRegistry,
};
use crate::daemon::run::{OwnerCursors, PersistenceMode, Run};
use crate::daemon::server::IncarnationFailure;
use crate::daemon::upgrade::{GateView, UpgradeRequestGate};
use crate::identity::{law_identities_are_ordered_as_their_texts, DaemonInstanceId, RunId};
use crate::order::{lemma_move_keeps_multiset, text_not_after};
use crate::protocol::{protocol_error, ErrorCode, ProtocolError, RunInfo};
use crate::text::{joined, owned};

verus! {

/// What the manager owns.
pub struct ManagerView {
    pub daemon_instance: DaemonInstanceId,
    pub registry: RegistryView,
    pub flights: FlightsView,
    pub cleanups: CleanupView,
    pub terminals: u64,
    pub gate: GateView,
    pub incarnation: Option<Seq<char>>,
    /// Tickets whose commit may or may not have happened.
    pub unknown_commits: Seq<u64>,
    pub persistent: bool,
    pub tmux_shutting_down: bool,
}

impl ManagerView {
    /// Every part keeps its own invariant.
    pub open spec fn valid(&self) -> bool {
        &&& self.registry.valid()
        &&& self.flights.valid()
        &&& self.cleanups.valid()
        &&& self.gate.valid()
    }

    /// The manager after a commit whose outcome nobody knows: its ticket is
    /// kept for good, no further Run is created, and the incarnation ends.
    pub open spec fn fail_stopped(&self, ticket: Option<u64>, message: Seq<char>) -> ManagerView {
        ManagerView {
            unknown_commits: match ticket {
                Some(ticket) => self.unknown_commits.push(ticket),
                None => self.unknown_commits,
            },
            flights: FlightsView { accepting: false, ..self.flights },
            incarnation: Some(
                match self.incarnation {
                    Some(first) => first,
                    None =>
                        "persistent start COMMIT outcome is unknown; restart is required: "@
                            + message,
                },
            ),
            ..*self
        }
    }
}

/// Why a Run cannot be held now.
pub open spec fn pin_refusal(manager: ManagerView, id: RunId) -> Option<(ErrorCode, Seq<char>)> {
    if !has_run(manager.registry.runs, id) {
        Some((ErrorCode::RunNotFound, about_run(id, " does not exist"@)))
    } else if manager.registry.runs[place_of(manager.registry.runs, id)].residency
        == Residency::Retained {
        None
    } else {
        Some(
            (
                ErrorCode::BackendUnavailable,
                about_run(
                    id,
                    " is temporarily unavailable while its retained owner is being replaced or removed"@,
                ),
            ),
        )
    }
}

/// The manager of all Runs.
pub struct RunManager {
    pub daemon_instance: DaemonInstanceId,
    pub registry: RunRegistry,
    pub creation_flights: CreationFlightOwner,
    pub unpublished_cleanups: UnpublishedCleanupOwner,
    pub terminal_publications: TerminalPublicationOwner,
    pub upgrade_requests: UpgradeRequestGate,
    pub incarnation_failure: IncarnationFailure,
    pub commit_unknown_reservations: Vec<u64>,
    pub persistent: bool,
    pub tmux_shutting_down: bool,
}

impl RunManager {
    /// What this manager owns.
    pub open spec fn view(&self) -> ManagerView {
        ManagerView {
            daemon_instance: self.daemon_instance,
            registry: self.registry@,
            flights: self.creation_flights@,
            cleanups: self.unpublished_cleanups@,
            terminals: self.terminal_publications@,
            gate: self.upgrade_requests@,
            incarnation: self.incarnation_failure@,
            unknown_commits: self.commit_unknown_reservations@,
            persistent: self.persistent,
            tmux_shutting_down: self.tmux_shutting_down,
        }
    }

    /// A manager without Runs.
    pub fn new(daemon_instance: DaemonInstanceId, metadata_budget: u64, persistent: bool) -> (r:
        RunManager)
        ensures
            r@.valid(),
            r@.daemon_instance == daemon_instance,
            r@.persistent == persistent,
            r@.registry.runs.len() == 0,
            r@.registry.reservations.len() == 0,
            r@.registry.next_ticket == 0,
            r@.registry.metadata_budget == metadata_budget,
            r@.registry.record_capacity == FD_BUDGET_LIVE_RUNS,
            r@.flights == (FlightsView { accepting: true, active: 0, granted: 0 }),
            r@.cleanups.owned == 0,
            r@.cleanups.fences.len() == 0,
            r@.cleanups.tmux.len() == 0,
            r@.terminals == 0,
            r@.gate.phase is Open,
            r@.gate.active == 0,
            r@.incarnation is None,
            r@.unknown_commits.len() == 0,
            !r@.tmux_shutting_down,
    {
        RunManager {
            daemon_instance,
            registry: RunRegistry::new(metadata_budget),
            creation_flights: CreationFlightOwner::new(),
            unpublished_cleanups: UnpublishedCleanupOwner::new(),
            terminal_publications: TerminalPublicationOwner::new(),
            upgrade_requests: UpgradeRequestGate::new(),
            incarnation_failure: IncarnationFailure::new(),
            commit_unknown_reservations: Vec::new(),
            persistent,
            tmux_shutting_down: false,
        }
    }

    /// Whether new Runs get durable records.
    pub fn persistence_mode(&self) -> (r: PersistenceMode)
        ensures
            r == (if self@.persistent {
                PersistenceMode::PersistentCapable
            } else {
                PersistenceMode::MemoryOnly
            }),
    {
        if self.persistent {
            PersistenceMode::PersistentCapable
        } else {
            PersistenceMode::MemoryOnly
        }
    }

    /// Hold a Run: it must exist and not be fenced.
    pub fn pin(&self, id: RunId) -> (r: Result<(), ProtocolError>)
        requires
            self@.valid(),
        ensures
            match pin_refusal(self@, id) {
                None => r == Ok::<(), ProtocolError>(()),
                Some(refusal) => r matches Err(e) && e.says(refusal.0, refusal.1),
            },
    {
        match self.registry.pin(id) {
            Err(error) => Err(error),
            Ok(true) => Ok(()),
            Ok(false) => Err(run_error(ErrorCode::RunNotFound, id, " does not exist")),
        }
    }

    /// Record a commit whose outcome nobody knows.
    pub fn fail_stop_persistence(&mut self, ticket: Option<u64>, message: &str)
        requires
            old(self)@.valid(),
        ensures
            final(self)@.valid(),
            final(self)@ == old(self)@.fail_stopped(ticket, message@),
    {
        if let Some(ticket) = ticket {
            self.commit_unknown_reservations.push(ticket);
        }
        self.creation_flights.fence();
        let _ = self.incarnation_failure.record(
            joined(
                "persistent start COMMIT outcome is unknown; restart is required: ",
                message,
            ),
        );
    }

    /// Begin a tmux operation: refused once shutdown began. It is asked before
    /// and after the wait for the operation's turn.
    pub fn with_tmux_operation(&self) -> (r: Result<(), ProtocolError>)
        ensures
            if self@.tmux_shutting_down {
                r matches Err(e) && e.says(
                    ErrorCode::BackendUnavailable,
                    "ctxmux daemon is shutting down"@,
                )
            } else {
                r == Ok::<(), ProtocolError>(())
            },
    {
        if self.tmux_shutting_down {
            return Err(
                protocol_error(ErrorCode::BackendUnavailable, "ctxmux daemon is shutting down"),
            );
        }
        Ok(())
    }

    /// An imported pane has no durable record, so only a memory-only daemon
    /// imports.
    pub fn ensure_tmux_import_supported(&self) -> (r: Result<(), ProtocolError>)
        ensures
            if self@.persistent {
                r matches Err(e) && e.says(
                    ErrorCode::UnsupportedCapability,
                    "tmux pane import is not persisted; use a memory-only ctxmux daemon"@,
                )
            } else {
                r == Ok::<(), ProtocolError>(())
            },
    {
        if self.persistent {
            return Err(
                protocol_error(
                    ErrorCode::UnsupportedCapability,
                    "tmux pane import is not persisted; use a memory-only ctxmux daemon",
                ),
            );
        }
        Ok(())
    }

    /// Begin an import: take a slot for its overlap and the place of its Run.
    /// A refused import leaves nothing behind.
    pub fn import_tmux(&mut self, new_run_id: RunId) -> (r: Result<u64, ProtocolError>)
        requires
            old(self)@.valid(),
            old(self)@.registry.runs.len() + old(self)@.registry.reservations.len() <= usize::MAX,
            old(self)@.registry.next_ticket < u64::MAX,
        ensures
            final(self)@.valid(),
            final(self)@ == (ManagerView {
                registry: final(self)@.registry,
                cleanups: final(self)@.cleanups,
                ..old(self)@
            }),
            if old(self)@.persistent {
                &&& r matches Err(e) && e.says(
                    ErrorCode::UnsupportedCapability,
                    "tmux pane import is not persisted; use a memory-only ctxmux daemon"@,
                )
                &&& final(self)@ == old(self)@
            } else if old(self)@.tmux_shutting_down {
                &&& r matches Err(e) && e.says(
                    ErrorCode::BackendUnavailable,
                    "ctxmux daemon is shutting down"@,
                )
                &&& final(self)@ == old(self)@
            } else if old(self)@.cleanups.pruned().owned
                >= MAX_CREATION_OWNER_SLOTS {
                &&& r matches Err(e) && e.says(
                    ErrorCode::BackendUnavailable,
                    "Run publication cleanup capacity is exhausted"@,
                )
                &&& final(self)@.cleanups == old(self)@.cleanups.pruned()
                &&& final(self)@.registry == old(self)@.registry
            } else {
                match r {
                    Err(e) => {
                        &&& old(self)@.registry.selection(None, Err(e))
                        &&& final(self)@.registry == old(self)@.registry
                        &&& final(self)@.cleanups == old(self)@.cleanups.pruned()
                    },
                    Ok(ticket) => {
                        &&& final(self)@.cleanups == (CleanupView {
                            owned: old(self)@.cleanups.pruned().owned + 1,
                            ..old(self)@.cleanups.pruned()
                        })
                        &&& old(self)@.registry.reserves(
                            new_run_id,
                            None,
                            None,
                            None,
                            ticket,
                            final(self)@.registry,
                        )
                    },
                }
            },
    {
        if let Err(error) = self.ensure_tmux_import_supported() {
            return Err(error);
        }
        if let Err(error) = self.with_tmux_operation() {
            return Err(error);
        }
        if let Err(error) = self.unpublished_cleanups.reserve() {
            return Err(error);
        }
        let ghost reserved = self.unpublished_cleanups@;
        match self.registry.reserve_publication(new_run_id, None, None, None) {
            Ok(ticket) => Ok(ticket),
            Err(error) => {
                proof {
                    law_pruning_frees_only_proven_slots(old(self)@.cleanups);
                }
                self.unpublished_cleanups.release();
                Err(error)
            },
        }
    }

    /// Make an imported Run public and give its slot back. The Runs that left
    /// for it are handed out.
    pub fn publish_tmux_import(&mut self, ticket: u64, facts: RunFacts) -> (r: Vec<
        RegistryEntry,
    >)
        requires
            old(self)@.valid(),
            old(self)@.cleanups.reserved() > 0,
            old(self)@.registry.has_ticket(ticket),
            old(self)@.registry.reservation(ticket).new_run_id == facts.id,
            old(self)@.registry.reservation(ticket).operation_key is None,
            !has_run(old(self)@.registry.runs, facts.id),
        ensures
            final(self)@.valid(),
            final(self)@ == (ManagerView {
                registry: published(
                    old(self)@.registry.consumed(ticket),
                    fresh_entry(facts, None, None),
                ),
                cleanups: CleanupView {
                    owned: old(self)@.cleanups.owned - 1,
                    ..old(self)@.cleanups
                },
                ..old(self)@
            }),
            r@ == old(self)@.registry.leaving(ticket),
    {
        let removed = self.registry.publish_creation(ticket, facts, None);
        self.unpublished_cleanups.release();
        removed
    }
}

/// The description of a Run, where there is one.
pub fn info(id: RunId, run: Option<&Run>, cursors: OwnerCursors) -> (r: Result<
    RunInfo,
    ProtocolError,
>)
    ensures
        match run {
            Some(run) => r matches Ok(info) && run@.describes(info, cursors),
            None => r matches Err(e) && e.says(
                ErrorCode::RunNotFound,
                about_run(id, " does not exist"@),
            ),
        },
{
    match run {
        Some(run) => Ok(run.info(cursors)),
        None => Err(run_error(ErrorCode::RunNotFound, id, " does not exist")),
    }
}

/// Whether descriptions come in the order of the texts of their identities.
pub open spec fn infos_sorted(infos: Seq<RunInfo>) -> bool {
    forall|i: int, j: int|
        0 <= i <= j < infos.len() ==> text_not_after(
            (#[trigger] infos[i]).id.text(),
            (#[trigger] infos[j]).id.text(),
        )
}

/// All descriptions in the order of their identities.
pub fn list(infos: Vec<RunInfo>) -> (r: Vec<RunInfo>)
    ensures
        r@.len() == infos@.len(),
        r@.to_multiset() == infos@.to_multiset(),
        infos_sorted(r@),
{
    broadcast use vstd::seq_lib::group_to_multiset_ensures;

    let ghost given = infos@;
    let mut rest = infos;
    let mut sorted: Vec<RunInfo> = Vec::new();
    assert(sorted@.to_multiset().add(rest@.to_multiset()) =~= given.to_multiset());
    while rest.len() > 0
        invariant
            forall|i: int, j: int|
                0 <= i <= j < sorted@.len() ==> (#[trigger] sorted@[i]).id.value <= (
                #[trigger] sorted@[j]).id.value,
            sorted@.to_multiset().add(rest@.to_multiset()) == given.to_multiset(),
            sorted@.len() + rest@.len() == given.len(),
        decreases rest@.len(),
    {
        let ghost rest_before = rest@;
        let ghost sorted_before = sorted@;
        match rest.pop() {
            Some(info) => {
                let mut place: usize = 0;
                while place < sorted.len() && sorted[place].id.value <= info.id.value
                    invariant
                        place <= sorted@.len(),
                        forall|k: int|
                            0 <= k < place ==> (#[trigger] sorted@[k]).id.value <= info.id.value,
                    decreases sorted@.len() - place,
                {
                    place = place + 1;
                }
                sorted.insert(place, info);
                proof {
                    assert(rest_before =~= rest@.push(info));
                    assert(sorted@ =~= sorted_before.insert(place as int, info));
                    lemma_move_keeps_multiset(
                        sorted_before,
                        rest_before,
                        sorted@,
                        rest@,
                        place as int,
                        info,
                    );
                    assert forall|i: int, j: int| 0 <= i <= j < sorted@.len() implies (
                    #[trigger] sorted@[i]).id.value <= (#[trigger] sorted@[j]).id.value by {
                        let a = if i <= place {
                            i
                        } else {
                            i - 1
                        };
                        let b = if j <= place {
                            j
                        } else {
                            j - 1
                        };
                        if i < place {
                            assert(sorted@[i] == sorted_before[i]);
                        } else if i > place {
                            assert(sorted@[i] == sorted_before[a]);
                        }
                        if j < place {
                            assert(sorted@[j] == sorted_before[j]);
                        } else if j > place {
                            assert(sorted@[j] == sorted_before[b]);
                            assert(sorted_before[place as int].id.value <= sorted_before[b].id.value);
                        }
                    }
                }
            },
            None => {},
        }
    }
    proof {
        assert(rest@ =~= Seq::empty());
        assert(sorted@.to_multiset() =~= given.to_multiset());
        assert forall|i: int, j: int| 0 <= i <= j < sorted@.len() implies text_not_after(
            (#[trigger] sorted@[i]).id.text(),
            (#[trigger] sorted@[j]).id.text(),
        ) by {
            law_identities_are_ordered_as_their_texts(sorted@[i].id.value, sorted@[j].id.value);
        }
    }
    sorted
}

} // verus!
