//! Runs that were started and are not public yet. Each ends in exactly one of
//! three ways: it is published, it is cleaned up at once, or its cleanup is
//! handed over and keeps the slot of the publication.

use vstd::prelude::*;

use crate::daemon::owners::{CleanupEntry, CleanupView, UnpublishedCleanupOwner};
use crate::daemon::run::{Run, RunControl};
use crate::identity::RunId;
use crate::protocol::{ErrorCode, OperationKey, ProtocolError};
use crate::run_spec::{CreationRequest, CreationRequestView};
use crate::text::{decimal, decimal_text, joined, joined3, owned};

verus! {

/// `later` behind the failure that came before it, where there was one.
pub open spec fn after_failure(earlier: Option<String>, later: Seq<char>) -> Seq<char> {
    match earlier {
        Some(earlier) => earlier@ + "; "@ + later,
        None => later,
    }
}

fn after_failure_text(earlier: &Option<String>, later: String) -> (r: String)
    ensures
        r@ == after_failure(*earlier, later@),
{
    match earlier {
        Some(earlier) => joined3(earlier.as_str(), "; ", later.as_str()),
        None => later,
    }
}

/// The end of an unpublished native Run, for which its cleanup was requested.
#[derive(Debug, PartialEq, Eq)]
pub struct UnpublishedTermination {
    /// Why the request failed, if it did.
    pub request_error: Option<String>,
}

/// What to do while an unpublished Run is being terminated.
#[derive(Debug, PartialEq, Eq)]
pub enum TerminationStep {
    /// Give up the descriptors; the outcome of that is the outcome of all.
    DetachDescriptors,
    /// Look again a little later.
    PollAgain,
    Failed(String),
}

impl UnpublishedTermination {
    /// Begin to terminate `run`, with the outcome of the cleanup request. A
    /// Run without native control cannot be terminated.
    pub fn begin(run: &Run, requested: Result<(), String>) -> (r: Result<
        UnpublishedTermination,
        String,
    >)
        ensures
            match run@.control_refusal() {
                Some(refusal) => r matches Err(message) && message@ == refusal.1,
                None => r matches Ok(termination) && termination.request_error == (
                match requested {
                    Ok(_) => None,
                    Err(error) => Some(error),
                }),
            },
    {
        match run.native_control() {
            Err(error) => Err(error.message),
            Ok(_) => {
                let request_error = match requested {
                    Ok(_) => None,
                    Err(error) => Some(error),
                };
                Ok(UnpublishedTermination { request_error })
            },
        }
    }

    /// Judge the bounded wait for the child.
    pub fn reaped(&self, waited: Result<(), String>) -> (r: Result<(), String>)
        ensures
            match waited {
                Ok(_) => r == Ok::<(), String>(()),
                Err(error) => r matches Err(message) && message@ == after_failure(
                    self.request_error,
                    error@,
                ),
            },
    {
        match waited {
            Ok(done) => Ok(done),
            Err(error) => Err(after_failure_text(&self.request_error, error)),
        }
    }

    /// Judge the cleanup result of the Run.
    pub fn terminate_unpublished(&self, cleanup: Result<(), String>, deadline_passed: bool) -> (r:
        TerminationStep)
        ensures
            match cleanup {
                Ok(_) => r is DetachDescriptors,
                Err(error) => if deadline_passed {
                    r matches TerminationStep::Failed(message) && message@ == after_failure(
                        self.request_error,
                        error@,
                    )
                } else {
                    r is PollAgain
                },
            },
    {
        match cleanup {
            Ok(_) => TerminationStep::DetachDescriptors,
            Err(error) => {
                if deadline_passed {
                    TerminationStep::Failed(after_failure_text(&self.request_error, error))
                } else {
                    TerminationStep::PollAgain
                }
            },
        }
    }
}

/// Whether nothing is left of an unpublished import: its control says so, and
/// nothing else refers to its Run.
pub fn tmux_cleanup_result(run: &Run, control: Result<(), String>, owners: u64) -> (r: Result<
    (),
    String,
>)
    ensures
        match run@.control {
            Some(RunControl::Tmux) => match control {
                Err(error) => r == Err::<(), String>(error),
                Ok(_) => if owners == 1 {
                    r == Ok::<(), String>(())
                } else {
                    r matches Err(message) && message@
                        == "tmux cleanup completion is recorded but "@ + decimal(owners as nat)
                        + " Run owners remain"@
                },
            },
            Some(RunControl::Native) => r matches Err(message) && message@
                == "unpublished tmux cleanup references a native Run"@,
            None => r matches Err(message) && message@
                == "unpublished tmux cleanup has no incarnation owner"@,
        },
{
    match run.tmux_unpublished_cleanup_result(control) {
        Err(error) => Err(error),
        Ok(done) => {
            if owners == 1 {
                return Ok(done);
            }
            let count = decimal_text(owners);
            Err(
                joined3(
                    "tmux cleanup completion is recorded but ",
                    count.as_str(),
                    " Run owners remain",
                ),
            )
        },
    }
}

/// A native Run that was started for a creation key and is not public yet. It
/// holds one slot of the cleanup owner.
#[derive(Debug, PartialEq, Eq)]
pub struct PendingPublication {
    pub key: OperationKey,
    pub request: CreationRequest,
    pub run: RunId,
}

impl PendingPublication {
    /// Complete a rollback, or hand over the cleanup: with the outcome of the
    /// termination the slot is released or the key stays fenced.
    pub fn cleanup_unpublished(
        self,
        owner: &mut UnpublishedCleanupOwner,
        terminated: Result<(), String>,
    ) -> (r: Result<(), String>)
        requires
            old(owner)@.valid(),
            old(owner)@.reserved() > 0,
        ensures
            final(owner)@.valid(),
            r == terminated,
            match terminated {
                Ok(_) => final(owner)@ == (CleanupView {
                    owned: old(owner)@.owned - 1,
                    ..old(owner)@
                }),
                Err(error) => old(owner)@.transfers(
                    self.key@,
                    self.request@,
                    CleanupEntry { run: self.run, transfer_reason: error, current: Err(error) },
                    final(owner)@,
                ),
            },
    {
        match terminated {
            Ok(done) => {
                owner.release();
                Ok(done)
            },
            Err(error) => {
                let current: Result<(), String> = Err(error.clone());
                owner.transfer(self.key, self.request, self.run, error.clone(), current);
                Err(error)
            },
        }
    }

    /// The Run is public: its slot is released.
    pub fn into_published(self, owner: &mut UnpublishedCleanupOwner)
        requires
            old(owner)@.valid(),
            old(owner)@.reserved() > 0,
        ensures
            final(owner)@.valid(),
            final(owner)@ == (CleanupView { owned: old(owner)@.owned - 1, ..old(owner)@ }),
    {
        owner.release();
    }

    /// The creation ended without any of that: hand over the cleanup, with
    /// the outcome of the request for it.
    pub fn abandon(self, owner: &mut UnpublishedCleanupOwner, requested: Result<(), String>)
        requires
            old(owner)@.valid(),
            old(owner)@.reserved() > 0,
        ensures
            final(owner)@.valid(),
            exists|reason: String|
                {
                    &&& reason@ == (match requested {
                        Ok(_) =>
                            "creation owner unwound after requesting unpublished child cleanup"@,
                        Err(error) => "creation owner unwound; cleanup request failed: "@ + error@,
                    })
                    &&& #[trigger] old(owner)@.transfers(
                        self.key@,
                        self.request@,
                        CleanupEntry {
                            run: self.run,
                            transfer_reason: reason,
                            current: Err(reason),
                        },
                        final(owner)@,
                    )
                },
    {
        let reason = match requested {
            Ok(_) => owned("creation owner unwound after requesting unpublished child cleanup"),
            Err(error) => joined(
                "creation owner unwound; cleanup request failed: ",
                error.as_str(),
            ),
        };
        let current: Result<(), String> = Err(reason.clone());
        owner.transfer(self.key, self.request, self.run, reason, current);
    }
}

/// An imported Run that is not public yet. It holds one slot of the cleanup
/// owner.
#[derive(Debug, PartialEq, Eq)]
pub struct PendingTmuxPublication {
    pub run: RunId,
}

impl PendingTmuxPublication {
    /// The Run is public: its slot is released.
    pub fn into_published(self, owner: &mut UnpublishedCleanupOwner)
        requires
            old(owner)@.valid(),
            old(owner)@.reserved() > 0,
        ensures
            final(owner)@.valid(),
            final(owner)@ == (CleanupView { owned: old(owner)@.owned - 1, ..old(owner)@ }),
    {
        owner.release();
    }

    /// Hand over the cleanup; it is not proven yet.
    pub fn transfer(self, owner: &mut UnpublishedCleanupOwner, transfer_reason: String)
        requires
            old(owner)@.valid(),
            old(owner)@.reserved() > 0,
        ensures
            final(owner)@.valid(),
            final(owner)@ == (CleanupView {
                tmux: old(owner)@.tmux.push(
                    CleanupEntry {
                        run: self.run,
                        transfer_reason,
                        current: Err(transfer_reason),
                    },
                ),
                ..old(owner)@
            }),
    {
        let current: Result<(), String> = Err(transfer_reason.clone());
        owner.transfer_tmux(self.run, transfer_reason, current);
    }

    /// The import ended without publication and without a handover: hand over
    /// the cleanup, which was requested before.
    pub fn abandon(self, owner: &mut UnpublishedCleanupOwner)
        requires
            old(owner)@.valid(),
            old(owner)@.reserved() > 0,
        ensures
            final(owner)@.valid(),
            exists|reason: String|
                {
                    &&& reason@ == "tmux import owner unwound before publication"@
                    &&& final(owner)@ == (CleanupView {
                        tmux: old(owner)@.tmux.push(
                            #[trigger] unproven_entry(self.run, reason),
                        ),
                        ..old(owner)@
                    })
                },
    {
        let reason = owned("tmux import owner unwound before publication");
        let ghost given = reason;
        let ghost run = self.run;
        self.transfer(owner, reason);
        assert(unproven_entry(run, given) == (CleanupEntry {
            run,
            transfer_reason: given,
            current: Err(given),
        }));
    }
}

/// A cleanup that was handed over and is not proven.
pub open spec fn unproven_entry(run: RunId, reason: String) -> CleanupEntry {
    CleanupEntry { run, transfer_reason: reason, current: Err(reason) }
}

/// The answer to a creation whose durable record could not be committed, with
/// the outcome of the rollback.
pub fn cleanup_failed_persistent_creation(
    capacity: bool,
    failure: String,
    cleanup: Result<(), String>,
) -> (r: ProtocolError)
    ensures
        r.says(
            if capacity {
                ErrorCode::RunCapacity
            } else {
                ErrorCode::Persistence
            },
            match cleanup {
                Ok(_) => failure@,
                Err(error) => failure@
                    + "; rollback pending: exact creation key remains fenced until all unpublished native owners are quiescent: "@
                    + error@,
            },
        ),
{
    let code = if capacity {
        ErrorCode::RunCapacity
    } else {
        ErrorCode::Persistence
    };
    match cleanup {
        Ok(_) => ProtocolError { code, message: failure },
        Err(error) => ProtocolError {
            code,
            message: joined3(
                failure.as_str(),
                "; rollback pending: exact creation key remains fenced until all unpublished native owners are quiescent: ",
                error.as_str(),
            ),
        },
    }
}

/// The answer to a creation whose commit may or may not have happened, with
/// the outcome of the cleanup.
pub fn cleanup_unknown_persistent_creation(message: String, cleanup: Result<(), String>) -> (r:
    ProtocolError)
    ensures
        r.says(
            ErrorCode::Persistence,
            match cleanup {
                Ok(_) => message@,
                Err(error) => message@ + "; cleanup pending after unknown COMMIT: "@ + error@,
            },
        ),
{
    match cleanup {
        Ok(_) => ProtocolError { code: ErrorCode::Persistence, message },
        Err(error) => ProtocolError {
            code: ErrorCode::Persistence,
            message: joined3(
                message.as_str(),
                "; cleanup pending after unknown COMMIT: ",
                error.as_str(),
            ),
        },
    }
}

/// However a pending publication ends, the slots stay balanced: it either
/// gives its slot back or turns it into a cleanup, and never both.
pub proof fn law_a_pending_publication_ends_once(
    before: CleanupView,
    key: Seq<char>,
    request: CreationRequestView,
    entry: CleanupEntry,
    after: CleanupView,
)
    requires
        before.valid(),
        before.reserved() > 0,
        before.transfers(key, request, entry, after),
    ensures
        after.owned == before.owned,
        after.reserved() == before.reserved() - 1,
        after.fence_of(key) is Some,
        after.fence_of(key)->Some_0.owners.contains(entry),
{
    before.lemma_transfer_counts(key, request, entry, after);
}

} // verus!
