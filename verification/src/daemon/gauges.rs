//! What a registry reports of itself.

use vstd::prelude::*;

use crate::daemon::registry::{RegistryEntry, Residency, RunRegistry};

verus! {

/// Counts of a registry.
#[derive(Debug, Clone, Copy, PartialEq, Eq, Structural)]
pub struct RegistryGauges {
    pub retained_runs: usize,
    pub creation_keys: usize,
    pub publication_reservations: usize,
    /// Tickets for which at least one Run is fenced.
    pub collecting_tickets: usize,
}

/// How many Runs have a creation key.
pub open spec fn keyed_runs(runs: Seq<RegistryEntry>) -> int
    decreases runs.len(),
{
    if runs.len() == 0 {
        0
    } else {
        keyed_runs(runs.drop_last()) + (if runs.last().operation_key is Some {
            1int
        } else {
            0
        })
    }
}

/// The tickets for which Runs are fenced.
pub open spec fn collecting_tickets(runs: Seq<RegistryEntry>) -> Set<u64>
    decreases runs.len(),
{
    if runs.len() == 0 {
        Set::empty()
    } else {
        let rest = collecting_tickets(runs.drop_last());
        match runs.last().residency {
            Residency::Collecting(ticket) => rest.insert(ticket),
            _ => rest,
        }
    }
}

/// The tickets are those for which some Run is leaving.
pub proof fn lemma_collecting_tickets(runs: Seq<RegistryEntry>)
    ensures
        collecting_tickets(runs).finite(),
        collecting_tickets(runs).len() <= runs.len(),
        forall|ticket: u64| #[trigger]
            collecting_tickets(runs).contains(ticket) <==> exists|i: int|
                0 <= i < runs.len() && (#[trigger] runs[i]).residency == Residency::Collecting(
                    ticket,
                ),
    decreases runs.len(),
{
    if runs.len() > 0 {
        let shorter = runs.drop_last();
        lemma_collecting_tickets(shorter);
        assert forall|ticket: u64| #[trigger]
            collecting_tickets(runs).contains(ticket) <==> exists|i: int|
                0 <= i < runs.len() && (#[trigger] runs[i]).residency == Residency::Collecting(
                    ticket,
                ) by {
            if collecting_tickets(shorter).contains(ticket) {
                let i = choose|i: int|
                    0 <= i < shorter.len() && (#[trigger] shorter[i]).residency
                        == Residency::Collecting(ticket);
                assert(runs[i] == shorter[i]);
            } else if collecting_tickets(runs).contains(ticket) {
                assert(runs[runs.len() - 1].residency == Residency::Collecting(ticket));
            }
            if exists|i: int|
                0 <= i < runs.len() && (#[trigger] runs[i]).residency == Residency::Collecting(
                    ticket,
                ) {
                let i = choose|i: int|
                    0 <= i < runs.len() && (#[trigger] runs[i]).residency
                        == Residency::Collecting(ticket);
                if i < shorter.len() {
                    assert(shorter[i] == runs[i]);
                }
            }
        }
    }
}

impl RunRegistry {
    /// Whether a Run before `count` is fenced for a ticket.
    fn is_collecting(&self, count: usize, ticket: u64) -> (r: bool)
        requires
            count <= self@.runs.len(),
        ensures
            r == collecting_tickets(self@.runs.take(count as int)).contains(ticket),
    {
        let ghost runs = self@.runs.take(count as int);
        proof {
            lemma_collecting_tickets(runs);
        }
        let mut i: usize = 0;
        while i < count
            invariant
                i <= count <= self@.runs.len(),
                runs == self@.runs.take(count as int),
                forall|k: int|
                    0 <= k < i ==> (#[trigger] runs[k]).residency != Residency::Collecting(ticket),
            decreases count - i,
        {
            if self.runs[i].residency == Residency::Collecting(ticket) {
                assert(runs[i as int].residency == Residency::Collecting(ticket));
                proof {
                    lemma_collecting_tickets(runs);
                }
                return true;
            }
            assert(runs[i as int].residency != Residency::Collecting(ticket));
            i = i + 1;
        }
        proof {
            lemma_collecting_tickets(runs);
        }
        false
    }

    /// The counts of this registry.
    pub fn gauges(&self) -> (r: RegistryGauges)
        ensures
            r.retained_runs == self@.runs.len(),
            r.creation_keys == keyed_runs(self@.runs),
            r.publication_reservations == self@.reservations.len(),
            r.collecting_tickets == collecting_tickets(self@.runs).len(),
    {
        let ghost runs = self@.runs;
        let mut creation_keys: usize = 0;
        let mut collecting: usize = 0;
        let mut i: usize = 0;
        assert(runs.take(0) =~= seq![]);
        while i < self.runs.len()
            invariant
                runs == self@.runs,
                i <= runs.len(),
                creation_keys <= i,
                collecting <= i,
                creation_keys == keyed_runs(runs.take(i as int)),
                collecting == collecting_tickets(runs.take(i as int)).len(),
            decreases runs.len() - i,
        {
            proof {
                assert(runs.take(i + 1).drop_last() =~= runs.take(i as int));
                lemma_collecting_tickets(runs.take(i as int));
            }
            if self.runs[i].operation_key.is_some() {
                creation_keys = creation_keys + 1;
            }
            if let Residency::Collecting(ticket) = self.runs[i].residency {
                if !self.is_collecting(i, ticket) {
                    collecting = collecting + 1;
                } else {
                    assert(collecting_tickets(runs.take(i as int)).insert(ticket)
                        =~= collecting_tickets(runs.take(i as int)));
                }
            }
            i = i + 1;
        }
        assert(runs.take(i as int) =~= runs);
        RegistryGauges {
            retained_runs: self.runs.len(),
            creation_keys,
            publication_reservations: self.reservations.len(),
            collecting_tickets: collecting,
        }
    }
}

} // verus!
