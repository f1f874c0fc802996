//! Retained Runs, their creation keys, and the exact replacement of ended Runs
//! by new ones.

use vstd::prelude::*;

use crate::daemon::fd_budget::FD_BUDGET_LIVE_RUNS;
use crate::daemon::owners::TerminalOrdinal;
use crate::identity::RunId;
use crate::order::{lemma_insert_multiset, ranks_sorted, sort_ranked, Ranked};
use crate::protocol::{
    protocol_error, ControlResult, ErrorCode, OperationKey, ProtocolError, RunLineage, RunSpec,
};
use crate::run_spec::CreationRequest;
use crate::text::{decimal, decimal_text, joined3};

verus! {

/// Whether a retained Run is available.
#[derive(Debug, Clone, Copy, PartialEq, Eq, Structural)]
pub enum Residency {
    Retained,
    /// Fenced for the publication with this ticket, which will replace it.
    Collecting(u64),
    /// Fenced while its durable record is deleted.
    Removing,
}

/// What the registry has to know of a Run.
#[derive(Debug, PartialEq, Eq)]
pub struct RunFacts {
    pub id: RunId,
    pub spec: Option<RunSpec>,
    pub lineage: Option<RunLineage>,
    /// The Run has not ended.
    pub running: bool,
    /// Somebody besides the registry holds the Run.
    pub shared: bool,
    /// The place of the Run in the order of endings, once it has ended, nobody
    /// is attached and its backend is quiescent.
    pub ordinal: Option<TerminalOrdinal>,
    /// The Run observes a tmux pane in this incarnation.
    pub tmux_controlled: bool,
    /// Why nobody waits for the child of the Run any more.
    pub wait_failure: Option<String>,
}

/// The one Stop operation that a Run belongs to, with its result once known.
#[derive(Debug, PartialEq, Eq)]
pub struct StopRecord {
    pub key: OperationKey,
    pub settled: Option<ControlResult>,
}

/// One retained Run.
#[derive(Debug, PartialEq, Eq)]
pub struct RegistryEntry {
    pub facts: RunFacts,
    pub operation_key: Option<OperationKey>,
    pub stop: Option<StopRecord>,
    pub metadata_bytes: Option<u64>,
    pub residency: Residency,
}

/// One publication that has its place and is not public yet.
#[derive(Debug, PartialEq, Eq)]
pub struct Reservation {
    pub ticket: u64,
    pub new_run_id: RunId,
    pub operation_key: Option<OperationKey>,
    pub request: Option<CreationRequest>,
    pub new_metadata_bytes: Option<u64>,
    pub candidates: Vec<RunId>,
}

/// The characters of an optional key.
pub open spec fn key_view(key: Option<OperationKey>) -> Option<Seq<char>> {
    match key {
        Some(key) => Some(key@),
        None => None,
    }
}

/// The characters of the key of an optional Stop record.
pub open spec fn stop_key_view(stop: Option<StopRecord>) -> Option<Seq<char>> {
    match stop {
        Some(record) => Some(record.key@),
        None => None,
    }
}

/// Whether two Runs have different identities, creation keys and Stop keys.
pub open spec fn bound_apart(a: RegistryEntry, b: RegistryEntry) -> bool {
    &&& a.facts.id != b.facts.id
    &&& a.operation_key is Some ==> key_view(a.operation_key) != key_view(b.operation_key)
    &&& a.stop is Some ==> stop_key_view(a.stop) != stop_key_view(b.stop)
}

/// Whether every Run, creation key and Stop key is bound once.
pub open spec fn bound_once(runs: Seq<RegistryEntry>) -> bool {
    forall|i: int, j: int|
        0 <= i < j < runs.len() ==> bound_apart(#[trigger] runs[i], #[trigger] runs[j])
}

/// Contents of a registry.
pub struct RegistryView {
    pub runs: Seq<RegistryEntry>,
    pub reservations: Seq<Reservation>,
    pub next_ticket: u64,
    pub record_capacity: usize,
    pub metadata_budget: u64,
}

/// Whether a Run may make place for another.
pub open spec fn eligible(entry: RegistryEntry, with_metadata: bool) -> bool {
    &&& entry.residency == Residency::Retained
    &&& !entry.facts.shared
    &&& with_metadata ==> entry.metadata_bytes is Some
    &&& entry.facts.ordinal is Some
}

/// The place of a Run that has ended.
pub open spec fn rank_of(entry: RegistryEntry) -> Ranked {
    Ranked { ordinal: entry.facts.ordinal->0.number, id: entry.facts.id.value }
}

/// The places of the Runs that may make place for another.
pub open spec fn eligible_ranks(runs: Seq<RegistryEntry>, with_metadata: bool) -> Seq<Ranked>
    decreases runs.len(),
{
    if runs.len() == 0 {
        seq![]
    } else {
        let rest = eligible_ranks(runs.drop_last(), with_metadata);
        if eligible(runs.last(), with_metadata) {
            rest.push(rank_of(runs.last()))
        } else {
            rest
        }
    }
}

/// Metadata bytes of one Run.
pub open spec fn metadata_of(entry: RegistryEntry) -> int {
    match entry.metadata_bytes {
        Some(bytes) => bytes as int,
        None => 0,
    }
}

/// Metadata bytes of some Runs.
pub open spec fn retained_metadata(runs: Seq<RegistryEntry>) -> int
    decreases runs.len(),
{
    if runs.len() == 0 {
        0
    } else {
        retained_metadata(runs.drop_last()) + metadata_of(runs.last())
    }
}

/// Whether a Run is retained.
pub open spec fn has_run(runs: Seq<RegistryEntry>, id: RunId) -> bool {
    exists|i: int| 0 <= i < runs.len() && (#[trigger] runs[i]).facts.id == id
}

/// Where a Run is retained.
pub open spec fn place_of(runs: Seq<RegistryEntry>, id: RunId) -> int {
    choose|i: int| 0 <= i < runs.len() && (#[trigger] runs[i]).facts.id == id
}

/// Metadata bytes of the Run with an identity; none if it is not retained.
pub open spec fn metadata_for(runs: Seq<RegistryEntry>, id: RunId) -> int {
    if has_run(runs, id) {
        metadata_of(runs[place_of(runs, id)])
    } else {
        0
    }
}

/// Metadata bytes of the Runs with some identities.
pub open spec fn candidate_metadata(runs: Seq<RegistryEntry>, ids: Seq<RunId>) -> int
    decreases ids.len(),
{
    if ids.len() == 0 {
        0
    } else {
        candidate_metadata(runs, ids.drop_last()) + metadata_for(runs, ids.last())
    }
}

/// Metadata bytes that one reservation adds once it is public.
pub open spec fn reservation_growth(runs: Seq<RegistryEntry>, reservation: Reservation) -> int {
    match reservation.new_metadata_bytes {
        None => 0,
        Some(bytes) => {
            let freed = candidate_metadata(runs, reservation.candidates@);
            if bytes > freed {
                bytes - freed
            } else {
                0
            }
        },
    }
}

/// Metadata bytes that all reservations add.
pub open spec fn reserved_metadata(
    runs: Seq<RegistryEntry>,
    reservations: Seq<Reservation>,
) -> int
    decreases reservations.len(),
{
    if reservations.len() == 0 {
        0
    } else {
        reserved_metadata(runs, reservations.drop_last()) + reservation_growth(
            runs,
            reservations.last(),
        )
    }
}

/// Reservations that add a record instead of replacing one.
pub open spec fn added_records(reservations: Seq<Reservation>) -> int
    decreases reservations.len(),
{
    if reservations.len() == 0 {
        0
    } else {
        added_records(reservations.drop_last()) + (if reservations.last().candidates@.len() == 0 {
            1int
        } else {
            0
        })
    }
}

/// A sum that stops at the largest integer of 64 bits.
pub open spec fn capped(sum: int) -> int {
    if sum > u64::MAX {
        u64::MAX as int
    } else {
        sum
    }
}

/// Metadata bytes that the Runs at some places free, summed with a cap.
pub open spec fn funded_by(runs: Seq<RegistryEntry>, ranks: Seq<Ranked>) -> int
    decreases ranks.len(),
{
    if ranks.len() == 0 {
        0
    } else {
        capped(
            funded_by(runs, ranks.drop_last()) + metadata_for(
                runs,
                RunId { value: ranks.last().id },
            ),
        )
    }
}

/// The identities at some places.
pub open spec fn ids_of(ranks: Seq<Ranked>) -> Seq<RunId> {
    ranks.map_values(|rank: Ranked| RunId { value: rank.id })
}

/// Runs with those of some identities fenced for a ticket.
pub open spec fn fenced(runs: Seq<RegistryEntry>, ids: Seq<RunId>, ticket: u64) -> Seq<
    RegistryEntry,
> {
    runs.map_values(
        |entry: RegistryEntry|
            if ids.contains(entry.facts.id) {
                RegistryEntry { residency: Residency::Collecting(ticket), ..entry }
            } else {
                entry
            },
    )
}

/// Runs with those of some identities available again.
pub open spec fn unfenced(runs: Seq<RegistryEntry>, ids: Seq<RunId>) -> Seq<RegistryEntry> {
    runs.map_values(
        |entry: RegistryEntry|
            if ids.contains(entry.facts.id) {
                RegistryEntry { residency: Residency::Retained, ..entry }
            } else {
                entry
            },
    )
}

/// Runs without those of some identities.
pub open spec fn without(runs: Seq<RegistryEntry>, ids: Seq<RunId>) -> Seq<RegistryEntry> {
    runs.filter(|entry: RegistryEntry| !ids.contains(entry.facts.id))
}

/// The Runs of some identities.
pub open spec fn only(runs: Seq<RegistryEntry>, ids: Seq<RunId>) -> Seq<RegistryEntry> {
    runs.filter(|entry: RegistryEntry| ids.contains(entry.facts.id))
}

impl RegistryView {
    /// What every registry keeps: a Run, a creation key and a Stop key are
    /// bound once; a ticket is used once; and a Run is fenced for a ticket if
    /// and only if the reservation with that ticket names it.
    pub open spec fn valid(&self) -> bool {
        &&& bound_once(self.runs)
        &&& forall|i: int, j: int|
            0 <= i < j < self.reservations.len() ==> (#[trigger] self.reservations[i]).ticket != (
            #[trigger] self.reservations[j]).ticket
        &&& forall|i: int|
            0 <= i < self.reservations.len() ==> (#[trigger] self.reservations[i]).ticket
                <= self.next_ticket
        &&& forall|i: int, k: int|
            0 <= i < self.reservations.len() && 0 <= k < self.reservations[i].candidates@.len()
                ==> self.is_fenced_for(
                #[trigger] self.reservations[i].candidates@[k],
                self.reservations[i].ticket,
            )
        &&& forall|i: int|
            0 <= i < self.runs.len() ==> ((#[trigger] self.runs[i]).residency
                matches Residency::Collecting(ticket) ==> self.is_candidate(
                self.runs[i].facts.id,
                ticket,
            ))
    }

    /// Whether a Run is retained and fenced for a ticket.
    pub open spec fn is_fenced_for(&self, id: RunId, ticket: u64) -> bool {
        exists|i: int|
            0 <= i < self.runs.len() && (#[trigger] self.runs[i]).facts.id == id
                && self.runs[i].residency == Residency::Collecting(ticket)
    }

    /// Whether the reservation with a ticket names a Run.
    pub open spec fn is_candidate(&self, id: RunId, ticket: u64) -> bool {
        exists|i: int|
            0 <= i < self.reservations.len() && (#[trigger] self.reservations[i]).ticket == ticket
                && self.reservations[i].candidates@.contains(id)
    }

    /// Records that there will be once every reservation is public.
    pub open spec fn projected_records(&self) -> int {
        self.runs.len() + added_records(self.reservations)
    }

    /// Metadata bytes that there will be once every reservation is public.
    pub open spec fn projected_metadata(&self) -> int {
        capped(retained_metadata(self.runs) + reserved_metadata(self.runs, self.reservations))
    }

    /// Whether one more record needs another to leave.
    pub open spec fn needs_record(&self) -> bool {
        self.projected_records() >= self.record_capacity
    }

    /// Metadata bytes that have to leave for a new record.
    pub open spec fn metadata_to_fund(&self, new_metadata: Option<u64>) -> int {
        match new_metadata {
            None => 0,
            Some(bytes) => {
                let total = capped(self.projected_metadata() + bytes);
                if total > self.metadata_budget {
                    total - self.metadata_budget
                } else {
                    0
                }
            },
        }
    }

    /// Whether the metadata can be summed at all.
    pub open spec fn metadata_is_summable(&self) -> bool {
        &&& retained_metadata(self.runs) <= u64::MAX
        &&& reserved_metadata(self.runs, self.reservations) <= u64::MAX
        &&& forall|i: int|
            0 <= i < self.reservations.len() ==> candidate_metadata(
                self.runs,
                (#[trigger] self.reservations[i]).candidates@,
            ) <= u64::MAX
    }

    /// Whether the Runs at the first `count` places make enough place.
    pub open spec fn suffices(
        &self,
        ordered: Seq<Ranked>,
        new_metadata: Option<u64>,
        count: int,
    ) -> bool {
        &&& self.needs_record() ==> count > 0
        &&& funded_by(self.runs, ordered.take(count)) >= self.metadata_to_fund(new_metadata)
    }

    /// Whether `count` is the least number of Runs that make enough place, or
    /// all of them where even that is not enough.
    pub open spec fn is_least(
        &self,
        ordered: Seq<Ranked>,
        new_metadata: Option<u64>,
        count: int,
    ) -> bool {
        &&& 0 <= count <= ordered.len()
        &&& forall|k: int| 0 <= k < count ==> !#[trigger] self.suffices(ordered, new_metadata, k)
        &&& count < ordered.len() ==> self.suffices(ordered, new_metadata, count)
    }

    /// Whether `ordered` holds the places of all Runs that may make place, in
    /// their order.
    pub open spec fn is_collection_order(
        &self,
        ordered: Seq<Ranked>,
        new_metadata: Option<u64>,
    ) -> bool {
        ranks_sorted(ordered) && ordered.to_multiset() == eligible_ranks(
            self.runs,
            new_metadata is Some,
        ).to_multiset()
    }

    /// Whether some reservation replaces more than one Run.
    pub open spec fn has_wide_reservation(&self) -> bool {
        exists|i: int|
            0 <= i < self.reservations.len() && (#[trigger] self.reservations[i]).candidates@.len()
                > 1
    }

    /// Whether `result` is the selection for a new record out of `ordered`.
    pub open spec fn selects(
        &self,
        ordered: Seq<Ranked>,
        new_metadata: Option<u64>,
        count: int,
        result: Result<Seq<RunId>, ProtocolError>,
    ) -> bool {
        &&& self.is_least(ordered, new_metadata, count)
        &&& if !self.suffices(ordered, new_metadata, count) {
            result matches Err(e) && e.says(
                ErrorCode::RunCapacity,
                "retained Run capacity "@ + decimal(self.record_capacity as nat)
                    + " has no eligible exact replacement"@,
            )
        } else if count > 1 && self.has_wide_reservation() {
            result matches Err(e) && e.says(
                ErrorCode::BackendUnavailable,
                "persistent metadata replacement is already reserved"@,
            )
        } else {
            result == Ok::<Seq<RunId>, ProtocolError>(ids_of(ordered.take(count)))
        }
    }

    /// Whether `result` is the selection for a new record: no Run leaves
    /// without need, and otherwise the earliest that ended leave, as few as
    /// make enough place.
    pub open spec fn selection(
        &self,
        new_metadata: Option<u64>,
        result: Result<Seq<RunId>, ProtocolError>,
    ) -> bool {
        if !self.needs_record() && self.metadata_to_fund(new_metadata) == 0 {
            result == Ok::<Seq<RunId>, ProtocolError>(seq![])
        } else {
            exists|ordered: Seq<Ranked>, count: int| #[trigger]
                self.selects(ordered, new_metadata, count, result) && self.is_collection_order(
                    ordered,
                    new_metadata,
                )
        }
    }

    /// Where the reservation with a ticket stands.
    pub open spec fn reservation_place(&self, ticket: u64) -> int {
        choose|i: int|
            0 <= i < self.reservations.len() && (#[trigger] self.reservations[i]).ticket == ticket
    }

    /// Whether a ticket is reserved.
    pub open spec fn has_ticket(&self, ticket: u64) -> bool {
        exists|i: int|
            0 <= i < self.reservations.len() && (#[trigger] self.reservations[i]).ticket == ticket
    }

    /// The reservation with a ticket.
    pub open spec fn reservation(&self, ticket: u64) -> Reservation {
        self.reservations[self.reservation_place(ticket)]
    }

    /// The Runs that leave once the reservation with a ticket is public.
    pub open spec fn leaving(&self, ticket: u64) -> Seq<RegistryEntry> {
        only(self.runs, self.reservation(ticket).candidates@)
    }

    /// The contents without a reservation, its Runs available again.
    pub open spec fn restored(&self, ticket: u64) -> RegistryView {
        RegistryView {
            runs: unfenced(self.runs, self.reservation(ticket).candidates@),
            reservations: self.reservations.remove(self.reservation_place(ticket)),
            ..*self
        }
    }

    /// The contents without a reservation and without its Runs.
    pub open spec fn consumed(&self, ticket: u64) -> RegistryView {
        RegistryView {
            runs: without(self.runs, self.reservation(ticket).candidates@),
            reservations: self.reservations.remove(self.reservation_place(ticket)),
            ..*self
        }
    }
}

/// A Run stands at one place.
pub proof fn lemma_place_of(registry: RegistryView, id: RunId, place: int)
    requires
        registry.valid(),
        0 <= place < registry.runs.len(),
        registry.runs[place].facts.id == id,
    ensures
        has_run(registry.runs, id),
        place_of(registry.runs, id) == place,
{
    let chosen = place_of(registry.runs, id);
    assert(registry.runs[place].facts.id == id);
    if chosen < place {
        assert(registry.runs[chosen].facts.id != registry.runs[place].facts.id);
    } else if place < chosen {
        assert(registry.runs[place].facts.id != registry.runs[chosen].facts.id);
    }
}

/// A ticket stands at one place.
pub proof fn lemma_reservation_place(registry: RegistryView, ticket: u64, place: int)
    requires
        registry.valid(),
        0 <= place < registry.reservations.len(),
        registry.reservations[place].ticket == ticket,
    ensures
        registry.has_ticket(ticket),
        registry.reservation_place(ticket) == place,
{
    let chosen = registry.reservation_place(ticket);
    assert(registry.reservations[place].ticket == ticket);
    if chosen < place {
        assert(registry.reservations[chosen].ticket != registry.reservations[place].ticket);
    } else if place < chosen {
        assert(registry.reservations[place].ticket != registry.reservations[chosen].ticket);
    }
}

proof fn lemma_metadata_nonnegative(runs: Seq<RegistryEntry>, ids: Seq<RunId>)
    ensures
        candidate_metadata(runs, ids) >= 0,
    decreases ids.len(),
{
    if ids.len() > 0 {
        lemma_metadata_nonnegative(runs, ids.drop_last());
    }
}

proof fn lemma_retained_metadata_grows(runs: Seq<RegistryEntry>, count: int)
    requires
        0 <= count <= runs.len(),
    ensures
        0 <= retained_metadata(runs.take(count)) <= retained_metadata(runs),
    decreases runs.len(),
{
    if count == runs.len() {
        assert(runs.take(count) =~= runs);
        if runs.len() > 0 {
            lemma_retained_metadata_grows(runs.drop_last(), runs.len() - 1);
            assert(runs.drop_last().take(runs.len() - 1) =~= runs.drop_last());
        }
    } else {
        lemma_retained_metadata_grows(runs.drop_last(), count);
        assert(runs.drop_last().take(count) =~= runs.take(count));
    }
}

proof fn lemma_reserved_metadata_grows(
    runs: Seq<RegistryEntry>,
    reservations: Seq<Reservation>,
    count: int,
)
    requires
        0 <= count <= reservations.len(),
    ensures
        0 <= reserved_metadata(runs, reservations.take(count)) <= reserved_metadata(
            runs,
            reservations,
        ),
    decreases reservations.len(),
{
    if count == reservations.len() {
        assert(reservations.take(count) =~= reservations);
        if reservations.len() > 0 {
            let shorter = reservations.drop_last();
            lemma_reserved_metadata_grows(runs, shorter, shorter.len() as int);
            assert(shorter.take(shorter.len() as int) =~= shorter);
        }
    } else {
        lemma_reserved_metadata_grows(runs, reservations.drop_last(), count);
        assert(reservations.drop_last().take(count) =~= reservations.take(count));
    }
}

proof fn lemma_candidate_metadata_grows(runs: Seq<RegistryEntry>, ids: Seq<RunId>, count: int)
    requires
        0 <= count <= ids.len(),
    ensures
        0 <= candidate_metadata(runs, ids.take(count)) <= candidate_metadata(runs, ids),
    decreases ids.len(),
{
    lemma_metadata_nonnegative(runs, ids.take(count));
    if count == ids.len() {
        assert(ids.take(count) =~= ids);
    } else {
        lemma_candidate_metadata_grows(runs, ids.drop_last(), count);
        assert(ids.drop_last().take(count) =~= ids.take(count));
    }
}

proof fn lemma_added_records_bound(reservations: Seq<Reservation>)
    ensures
        0 <= added_records(reservations) <= reservations.len(),
    decreases reservations.len(),
{
    if reservations.len() > 0 {
        lemma_added_records_bound(reservations.drop_last());
    }
}

proof fn lemma_ranks_come_from_runs(runs: Seq<RegistryEntry>, with_metadata: bool, rank: Ranked)
    requires
        eligible_ranks(runs, with_metadata).contains(rank),
    ensures
        exists|i: int|
            0 <= i < runs.len() && eligible(#[trigger] runs[i], with_metadata) && rank_of(runs[i])
                == rank,
    decreases runs.len(),
{
    if runs.len() > 0 {
        let last = runs.last();
        let rest = eligible_ranks(runs.drop_last(), with_metadata);
        if eligible(last, with_metadata) && rank == rank_of(last) {
            assert(runs[runs.len() - 1] == last);
        } else {
            assert(rest.contains(rank)) by {
                let k = choose|k: int|
                    0 <= k < eligible_ranks(runs, with_metadata).len() && eligible_ranks(
                        runs,
                        with_metadata,
                    )[k] == rank;
                assert(rest[k] == rank);
            }
            lemma_ranks_come_from_runs(runs.drop_last(), with_metadata, rank);
            let i = choose|i: int|
                0 <= i < runs.drop_last().len() && eligible(
                    #[trigger] runs.drop_last()[i],
                    with_metadata,
                ) && rank_of(runs.drop_last()[i]) == rank;
            assert(runs[i] == runs.drop_last()[i]);
        }
    }
}

proof fn lemma_ranks_are_distinct(
    registry: RegistryView,
    runs: Seq<RegistryEntry>,
    with_metadata: bool,
)
    requires
        registry.valid(),
        exists|n: int| 0 <= n <= registry.runs.len() && runs == #[trigger] registry.runs.take(n),
    ensures
        forall|i: int, j: int|
            0 <= i < j < eligible_ranks(runs, with_metadata).len() ==> (
            #[trigger] eligible_ranks(runs, with_metadata)[i]).id != (
            #[trigger] eligible_ranks(runs, with_metadata)[j]).id,
    decreases runs.len(),
{
    if runs.len() > 0 {
        let n = choose|n: int|
            0 <= n <= registry.runs.len() && runs == #[trigger] registry.runs.take(n);
        let shorter = runs.drop_last();
        assert(shorter =~= registry.runs.take(n - 1));
        lemma_ranks_are_distinct(registry, shorter, with_metadata);
        let rest = eligible_ranks(shorter, with_metadata);
        let all = eligible_ranks(runs, with_metadata);
        assert forall|i: int, j: int| 0 <= i < j < all.len() implies (#[trigger] all[i]).id != (
        #[trigger] all[j]).id by {
            if j == rest.len() {
                assert(rest.contains(all[i]));
                lemma_ranks_come_from_runs(shorter, with_metadata, all[i]);
                let k = choose|k: int|
                    0 <= k < shorter.len() && eligible(#[trigger] shorter[k], with_metadata)
                        && rank_of(shorter[k]) == all[i];
                assert(shorter[k] == registry.runs[k]);
                assert(runs.last() == registry.runs[n - 1]);
                assert(registry.runs[k].facts.id != registry.runs[n - 1].facts.id);
            }
        }
    }
}

/// Candidates of a selection: who they are, and whether there are any.
pub struct CandidateSelection {
    /// Records that were looked at to find candidates.
    pub evaluated: usize,
    pub result: Result<Vec<RunId>, ProtocolError>,
}

/// The identities of a selection.
pub open spec fn selected_ids(result: Result<Vec<RunId>, ProtocolError>) -> Result<
    Seq<RunId>,
    ProtocolError,
> {
    match result {
        Ok(ids) => Ok(ids@),
        Err(e) => Err(e),
    }
}

/// A durable record that leaves: its Run, its key and its size.
#[derive(Debug, PartialEq, Eq)]
pub struct PersistentCollectionCandidate {
    pub id: RunId,
    pub operation_key: OperationKey,
    pub metadata_bytes: u64,
}

/// Retained Runs and their bounded creation keys.
pub struct RunRegistry {
    pub(crate) runs: Vec<RegistryEntry>,
    pub(crate) reservations: Vec<Reservation>,
    pub(crate) next_ticket: u64,
    pub(crate) record_capacity: usize,
    pub(crate) metadata_budget: u64,
}

impl RunRegistry {
    /// Contents of this registry.
    pub open(crate) spec fn view(&self) -> RegistryView {
        RegistryView {
            runs: self.runs@,
            reservations: self.reservations@,
            next_ticket: self.next_ticket,
            record_capacity: self.record_capacity,
            metadata_budget: self.metadata_budget,
        }
    }

    /// An empty registry that admits as many Runs as the descriptor target.
    pub fn new(metadata_budget: u64) -> (r: RunRegistry)
        ensures
            r@.valid(),
            r@ == (RegistryView {
                runs: seq![],
                reservations: seq![],
                next_ticket: 0,
                record_capacity: FD_BUDGET_LIVE_RUNS,
                metadata_budget,
            }),
    {
        let r = RunRegistry {
            runs: Vec::new(),
            reservations: Vec::new(),
            next_ticket: 0,
            record_capacity: FD_BUDGET_LIVE_RUNS,
            metadata_budget,
        };
        assert(r@.runs =~= seq![]);
        assert(r@.reservations =~= seq![]);
        r
    }

    /// How many Runs are admitted.
    pub fn record_capacity(&self) -> (r: usize)
        ensures
            r == self@.record_capacity,
    {
        self.record_capacity
    }

    /// Admit no more Runs than are funded. The ceiling is never raised.
    pub fn clamp_record_capacity(&mut self, funded_ceiling: usize)
        requires
            old(self)@.valid(),
        ensures
            final(self)@.valid(),
            final(self)@ == (RegistryView {
                record_capacity: if funded_ceiling < old(self)@.record_capacity {
                    funded_ceiling
                } else {
                    old(self)@.record_capacity
                },
                ..old(self)@
            }),
    {
        if funded_ceiling < self.record_capacity {
            self.record_capacity = funded_ceiling;
        }
    }

    pub(crate) fn position(&self, id: RunId) -> (r: Option<usize>)
        requires
            self@.valid(),
        ensures
            match r {
                Some(place) => {
                    &&& place < self.runs@.len()
                    &&& self.runs@[place as int].facts.id == id
                    &&& has_run(self@.runs, id)
                    &&& place_of(self@.runs, id) == place
                },
                None => !has_run(self@.runs, id),
            },
    {
        let mut i: usize = 0;
        while i < self.runs.len()
            invariant
                self@.valid(),
                i <= self.runs@.len(),
                forall|k: int| 0 <= k < i ==> (#[trigger] self.runs@[k]).facts.id != id,
            decreases self.runs@.len() - i,
        {
            if self.runs[i].facts.id == id {
                proof {
                    lemma_place_of(self@, id, i as int);
                }
                return Some(i);
            }
            i = i + 1;
        }
        None
    }

    fn metadata_at(&self, id: RunId) -> (r: u64)
        requires
            self@.valid(),
        ensures
            r == metadata_for(self@.runs, id),
    {
        match self.position(id) {
            Some(place) => match self.runs[place].metadata_bytes {
                Some(bytes) => bytes,
                None => 0,
            },
            None => 0,
        }
    }

    fn growth(&self, place: usize) -> (r: u64)
        requires
            self@.valid(),
            self@.metadata_is_summable(),
            place < self@.reservations.len(),
        ensures
            r == reservation_growth(self@.runs, self@.reservations[place as int]),
    {
        let reservation = &self.reservations[place];
        match reservation.new_metadata_bytes {
            None => 0,
            Some(bytes) => {
                let ghost ids = reservation.candidates@;
                let mut freed: u64 = 0;
                let mut i: usize = 0;
                assert(ids.take(0) =~= seq![]);
                while i < reservation.candidates.len()
                    invariant
                        self@.valid(),
                        ids == reservation.candidates@,
                        candidate_metadata(self@.runs, ids) <= u64::MAX,
                        i <= ids.len(),
                        freed == candidate_metadata(self@.runs, ids.take(i as int)),
                    decreases ids.len() - i,
                {
                    proof {
                        assert(ids.take(i + 1).drop_last() =~= ids.take(i as int));
                        lemma_candidate_metadata_grows(self@.runs, ids, i + 1);
                    }
                    freed = freed + self.metadata_at(reservation.candidates[i]);
                    i = i + 1;
                }
                assert(ids.take(i as int) =~= ids);
                if bytes > freed {
                    bytes - freed
                } else {
                    0
                }
            },
        }
    }

    /// Metadata bytes that there will be once every reservation is public.
    pub fn projected_metadata_bytes(&self) -> (r: u64)
        requires
            self@.valid(),
            self@.metadata_is_summable(),
        ensures
            r == self@.projected_metadata(),
    {
        let ghost runs = self@.runs;
        let ghost reservations = self@.reservations;
        let mut retained: u64 = 0;
        let mut i: usize = 0;
        assert(runs.take(0) =~= seq![]);
        while i < self.runs.len()
            invariant
                runs == self@.runs,
                retained_metadata(runs) <= u64::MAX,
                i <= runs.len(),
                retained == retained_metadata(runs.take(i as int)),
            decreases runs.len() - i,
        {
            proof {
                assert(runs.take(i + 1).drop_last() =~= runs.take(i as int));
                lemma_retained_metadata_grows(runs, i + 1);
            }
            if let Some(bytes) = self.runs[i].metadata_bytes {
                retained = retained + bytes;
            }
            i = i + 1;
        }
        assert(runs.take(i as int) =~= runs);
        let mut reserved: u64 = 0;
        let mut j: usize = 0;
        assert(reservations.take(0) =~= seq![]);
        while j < self.reservations.len()
            invariant
                self@.valid(),
                self@.metadata_is_summable(),
                runs == self@.runs,
                reservations == self@.reservations,
                j <= reservations.len(),
                reserved == reserved_metadata(runs, reservations.take(j as int)),
            decreases reservations.len() - j,
        {
            proof {
                assert(reservations.take(j + 1).drop_last() =~= reservations.take(j as int));
                lemma_reserved_metadata_grows(runs, reservations, j + 1);
            }
            reserved = reserved + self.growth(j);
            j = j + 1;
        }
        assert(reservations.take(j as int) =~= reservations);
        match retained.checked_add(reserved) {
            Some(total) => total,
            None => u64::MAX,
        }
    }

    fn needs_record(&self) -> (r: bool)
        requires
            self@.valid(),
            self@.runs.len() + self@.reservations.len() <= usize::MAX,
        ensures
            r == self@.needs_record(),
    {
        let ghost reservations = self@.reservations;
        let mut added: usize = 0;
        let mut i: usize = 0;
        assert(reservations.take(0) =~= seq![]);
        while i < self.reservations.len()
            invariant
                reservations == self@.reservations,
                i <= reservations.len(),
                added == added_records(reservations.take(i as int)),
                added <= i,
            decreases reservations.len() - i,
        {
            assert(reservations.take(i + 1).drop_last() =~= reservations.take(i as int));
            if self.reservations[i].candidates.len() == 0 {
                added = added + 1;
            }
            i = i + 1;
        }
        assert(reservations.take(i as int) =~= reservations);
        self.runs.len() + added >= self.record_capacity
    }

    fn metadata_to_fund(&self, new_metadata: Option<u64>) -> (r: u64)
        requires
            self@.valid(),
            new_metadata is Some ==> self@.metadata_is_summable(),
        ensures
            r == self@.metadata_to_fund(new_metadata),
    {
        match new_metadata {
            None => 0,
            Some(bytes) => {
                let projected: u64 = self.projected_metadata_bytes();
                let total: u64 = match projected.checked_add(bytes) {
                    Some(total) => total,
                    None => u64::MAX,
                };
                if total > self.metadata_budget {
                    total - self.metadata_budget
                } else {
                    0
                }
            },
        }
    }

    fn has_wide_reservation(&self) -> (r: bool)
        ensures
            r == self@.has_wide_reservation(),
    {
        let mut i: usize = 0;
        while i < self.reservations.len()
            invariant
                i <= self.reservations@.len(),
                forall|k: int|
                    0 <= k < i ==> (#[trigger] self.reservations@[k]).candidates@.len() <= 1,
            decreases self.reservations@.len() - i,
        {
            if self.reservations[i].candidates.len() > 1 {
                assert(self@.reservations[i as int].candidates@.len() > 1);
                return true;
            }
            i = i + 1;
        }
        false
    }

    /// Find the Runs that make place for a new one. Below the ceiling and with
    /// no metadata to fund, no record is looked at.
    pub fn select_publication_candidates(&self, new_metadata: Option<u64>) -> (r:
        CandidateSelection)
        requires
            self@.valid(),
            self@.runs.len() + self@.reservations.len() <= usize::MAX,
            new_metadata is Some ==> self@.metadata_is_summable(),
        ensures
            self@.selection(new_metadata, selected_ids(r.result)),
            r.evaluated == (if !self@.needs_record() && self@.metadata_to_fund(new_metadata) == 0 {
                0
            } else {
                self@.runs.len()
            }),
            r.result matches Ok(ids) ==> forall|k: int|
                0 <= k < ids@.len() ==> self.is_eligible_id(
                    #[trigger] ids@[k],
                    new_metadata is Some,
                ),
            r.result matches Ok(ids) ==> ids@.no_duplicates(),
    {
        let needs_record = self.needs_record();
        let to_fund: u64 = self.metadata_to_fund(new_metadata);
        if !needs_record && to_fund == 0 {
            let none: Vec<RunId> = Vec::new();
            assert(none@ =~= seq![]);
            return CandidateSelection { evaluated: 0, result: Ok(none) };
        }
        let with_metadata = new_metadata.is_some();
        let ghost runs = self@.runs;
        let mut ranks: Vec<Ranked> = Vec::new();
        let mut i: usize = 0;
        assert(runs.take(0) =~= seq![]);
        while i < self.runs.len()
            invariant
                runs == self@.runs,
                i <= runs.len(),
                ranks@ == eligible_ranks(runs.take(i as int), with_metadata),
            decreases runs.len() - i,
        {
            assert(runs.take(i + 1).drop_last() =~= runs.take(i as int));
            let entry = &self.runs[i];
            let retained = matches!(entry.residency, Residency::Retained);
            if retained && !entry.facts.shared && !(with_metadata
                && entry.metadata_bytes.is_none()) {
                if let Some(ordinal) = entry.facts.ordinal {
                    ranks.push(Ranked { ordinal: ordinal.number, id: entry.facts.id.value });
                }
            }
            i = i + 1;
        }
        assert(runs.take(i as int) =~= runs);
        let ghost unsorted = ranks@;
        let ordered = sort_ranked(ranks);
        proof {
            self.lemma_order_names_eligible_runs(ordered@, new_metadata);
        }
        let mut candidates: Vec<RunId> = Vec::new();
        let mut funded: u64 = 0;
        let mut count: usize = 0;
        assert(ordered@.take(0) =~= seq![]);
        assert(candidates@ =~= ids_of(ordered@.take(0)));
        while count < ordered.len() && !((!needs_record || count > 0) && funded >= to_fund)
            invariant
                self@.valid(),
                runs == self@.runs,
                needs_record == self@.needs_record(),
                to_fund == self@.metadata_to_fund(new_metadata),
                count <= ordered@.len(),
                candidates@ == ids_of(ordered@.take(count as int)),
                funded == funded_by(runs, ordered@.take(count as int)),
                forall|k: int|
                    0 <= k < count ==> !#[trigger] self@.suffices(ordered@, new_metadata, k),
            decreases ordered@.len() - count,
        {
            proof {
                assert(!self@.suffices(ordered@, new_metadata, count as int));
                assert(ordered@.take(count + 1).drop_last() =~= ordered@.take(count as int));
            }
            let id = RunId { value: ordered[count].id };
            let bytes: u64 = self.metadata_at(id);
            funded = match funded.checked_add(bytes) {
                Some(total) => total,
                None => u64::MAX,
            };
            candidates.push(id);
            assert(candidates@ =~= ids_of(ordered@.take(count + 1)));
            count = count + 1;
        }
        let ghost ids = candidates@;
        proof {
            assert(self@.is_least(ordered@, new_metadata, count as int));
            assert(self@.is_collection_order(ordered@, new_metadata));
        }
        if (needs_record && count == 0) || funded < to_fund {
            let capacity = decimal_text(self.record_capacity as u64);
            let message = joined3(
                "retained Run capacity ",
                capacity.as_str(),
                " has no eligible exact replacement",
            );
            let result = Err(ProtocolError::new(ErrorCode::RunCapacity, message));
            assert(self@.selects(ordered@, new_metadata, count as int, selected_ids(result)));
            return CandidateSelection { evaluated: self.runs.len(), result };
        }
        if count > 1 && self.has_wide_reservation() {
            let result = Err(
                protocol_error(
                    ErrorCode::BackendUnavailable,
                    "persistent metadata replacement is already reserved",
                ),
            );
            assert(self@.selects(ordered@, new_metadata, count as int, selected_ids(result)));
            return CandidateSelection { evaluated: self.runs.len(), result };
        }
        proof {
            assert forall|k: int| 0 <= k < ids.len() implies self.is_eligible_id(
                #[trigger] ids[k],
                with_metadata,
            ) by {
                assert(ids[k] == (RunId { value: ordered@[k].id }));
            }
            assert forall|a: int, b: int| 0 <= a < b < ids.len() implies ids[a] != ids[b] by {
                assert(ordered@[a].id != ordered@[b].id);
            }
        }
        let result = Ok(candidates);
        assert(self@.selects(ordered@, new_metadata, count as int, selected_ids(result)));
        CandidateSelection { evaluated: self.runs.len(), result }
    }

    /// Whether an identity names a Run that may make place for another.
    pub open(crate) spec fn is_eligible_id(&self, id: RunId, with_metadata: bool) -> bool {
        exists|i: int|
            0 <= i < self@.runs.len() && (#[trigger] self@.runs[i]).facts.id == id && eligible(
                self@.runs[i],
                with_metadata,
            )
    }

    proof fn lemma_order_names_eligible_runs(
        &self,
        ordered: Seq<Ranked>,
        new_metadata: Option<u64>,
    )
        requires
            self@.valid(),
            ordered.to_multiset() == eligible_ranks(
                self@.runs,
                new_metadata is Some,
            ).to_multiset(),
        ensures
            forall|k: int|
                0 <= k < ordered.len() ==> self.is_eligible_id(
                    RunId { value: (#[trigger] ordered[k]).id },
                    new_metadata is Some,
                ),
            forall|a: int, b: int|
                0 <= a < b < ordered.len() ==> (#[trigger] ordered[a]).id != (
                #[trigger] ordered[b]).id,
    {
        broadcast use vstd::seq_lib::group_to_multiset_ensures;

        let with_metadata = new_metadata is Some;
        let ranks = eligible_ranks(self@.runs, with_metadata);
        assert forall|k: int| 0 <= k < ordered.len() implies self.is_eligible_id(
            RunId { value: (#[trigger] ordered[k]).id },
            with_metadata,
        ) by {
            assert(ordered.to_multiset().count(ordered[k]) > 0);
            assert(ranks.contains(ordered[k]));
            lemma_ranks_come_from_runs(self@.runs, with_metadata, ordered[k]);
        }
        assert(self@.runs.take(self@.runs.len() as int) =~= self@.runs);
        lemma_ranks_are_distinct(self@, self@.runs, with_metadata);
        assert forall|a: int, b: int| 0 <= a < b < ordered.len() implies (
        #[trigger] ordered[a]).id != (#[trigger] ordered[b]).id by {
            lemma_same_ids_stay_distinct(ordered, ranks, a, b);
        }
    }
}

/// Items that are a permutation of items with distinct identities have
/// distinct identities.
pub proof fn lemma_same_ids_stay_distinct(
    ordered: Seq<Ranked>,
    ranks: Seq<Ranked>,
    a: int,
    b: int,
)
    requires
        ordered.to_multiset() == ranks.to_multiset(),
        forall|i: int, j: int|
            0 <= i < j < ranks.len() ==> (#[trigger] ranks[i]).id != (#[trigger] ranks[j]).id,
        0 <= a < b < ordered.len(),
    ensures
        ordered[a].id != ordered[b].id,
{
    broadcast use vstd::seq_lib::group_to_multiset_ensures;

    if ordered[a].id == ordered[b].id {
        let first = ordered[a];
        let second = ordered[b];
        assert(ordered.to_multiset().count(first) > 0);
        assert(ordered.to_multiset().count(second) > 0);
        assert(ranks.contains(first) && ranks.contains(second));
        let i = choose|i: int| 0 <= i < ranks.len() && ranks[i] == first;
        let j = choose|j: int| 0 <= j < ranks.len() && ranks[j] == second;
        if i != j {
            if i < j {
                assert(ranks[i].id != ranks[j].id);
            } else {
                assert(ranks[j].id != ranks[i].id);
            }
        } else {
            // The same item occurs twice, which a permutation of distinct items
            // cannot hold.
            assert(ranks.no_duplicates()) by {
                assert forall|x: int, y: int| 0 <= x < y < ranks.len() implies ranks[x]
                    != ranks[y] by {
                    assert(ranks[x].id != ranks[y].id);
                }
            }
            ranks.lemma_multiset_has_no_duplicates();
            let rest = ordered.remove(b);
            assert(rest.insert(b, second) =~= ordered);
            lemma_insert_multiset(rest, b, second);
            assert(rest[a] == first);
            assert(rest.to_multiset().count(first) > 0);
            assert(ordered.to_multiset().count(first) >= 2);
            assert(ranks.to_multiset().count(first) <= 1);
        }
    }
}

} // verus!
