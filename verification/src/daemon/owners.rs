//! Owners of bounded creation work: the order of endings, creation flights,
//! and Runs that were started but never published.

use vstd::prelude::*;

use crate::daemon::fd_budget::MAX_CREATION_OWNER_SLOTS;
use crate::daemon::tmux_tracker::copied_cleanup;
use crate::identity::RunId;
use crate::order::{lemma_insert_multiset, sort_texts, texts_of, texts_sorted};
use crate::protocol::{protocol_error, ErrorCode, OperationKey, ProtocolError, RunState};
use crate::run_spec::{CreationRequest, CreationRequestView};
use crate::text::{joined, joined3};

verus! {

/// Place of one Run in the order in which Runs ended.
#[derive(Debug, Clone, Copy, PartialEq, Eq, Structural)]
pub struct TerminalOrdinal {
    pub number: u64,
}

/// Owner of the order in which Runs end.
pub struct TerminalPublicationOwner {
    last: u64,
}

impl TerminalPublicationOwner {
    /// The number of the Run that ended last; zero before any did.
    pub closed spec fn view(&self) -> u64 {
        self.last
    }

    /// An owner before any Run ended.
    pub fn new() -> (r: TerminalPublicationOwner)
        ensures
            r@ == 0,
    {
        TerminalPublicationOwner { last: 0 }
    }

    /// Restore the place of a Run that ended in an earlier incarnation. A Run
    /// has one place, so it has none yet.
    pub fn recover(&mut self, ordinal: &mut Option<TerminalOrdinal>)
        requires
            *old(ordinal) is None,
            old(self)@ < u64::MAX,
        ensures
            final(self)@ == old(self)@ + 1,
            *final(ordinal) == Some(TerminalOrdinal { number: final(self)@ }),
    {
        self.last = self.last + 1;
        *ordinal = Some(TerminalOrdinal { number: self.last });
    }

    /// Give a Run its place and make its end visible in one step. A Run ends
    /// once, so it has no place yet.
    pub fn publish(
        &mut self,
        ordinal: &mut Option<TerminalOrdinal>,
        state: &mut RunState,
        terminal: RunState,
    )
        requires
            *old(ordinal) is None,
            old(self)@ < u64::MAX,
        ensures
            final(self)@ == old(self)@ + 1,
            *final(ordinal) == Some(TerminalOrdinal { number: final(self)@ }),
            *final(state) == terminal,
    {
        self.last = self.last + 1;
        *ordinal = Some(TerminalOrdinal { number: self.last });
        *state = terminal;
    }
}

/// State of the creation flights.
pub struct FlightsView {
    pub accepting: bool,
    pub active: int,
    pub granted: int,
}

impl FlightsView {
    /// Flights that may still be granted.
    pub open spec fn available(&self) -> int {
        MAX_CREATION_OWNER_SLOTS - self.active - self.granted
    }

    /// No more flights than slots.
    pub open spec fn valid(&self) -> bool {
        self.active >= 0 && self.granted >= 0 && self.available() >= 0
    }
}

/// What a request for a slot gets.
#[derive(Debug, Clone, Copy, PartialEq, Eq, Structural)]
pub enum Admission {
    /// A slot; it has to be begun or dropped.
    Granted,
    /// No slot yet.
    Wait,
    /// No slot any more.
    Refused,
}

/// Bounded ownership of Runs that are being created.
pub struct CreationFlightOwner {
    accepting: bool,
    active: usize,
    granted: usize,
}

impl CreationFlightOwner {
    /// State of the flights.
    pub closed spec fn view(&self) -> FlightsView {
        FlightsView {
            accepting: self.accepting,
            active: self.active as int,
            granted: self.granted as int,
        }
    }

    /// An owner without flights.
    pub fn new() -> (r: CreationFlightOwner)
        ensures
            r@ == (FlightsView { accepting: true, active: 0, granted: 0 }),
            r@.valid(),
    {
        CreationFlightOwner { accepting: true, active: 0, granted: 0 }
    }

    /// Ask for one slot.
    pub fn acquire_admission(&mut self) -> (r: Admission)
        requires
            old(self)@.valid(),
        ensures
            final(self)@.valid(),
            if !old(self)@.accepting {
                r == Admission::Refused && final(self)@ == old(self)@
            } else if old(self)@.available() == 0 {
                r == Admission::Wait && final(self)@ == old(self)@
            } else {
                r == Admission::Granted && final(self)@ == (FlightsView {
                    granted: old(self)@.granted + 1,
                    ..old(self)@
                })
            },
    {
        if !self.accepting {
            return Admission::Refused;
        }
        if self.active + self.granted >= MAX_CREATION_OWNER_SLOTS {
            return Admission::Wait;
        }
        self.granted = self.granted + 1;
        Admission::Granted
    }

    /// Begin a flight with a granted slot, unless shutdown came first; then the
    /// slot is given back.
    pub fn try_begin(&mut self) -> (r: bool)
        requires
            old(self)@.valid(),
            old(self)@.granted > 0,
        ensures
            final(self)@.valid(),
            r == old(self)@.accepting,
            final(self)@ == (FlightsView {
                granted: old(self)@.granted - 1,
                active: old(self)@.active + (if r {
                    1int
                } else {
                    0
                }),
                ..old(self)@
            }),
    {
        self.granted = self.granted - 1;
        if !self.accepting {
            return false;
        }
        self.active = self.active + 1;
        true
    }

    /// End a flight; its slot is free again.
    pub fn finish(&mut self)
        requires
            old(self)@.valid(),
            old(self)@.active > 0,
        ensures
            final(self)@.valid(),
            final(self)@ == (FlightsView { active: old(self)@.active - 1, ..old(self)@ }),
    {
        self.active = self.active - 1;
    }

    /// Refuse further flights.
    pub fn fence(&mut self)
        requires
            old(self)@.valid(),
        ensures
            final(self)@.valid(),
            final(self)@ == (FlightsView { accepting: false, ..old(self)@ }),
    {
        self.accepting = false;
    }

    /// Decide the bounded wait for the last flight: `None` means to wait
    /// longer, and `Some` tells whether every flight ended in time.
    pub fn wait_until(&self, deadline_passed: bool) -> (r: Option<bool>)
        ensures
            r == (if self@.active == 0 {
                Some(true)
            } else if deadline_passed {
                Some(false)
            } else {
                None
            }),
    {
        if self.drained() {
            Some(true)
        } else if deadline_passed {
            Some(false)
        } else {
            None
        }
    }

    /// Whether no flight is left.
    pub fn drained(&self) -> (r: bool)
        ensures
            r == (self@.active == 0),
    {
        self.active == 0
    }

    /// Flights that have begun and not ended.
    pub fn active_count(&self) -> (r: usize)
        ensures
            r == self@.active,
    {
        self.active
    }

    /// Slots that may still be granted.
    pub fn available_admission(&self) -> (r: usize)
        requires
            self@.valid(),
        ensures
            r == self@.available(),
    {
        MAX_CREATION_OWNER_SLOTS - self.active - self.granted
    }
}

/// A Run that was started, never published, and is still being cleaned up.
/// `current` is its latest cleanup result.
#[derive(Debug, PartialEq, Eq)]
pub struct CleanupEntry {
    pub run: RunId,
    pub transfer_reason: String,
    pub current: Result<(), String>,
}

impl CleanupEntry {
    /// Whether the cleanup is proven.
    pub open spec fn proven(&self) -> bool {
        self.current is Ok
    }
}

/// A creation key that stays fenced while Runs of it are cleaned up.
#[derive(Debug, PartialEq, Eq)]
pub struct CleanupFence {
    pub key: OperationKey,
    pub request: CreationRequest,
    pub owners: Vec<CleanupEntry>,
}

/// The entries whose cleanup is not proven.
pub open spec fn unproven(entries: Seq<CleanupEntry>) -> Seq<CleanupEntry> {
    entries.filter(|entry: CleanupEntry| !entry.proven())
}

/// A fence by its key, its request and its Runs.
pub struct FenceView {
    pub key: Seq<char>,
    pub request: CreationRequestView,
    pub owners: Seq<CleanupEntry>,
}

impl CleanupFence {
    /// This fence by its key, its request and its Runs.
    pub open spec fn view(&self) -> FenceView {
        FenceView { key: self.key@, request: self.request@, owners: self.owners@ }
    }
}

/// Fences by their content.
pub open spec fn fence_views(fences: Seq<CleanupFence>) -> Seq<FenceView> {
    fences.map_values(|fence: CleanupFence| fence@)
}

/// A fence without its proven Runs.
pub open spec fn pruned_fence(fence: FenceView) -> FenceView {
    FenceView { owners: unproven(fence.owners), ..fence }
}

/// Fences without proven Runs, and without those that have no Run left.
pub open spec fn pruned_fences(fences: Seq<FenceView>) -> Seq<FenceView>
    decreases fences.len(),
{
    if fences.len() == 0 {
        seq![]
    } else {
        let rest = pruned_fences(fences.drop_last());
        let last = pruned_fence(fences.last());
        if last.owners.len() == 0 {
            rest
        } else {
            rest.push(last)
        }
    }
}

/// How many Runs the fences hold.
pub open spec fn fenced_runs(fences: Seq<FenceView>) -> int
    decreases fences.len(),
{
    if fences.len() == 0 {
        0
    } else {
        fenced_runs(fences.drop_last()) + fences.last().owners.len()
    }
}

/// Ownership of started and unpublished Runs.
pub struct CleanupView {
    pub owned: int,
    pub fences: Seq<FenceView>,
    pub tmux: Seq<CleanupEntry>,
}

impl CleanupView {
    /// Runs that are being cleaned up.
    pub open spec fn transferred(&self) -> int {
        fenced_runs(self.fences) + self.tmux.len()
    }

    /// Publications that are still under way.
    pub open spec fn reserved(&self) -> int {
        self.owned - self.transferred()
    }

    /// The bound holds over publications and cleanups together, and a key is
    /// fenced once.
    pub open spec fn valid(&self) -> bool {
        &&& self.reserved() >= 0
        &&& self.owned <= MAX_CREATION_OWNER_SLOTS
        &&& forall|i: int, j: int|
            0 <= i < j < self.fences.len() ==> (#[trigger] self.fences[i]).key != (
            #[trigger] self.fences[j]).key
    }

    /// The ownership without proven cleanups.
    pub open spec fn pruned(&self) -> CleanupView {
        let fences = pruned_fences(self.fences);
        let tmux = unproven(self.tmux);
        CleanupView {
            owned: self.owned - (self.transferred() - (fenced_runs(fences) + tmux.len())),
            fences,
            tmux,
        }
    }

    /// The ownership after the result of one Run was noted.
    pub open spec fn noted(&self, run: RunId, current: Result<(), String>) -> CleanupView {
        CleanupView {
            fences: self.fences.map_values(
                |fence: FenceView| noted_fence(fence, run, current),
            ),
            tmux: noted_entries(self.tmux, run, current),
            ..*self
        }
    }

    /// Whether `after` is this ownership with one publication turned into a
    /// cleanup that fences its key.
    pub open spec fn transfers(
        &self,
        key: Seq<char>,
        request: CreationRequestView,
        entry: CleanupEntry,
        after: CleanupView,
    ) -> bool {
        &&& after.owned == self.owned
        &&& after.tmux == self.tmux
        &&& match self.fence_of(key) {
            None => after.fences == self.fences.push(
                FenceView { key, request, owners: seq![entry] },
            ),
            Some(fence) => exists|place: int|
                0 <= place < self.fences.len() && (#[trigger] self.fences[place]) == fence
                    && after.fences == self.fences.update(
                    place,
                    FenceView { owners: fence.owners.push(entry), ..fence },
                ),
        }
    }

    /// The fence of a key.
    pub open spec fn fence_of(&self, key: Seq<char>) -> Option<FenceView> {
        if exists|i: int| 0 <= i < self.fences.len() && (#[trigger] self.fences[i]).key == key {
            Some(
                self.fences[choose|i: int|
                    0 <= i < self.fences.len() && (#[trigger] self.fences[i]).key == key],
            )
        } else {
            None
        }
    }
}

impl CleanupView {
    /// A handover takes one publication and fences its key with the Run.
    pub proof fn lemma_transfer_counts(
        self,
        key: Seq<char>,
        request: CreationRequestView,
        entry: CleanupEntry,
        after: CleanupView,
    )
        requires
            self.valid(),
            self.transfers(key, request, entry, after),
        ensures
            after.reserved() == self.reserved() - 1,
            after.fence_of(key) matches Some(fence) && fence.owners.contains(entry),
            after.tmux == self.tmux,
    {
        match self.fence_of(key) {
            None => {
                assert(after.fences.drop_last() =~= self.fences);
                let place = after.fences.len() - 1;
                assert(after.fences[place].key == key);
                assert forall|i: int| 0 <= i < self.fences.len() implies (
                #[trigger] after.fences[i]).key != key by {
                    assert(after.fences[i] == self.fences[i]);
                }
                assert(after.fences[place].owners[0] == entry);
            },
            Some(fence) => {
                let place = choose|place: int|
                    0 <= place < self.fences.len() && (#[trigger] self.fences[place]) == fence
                        && after.fences == self.fences.update(
                        place,
                        FenceView { owners: fence.owners.push(entry), ..fence },
                    );
                let grown = FenceView { owners: fence.owners.push(entry), ..fence };
                lemma_fenced_runs_update(self.fences, place, grown);
                let chosen = choose|i: int|
                    0 <= i < self.fences.len() && (#[trigger] self.fences[i]).key == key;
                assert(self.fences[chosen].key == key);
                assert(fence.key == key);
                assert(after.fences[place] == grown);
                assert forall|i: int| 0 <= i < after.fences.len() && i != place implies (
                #[trigger] after.fences[i]).key != key by {
                    if i < place {
                        assert(self.fences[i].key != self.fences[place].key);
                    } else {
                        assert(self.fences[place].key != self.fences[i].key);
                    }
                }
                assert(grown.owners[fence.owners.len() as int] == entry);
            },
        }
    }
}

/// Entries after the result of one Run was noted.
pub open spec fn noted_entries(
    entries: Seq<CleanupEntry>,
    run: RunId,
    current: Result<(), String>,
) -> Seq<CleanupEntry> {
    entries.map_values(
        |entry: CleanupEntry|
            if entry.run == run {
                CleanupEntry { current, ..entry }
            } else {
                entry
            },
    )
}

/// A fence after the result of one Run was noted.
pub open spec fn noted_fence(
    fence: FenceView,
    run: RunId,
    current: Result<(), String>,
) -> FenceView {
    FenceView { owners: noted_entries(fence.owners, run, current), ..fence }
}

proof fn lemma_noting_keeps_counts(
    fences: Seq<FenceView>,
    run: RunId,
    current: Result<(), String>,
)
    ensures
        fenced_runs(
            fences.map_values(|fence: FenceView| noted_fence(fence, run, current)),
        ) == fenced_runs(fences),
    decreases fences.len(),
{
    let noted = fences.map_values(|fence: FenceView| noted_fence(fence, run, current));
    if fences.len() > 0 {
        lemma_noting_keeps_counts(fences.drop_last(), run, current);
        assert(noted.drop_last() =~= fences.drop_last().map_values(
            |fence: FenceView| noted_fence(fence, run, current),
        ));
    }
}

fn note_entries(entries: &mut Vec<CleanupEntry>, run: RunId, current: &Result<(), String>)
    ensures
        final(entries)@ == noted_entries(old(entries)@, run, *current),
{
    let ghost before = entries@;
    let mut i: usize = 0;
    while i < entries.len()
        invariant
            i <= entries@.len(),
            entries@.len() == before.len(),
            forall|k: int|
                0 <= k < i ==> #[trigger] entries@[k] == noted_entries(before, run, *current)[k],
            forall|k: int| i <= k < entries@.len() ==> #[trigger] entries@[k] == before[k],
        decreases entries@.len() - i,
    {
        if entries[i].run == run {
            entries[i].current = copied_cleanup(current);
        }
        i = i + 1;
    }
    assert(entries@ =~= noted_entries(before, run, *current));
}

proof fn lemma_unproven_is_shorter(entries: Seq<CleanupEntry>)
    ensures
        unproven(entries).len() <= entries.len(),
    decreases entries.len(),
{
    reveal(Seq::filter);
    if entries.len() > 0 {
        lemma_unproven_is_shorter(entries.drop_last());
    }
}

proof fn lemma_unproven_push(entries: Seq<CleanupEntry>, entry: CleanupEntry)
    ensures
        unproven(entries.push(entry)) == (if entry.proven() {
            unproven(entries)
        } else {
            unproven(entries).push(entry)
        }),
{
    reveal(Seq::filter);
    assert(entries.push(entry).drop_last() =~= entries);
}

proof fn lemma_pruned_fences(fences: Seq<FenceView>)
    ensures
        0 <= fenced_runs(pruned_fences(fences)) <= fenced_runs(fences),
        pruned_fences(fences).len() <= fences.len(),
        forall|i: int|
            0 <= i < pruned_fences(fences).len() ==> exists|k: int|
                0 <= k < fences.len() && (#[trigger] pruned_fences(fences)[i]) == pruned_fence(
                    #[trigger] fences[k],
                ),
    decreases fences.len(),
{
    if fences.len() > 0 {
        let shorter = fences.drop_last();
        lemma_pruned_fences(shorter);
        lemma_unproven_is_shorter(fences.last().owners);
        let rest = pruned_fences(shorter);
        let last = pruned_fence(fences.last());
        assert(rest.push(last).drop_last() =~= rest);
        let all = pruned_fences(fences);
        assert forall|i: int| 0 <= i < all.len() implies exists|k: int|
            0 <= k < fences.len() && (#[trigger] all[i]) == pruned_fence(#[trigger] fences[k]) by {
            if i < rest.len() {
                let k = choose|k: int|
                    0 <= k < shorter.len() && rest[i] == pruned_fence(#[trigger] shorter[k]);
                assert(fences[k] == shorter[k]);
            } else {
                assert(all[i] == pruned_fence(fences[fences.len() - 1]));
            }
        }
    }
}

proof fn lemma_pruned_keys_stay_distinct(fences: Seq<FenceView>)
    requires
        forall|i: int, j: int|
            0 <= i < j < fences.len() ==> (#[trigger] fences[i]).key != (#[trigger] fences[j]).key,
    ensures
        forall|i: int, j: int|
            0 <= i < j < pruned_fences(fences).len() ==> (#[trigger] pruned_fences(fences)[i]).key
                != (#[trigger] pruned_fences(fences)[j]).key,
    decreases fences.len(),
{
    if fences.len() > 0 {
        let shorter = fences.drop_last();
        lemma_pruned_keys_stay_distinct(shorter);
        lemma_pruned_fences(shorter);
        let rest = pruned_fences(shorter);
        let all = pruned_fences(fences);
        assert forall|i: int, j: int| 0 <= i < j < all.len() implies (#[trigger] all[i]).key != (
        #[trigger] all[j]).key by {
            if j == rest.len() {
                let k = choose|k: int|
                    0 <= k < shorter.len() && rest[i] == pruned_fence(#[trigger] shorter[k]);
                assert(fences[k] == shorter[k]);
                assert(fences[k].key != fences[fences.len() - 1].key);
            }
        }
    }
}

/// Dropping proven cleanups frees exactly their slots and keeps every
/// publication that is under way.
pub proof fn law_pruning_frees_only_proven_slots(owner: CleanupView)
    requires
        owner.valid(),
    ensures
        owner.pruned().valid(),
        owner.pruned().owned <= owner.owned,
        owner.pruned().reserved() == owner.reserved(),
{
    lemma_pruned_fences(owner.fences);
    lemma_unproven_is_shorter(owner.tmux);
    lemma_pruned_keys_stay_distinct(owner.fences);
}

fn prune_entries(entries: Vec<CleanupEntry>) -> (r: Vec<CleanupEntry>)
    ensures
        r@ == unproven(entries@),
{
    let mut rest = entries;
    let ghost given = rest@;
    let mut kept: Vec<CleanupEntry> = Vec::new();
    // Entries leave from the end, so they are first brought into reverse order.
    let mut reversed: Vec<CleanupEntry> = Vec::new();
    assert(given.take(given.len() as int) =~= given);
    while rest.len() > 0
        invariant
            rest@ == given.take(rest@.len() as int),
            rest@.len() + reversed@.len() == given.len(),
            forall|k: int|
                0 <= k < reversed@.len() ==> #[trigger] reversed@[k] == given[given.len() - 1 - k],
        decreases rest@.len(),
    {
        match rest.pop() {
            Some(entry) => {
                assert(rest@ =~= given.take(rest@.len() as int));
                reversed.push(entry);
            },
            None => {},
        }
    }
    assert(given.take(0) =~= seq![]);
    proof {
        reveal(Seq::filter);
    }
    while reversed.len() > 0
        invariant
            reversed@.len() <= given.len(),
            forall|k: int|
                0 <= k < reversed@.len() ==> #[trigger] reversed@[k] == given[given.len() - 1 - k],
            kept@ == unproven(given.take(given.len() - reversed@.len())),
        decreases reversed@.len(),
    {
        let ghost done = given.len() - reversed@.len();
        match reversed.pop() {
            Some(entry) => {
                proof {
                    assert(entry == given[done]);
                    assert(given.take(done + 1) =~= given.take(done).push(entry));
                    lemma_unproven_push(given.take(done), entry);
                }
                if let Err(_) = &entry.current {
                    kept.push(entry);
                }
            },
            None => {},
        }
    }
    assert(given.take(given.len() as int) =~= given);
    kept
}

/// The line that reports a native Run under cleanup.
pub open spec fn native_report(entry: CleanupEntry) -> Seq<char> {
    "unpublished Run "@ + entry.run.text() + (" exact-key fence: "@ + entry.transfer_reason@ + (
    "; "@ + entry.current->Err_0@))
}

/// The line that reports a tmux Run under cleanup.
pub open spec fn tmux_report(entry: CleanupEntry) -> Seq<char> {
    "unpublished tmux Run "@ + entry.run.text() + (" cleanup: "@ + entry.transfer_reason@ + ("; "@
        + entry.current->Err_0@))
}

/// The lines of some native Runs.
pub open spec fn native_reports(entries: Seq<CleanupEntry>) -> Seq<Seq<char>> {
    entries.map_values(|entry: CleanupEntry| native_report(entry))
}

/// The lines of the Runs of some fences.
pub open spec fn fence_reports(fences: Seq<FenceView>) -> Seq<Seq<char>>
    decreases fences.len(),
{
    if fences.len() == 0 {
        seq![]
    } else {
        fence_reports(fences.drop_last()) + native_reports(fences.last().owners)
    }
}

/// The lines of some tmux Runs.
pub open spec fn tmux_reports(entries: Seq<CleanupEntry>) -> Seq<Seq<char>> {
    entries.map_values(|entry: CleanupEntry| tmux_report(entry))
}

fn write_report(prefix: &str, middle: &str, entry: &CleanupEntry, current: &String) -> (r: String)
    ensures
        r@ == prefix@ + entry.run.text() + (middle@ + entry.transfer_reason@ + ("; "@ + current@)),
{
    let run = entry.run.to_text();
    let ending = joined("; ", current.as_str());
    let why = joined3(middle, entry.transfer_reason.as_str(), ending.as_str());
    joined3(prefix, run.as_str(), why.as_str())
}

/// Bounded ownership of started and unpublished Runs.
pub struct UnpublishedCleanupOwner {
    owned: usize,
    fences: Vec<CleanupFence>,
    tmux_entries: Vec<CleanupEntry>,
}

impl UnpublishedCleanupOwner {
    /// What is owned.
    pub closed spec fn view(&self) -> CleanupView {
        CleanupView {
            owned: self.owned as int,
            fences: fence_views(self.fences@),
            tmux: self.tmux_entries@,
        }
    }

    /// An owner of nothing.
    pub fn new() -> (r: UnpublishedCleanupOwner)
        ensures
            r@.valid(),
            r@ == (CleanupView { owned: 0, fences: seq![], tmux: seq![] }),
    {
        let r = UnpublishedCleanupOwner {
            owned: 0,
            fences: Vec::new(),
            tmux_entries: Vec::new(),
        };
        assert(r@.fences =~= seq![]);
        assert(r@.tmux =~= seq![]);
        r
    }

    /// How many publications and cleanups are owned.
    pub fn owned_count(&self) -> (r: usize)
        ensures
            r == self@.owned,
    {
        self.owned
    }

    /// How many Runs are being cleaned up.
    pub fn cleanup_count(&self) -> (r: usize)
        requires
            self@.valid(),
        ensures
            r == self@.transferred(),
    {
        let ghost fences = self@.fences;
        let mut fenced: usize = 0;
        let mut i: usize = 0;
        assert(fences.take(0) =~= seq![]);
        while i < self.fences.len()
            invariant
                self@.valid(),
                fences == self@.fences,
                i <= fences.len(),
                fences.len() == self.fences@.len(),
                fenced == fenced_runs(fences.take(i as int)),
            decreases fences.len() - i,
        {
            proof {
                assert(fences.take(i + 1).drop_last() =~= fences.take(i as int));
                lemma_fenced_runs_grow(fences, i + 1);
                assert(fences[i as int] == self.fences@[i as int]@);
            }
            fenced = fenced + self.fences[i].owners.len();
            i = i + 1;
        }
        assert(fences.take(i as int) =~= fences);
        fenced + self.tmux_entries.len()
    }

    fn prune_reaped(&mut self)
        requires
            old(self)@.valid(),
        ensures
            final(self)@.valid(),
            final(self)@ == old(self)@.pruned(),
    {
        let ghost before = self@;
        let mut given: Vec<CleanupFence> = Vec::new();
        given.append(&mut self.fences);
        let mut tmux_given: Vec<CleanupEntry> = Vec::new();
        tmux_given.append(&mut self.tmux_entries);
        let ghost originals = given@;
        let ghost all = fence_views(originals);
        proof {
            law_pruning_frees_only_proven_slots(before);
            assert(given@ =~= old(self).fences@);
            assert(tmux_given@ =~= before.tmux);
            lemma_unproven_is_shorter(before.tmux);
            assert(originals.take(originals.len() as int) =~= originals);
            assert(all.take(0) =~= seq![]);
            assert(all.take(all.len() as int) =~= all);
        }
        let mut reversed: Vec<CleanupFence> = Vec::new();
        while given.len() > 0
            invariant
                given@ == originals.take(given@.len() as int),
                given@.len() + reversed@.len() == originals.len(),
                forall|k: int|
                    0 <= k < reversed@.len() ==> #[trigger] reversed@[k]
                        == originals[originals.len() - 1 - k],
            decreases given@.len(),
        {
            match given.pop() {
                Some(fence) => {
                    assert(given@ =~= originals.take(given@.len() as int));
                    reversed.push(fence);
                },
                None => {},
            }
        }
        let mut fences: Vec<CleanupFence> = Vec::new();
        let mut reaped: usize = 0;
        assert(fence_views(fences@) =~= seq![]);
        while reversed.len() > 0
            invariant
                all == fence_views(originals),
                all.take(all.len() as int) == all,
                reversed@.len() <= originals.len(),
                forall|k: int|
                    0 <= k < reversed@.len() ==> #[trigger] reversed@[k]
                        == originals[originals.len() - 1 - k],
                fence_views(fences@) == pruned_fences(all.take(all.len() - reversed@.len())),
                reaped == fenced_runs(all.take(all.len() - reversed@.len())) - fenced_runs(
                    fence_views(fences@),
                ),
                fenced_runs(all) <= usize::MAX,
            decreases reversed@.len(),
        {
            let ghost done = all.len() - reversed@.len();
            match reversed.pop() {
                Some(fence) => {
                    let ghost original = fence@;
                    let CleanupFence { key, request, owners } = fence;
                    let count: usize = owners.len();
                    let owners = prune_entries(owners);
                    proof {
                        assert(original == all[done]);
                        assert(all.take(done + 1).drop_last() =~= all.take(done));
                        lemma_fenced_runs_grow(all, done + 1);
                        lemma_pruned_fences(all.take(done + 1));
                        lemma_pruned_fences(all.take(done));
                        lemma_unproven_is_shorter(original.owners);
                    }
                    reaped = reaped + (count - owners.len());
                    if owners.len() > 0 {
                        let ghost before_fences = fences@;
                        fences.push(CleanupFence { key, request, owners });
                        proof {
                            assert(fence_views(fences@) =~= fence_views(before_fences).push(
                                pruned_fence(original),
                            ));
                            assert(fence_views(fences@).drop_last() =~= fence_views(
                                before_fences,
                            ));
                        }
                    }
                },
                None => {},
            }
        }
        let tmux_count: usize = tmux_given.len();
        let tmux_entries = prune_entries(tmux_given);
        proof {
            assert(all == before.fences);
            lemma_pruned_fences(all);
        }
        self.owned = self.owned - reaped - (tmux_count - tmux_entries.len());
        self.fences = fences;
        self.tmux_entries = tmux_entries;
    }

    fn find_fence(&self, key: &OperationKey) -> (r: Option<usize>)
        ensures
            match r {
                Some(place) => place < self@.fences.len() && self@.fences[place as int].key
                    == key@,
                None => forall|k: int|
                    0 <= k < self@.fences.len() ==> (#[trigger] self@.fences[k]).key != key@,
            },
    {
        let mut i: usize = 0;
        while i < self.fences.len()
            invariant
                i <= self.fences@.len(),
                forall|k: int| 0 <= k < i ==> (#[trigger] self@.fences[k]).key != key@,
            decreases self.fences@.len() - i,
        {
            assert(self@.fences[i as int] == self.fences@[i as int]@);
            if self.fences[i].key.same(key) {
                return Some(i);
            }
            i = i + 1;
        }
        None
    }

    /// Decide whether a creation may go on with this key: not while Runs of the
    /// key are being cleaned up.
    pub fn resolve_fence(&mut self, key: &OperationKey, request: &CreationRequest) -> (r: Result<
        (),
        ProtocolError,
    >)
        requires
            old(self)@.valid(),
        ensures
            final(self)@.valid(),
            final(self)@ == old(self)@.pruned(),
            match old(self)@.pruned().fence_of(key@) {
                None => r is Ok,
                Some(fence) => if fence.request == request@ {
                    r matches Err(e) && e.says(
                        ErrorCode::BackendUnavailable,
                        "Run creation is fenced while unpublished native owners remain active"@,
                    )
                } else {
                    r matches Err(e) && e.says(
                        ErrorCode::CreationConflict,
                        "Run creation operation key is fenced for a different request"@,
                    )
                },
            },
    {
        self.prune_reaped();
        match self.find_fence(key) {
            None => Ok(()),
            Some(place) => {
                proof {
                    lemma_fence_of(self@, key@, place as int);
                }
                assert(self@.fences[place as int] == self.fences@[place as int]@);
                if self.fences[place].request.same(request) {
                    Err(
                        protocol_error(
                            ErrorCode::BackendUnavailable,
                            "Run creation is fenced while unpublished native owners remain active",
                        ),
                    )
                } else {
                    Err(
                        protocol_error(
                            ErrorCode::CreationConflict,
                            "Run creation operation key is fenced for a different request",
                        ),
                    )
                }
            },
        }
    }

    /// Take one slot for a native Run or a tmux import, before anything is
    /// started.
    pub fn reserve(&mut self) -> (r: Result<(), ProtocolError>)
        requires
            old(self)@.valid(),
        ensures
            final(self)@.valid(),
            ({
                let pruned = old(self)@.pruned();
                if pruned.owned >= MAX_CREATION_OWNER_SLOTS {
                    &&& r matches Err(e) && e.says(
                        ErrorCode::BackendUnavailable,
                        "Run publication cleanup capacity is exhausted"@,
                    )
                    &&& final(self)@ == pruned
                } else {
                    &&& r is Ok
                    &&& final(self)@ == (CleanupView { owned: pruned.owned + 1, ..pruned })
                }
            }),
    {
        self.prune_reaped();
        if self.owned >= MAX_CREATION_OWNER_SLOTS {
            return Err(
                protocol_error(
                    ErrorCode::BackendUnavailable,
                    "Run publication cleanup capacity is exhausted",
                ),
            );
        }
        self.owned = self.owned + 1;
        Ok(())
    }

    /// Give a slot back: its Run was published, or nothing is left of it.
    pub fn release(&mut self)
        requires
            old(self)@.valid(),
            old(self)@.reserved() > 0,
        ensures
            final(self)@.valid(),
            final(self)@ == (CleanupView { owned: old(self)@.owned - 1, ..old(self)@ }),
    {
        proof {
            lemma_fenced_runs_nonnegative(self@.fences);
        }
        self.owned = self.owned - 1;
    }

    /// Turn a publication that failed into a cleanup. The key stays fenced
    /// until the cleanup is proven; the slot stays taken.
    pub fn transfer(
        &mut self,
        key: OperationKey,
        request: CreationRequest,
        run: RunId,
        transfer_reason: String,
        current: Result<(), String>,
    )
        requires
            old(self)@.valid(),
            old(self)@.reserved() > 0,
        ensures
            final(self)@.valid(),
            old(self)@.transfers(
                key@,
                request@,
                CleanupEntry { run, transfer_reason, current },
                final(self)@,
            ),
    {
        let ghost before = self@;
        let entry = CleanupEntry { run, transfer_reason, current };
        match self.find_fence(&key) {
            None => {
                let mut owners: Vec<CleanupEntry> = Vec::new();
                owners.push(entry);
                let ghost added = FenceView { key: key@, request: request@, owners: owners@ };
                assert(owners@ =~= seq![entry]);
                self.fences.push(CleanupFence { key, request, owners });
                proof {
                    assert(self@.fences =~= before.fences.push(added));
                    assert(before.fences.push(added).drop_last() =~= before.fences);
                    assert forall|i: int, j: int| 0 <= i < j < self@.fences.len() implies (
                    #[trigger] self@.fences[i]).key != (#[trigger] self@.fences[j]).key by {
                        assert(self@.fences[i] == before.fences[i]);
                    }
                }
            },
            Some(place) => {
                proof {
                    lemma_fence_of(before, key@, place as int);
                }
                let mut fence = self.fences.remove(place);
                let ghost original = fence@;
                assert(original == before.fences[place as int]);
                fence.owners.push(entry);
                let ghost grown = fence@;
                assert(grown == (FenceView { owners: original.owners.push(entry), ..original }));
                self.fences.insert(place, fence);
                proof {
                    assert(self@.fences =~= before.fences.update(place as int, grown));
                    lemma_fenced_runs_update(before.fences, place as int, grown);
                    assert forall|i: int, j: int| 0 <= i < j < self@.fences.len() implies (
                    #[trigger] self@.fences[i]).key != (#[trigger] self@.fences[j]).key by {
                        assert(before.fences[i].key != before.fences[j].key);
                    }
                }
            },
        }
    }

    /// Turn a tmux import that failed into a cleanup; the slot stays taken.
    pub fn transfer_tmux(
        &mut self,
        run: RunId,
        transfer_reason: String,
        current: Result<(), String>,
    )
        requires
            old(self)@.valid(),
            old(self)@.reserved() > 0,
        ensures
            final(self)@.valid(),
            final(self)@ == (CleanupView {
                tmux: old(self)@.tmux.push(CleanupEntry { run, transfer_reason, current }),
                ..old(self)@
            }),
    {
        self.tmux_entries.push(CleanupEntry { run, transfer_reason, current });
    }

    /// Note the latest cleanup result of a Run.
    pub fn note_cleanup(&mut self, run: RunId, current: &Result<(), String>)
        requires
            old(self)@.valid(),
        ensures
            final(self)@.valid(),
            final(self)@ == old(self)@.noted(run, *current),
    {
        let ghost before = self@;
        let mut i: usize = 0;
        while i < self.fences.len()
            invariant
                i <= self.fences@.len(),
                self.fences@.len() == before.fences.len(),
                self.owned == before.owned,
                self.tmux_entries@ == before.tmux,
                forall|k: int|
                    0 <= k < i ==> (#[trigger] self.fences@[k])@ == noted_fence(
                        before.fences[k],
                        run,
                        *current,
                    ),
                forall|k: int|
                    i <= k < self.fences@.len() ==> (#[trigger] self.fences@[k])@
                        == before.fences[k],
            decreases self.fences@.len() - i,
        {
            note_entries(&mut self.fences[i].owners, run, current);
            i = i + 1;
        }
        note_entries(&mut self.tmux_entries, run, current);
        proof {
            assert(self@.fences =~= before.noted(run, *current).fences);
            lemma_noting_keeps_counts(before.fences, run, *current);
            assert forall|i: int, j: int| 0 <= i < j < self@.fences.len() implies (
            #[trigger] self@.fences[i]).key != (#[trigger] self@.fences[j]).key by {
                assert(before.fences[i].key != before.fences[j].key);
            }
        }
    }

    /// Decide the bounded wait for cleanups that were handed over: `None` means
    /// to wait longer; otherwise every cleanup is proven, or the deadline has
    /// passed and the rest is reported.
    pub fn wait_until(&mut self, deadline_passed: bool) -> (r: Option<Vec<String>>)
        requires
            old(self)@.valid(),
        ensures
            final(self)@.valid(),
            final(self)@ == old(self)@.pruned(),
            ({
                let lines = fence_reports(final(self)@.fences) + tmux_reports(final(self)@.tmux);
                if lines.len() == 0 || deadline_passed {
                    r matches Some(report) && texts_sorted(texts_of(report@)) && texts_of(
                        report@,
                    ).to_multiset() == lines.to_multiset()
                } else {
                    r is None
                }
            }),
    {
        broadcast use vstd::seq_lib::group_to_multiset_ensures;

        let report = self.prune_and_report();
        proof {
            let lines = fence_reports(self@.fences) + tmux_reports(self@.tmux);
            assert(texts_of(report@).to_multiset().len() == lines.to_multiset().len());
            assert(texts_of(report@).len() == lines.len());
            assert(report@.len() == lines.len());
        }
        if report.len() == 0 || deadline_passed {
            Some(report)
        } else {
            None
        }
    }

    /// Drop proven cleanups and report the others, in the order of their lines.
    pub fn prune_and_report(&mut self) -> (r: Vec<String>)
        requires
            old(self)@.valid(),
        ensures
            final(self)@.valid(),
            final(self)@ == old(self)@.pruned(),
            texts_sorted(texts_of(r@)),
            texts_of(r@).to_multiset() == (fence_reports(final(self)@.fences) + tmux_reports(
                final(self)@.tmux,
            )).to_multiset(),
    {
        self.prune_reaped();
        let ghost fences = self@.fences;
        let mut lines: Vec<String> = Vec::new();
        let mut i: usize = 0;
        assert(fences.take(0) =~= seq![]);
        assert(texts_of(lines@) =~= seq![]);
        proof {
            lemma_pruned_are_unproven(old(self)@);
        }
        while i < self.fences.len()
            invariant
                fences == self@.fences,
                all_unproven(self@),
                i <= self.fences@.len(),
                texts_of(lines@) == fence_reports(fences.take(i as int)),
            decreases self.fences@.len() - i,
        {
            let ghost earlier = texts_of(lines@);
            let owners = &self.fences[i].owners;
            assert(fences[i as int].owners == owners@);
            let mut j: usize = 0;
            assert(native_reports(owners@.take(0)) =~= seq![]);
            assert(earlier + native_reports(owners@.take(0)) =~= earlier);
            while j < owners.len()
                invariant
                    j <= owners@.len(),
                    forall|k: int| 0 <= k < owners@.len() ==> !(#[trigger] owners@[k]).proven(),
                    texts_of(lines@) == earlier + native_reports(owners@.take(j as int)),
                decreases owners@.len() - j,
            {
                let ghost so_far = lines@;
                let entry = &owners[j];
                if let Err(current) = &entry.current {
                    lines.push(
                        write_report("unpublished Run ", " exact-key fence: ", entry, current),
                    );
                }
                proof {
                    assert(!owners@[j as int].proven());
                    assert(texts_of(lines@) =~= texts_of(so_far).push(native_report(*entry)));
                    assert(native_reports(owners@.take(j + 1)) =~= native_reports(
                        owners@.take(j as int),
                    ).push(native_report(*entry)));
                    assert(texts_of(lines@) =~= earlier + native_reports(owners@.take(j + 1)));
                }
                j = j + 1;
            }
            proof {
                assert(owners@.take(j as int) =~= owners@);
                assert(fences.take(i + 1).drop_last() =~= fences.take(i as int));
            }
            i = i + 1;
        }
        assert(fences.take(i as int) =~= fences);
        let ghost natives = fence_reports(fences);
        let mut k: usize = 0;
        assert(tmux_reports(self@.tmux.take(0)) =~= seq![]);
        assert(natives + tmux_reports(self@.tmux.take(0)) =~= natives);
        while k < self.tmux_entries.len()
            invariant
                all_unproven(self@),
                k <= self.tmux_entries@.len(),
                texts_of(lines@) == natives + tmux_reports(self@.tmux.take(k as int)),
            decreases self.tmux_entries@.len() - k,
        {
            let ghost so_far = lines@;
            let entry = &self.tmux_entries[k];
            if let Err(current) = &entry.current {
                lines.push(write_report("unpublished tmux Run ", " cleanup: ", entry, current));
            }
            proof {
                assert(!self@.tmux[k as int].proven());
                assert(texts_of(lines@) =~= texts_of(so_far).push(tmux_report(*entry)));
                assert(tmux_reports(self@.tmux.take(k + 1)) =~= tmux_reports(
                    self@.tmux.take(k as int),
                ).push(tmux_report(*entry)));
                assert(texts_of(lines@) =~= natives + tmux_reports(self@.tmux.take(k + 1)));
            }
            k = k + 1;
        }
        assert(self@.tmux.take(k as int) =~= self@.tmux);
        let ghost unsorted = lines@;
        let sorted = sort_texts(lines);
        proof {
            lemma_texts_multiset(sorted@, unsorted);
        }
        sorted
    }
}

/// Whether no cleanup of an ownership is proven.
pub open spec fn all_unproven(owner: CleanupView) -> bool {
    &&& forall|i: int, k: int|
        0 <= i < owner.fences.len() && 0 <= k < owner.fences[i].owners.len()
            ==> !(#[trigger] owner.fences[i].owners[k]).proven()
    &&& forall|k: int| 0 <= k < owner.tmux.len() ==> !(#[trigger] owner.tmux[k]).proven()
}

proof fn lemma_unproven_has_none_proven(entries: Seq<CleanupEntry>)
    ensures
        forall|k: int|
            0 <= k < unproven(entries).len() ==> !(#[trigger] unproven(entries)[k]).proven(),
    decreases entries.len(),
{
    reveal(Seq::filter);
    if entries.len() > 0 {
        lemma_unproven_has_none_proven(entries.drop_last());
        lemma_unproven_push(entries.drop_last(), entries.last());
        assert(entries.drop_last().push(entries.last()) =~= entries);
    }
}

/// After pruning no proven cleanup is left.
proof fn lemma_pruned_are_unproven(owner: CleanupView)
    ensures
        all_unproven(owner.pruned()),
{
    let after = owner.pruned();
    lemma_unproven_has_none_proven(owner.tmux);
    lemma_pruned_fences(owner.fences);
    assert forall|i: int, k: int|
        0 <= i < after.fences.len() && 0 <= k < after.fences[i].owners.len() implies !(
    #[trigger] after.fences[i].owners[k]).proven() by {
        let source = choose|p: int|
            0 <= p < owner.fences.len() && after.fences[i] == pruned_fence(
                #[trigger] owner.fences[p],
            );
        lemma_unproven_has_none_proven(owner.fences[source].owners);
    }
}

proof fn lemma_fenced_runs_nonnegative(fences: Seq<FenceView>)
    ensures
        fenced_runs(fences) >= 0,
    decreases fences.len(),
{
    if fences.len() > 0 {
        lemma_fenced_runs_nonnegative(fences.drop_last());
    }
}

proof fn lemma_fenced_runs_grow(fences: Seq<FenceView>, count: int)
    requires
        0 <= count <= fences.len(),
    ensures
        fenced_runs(fences.take(count)) <= fenced_runs(fences),
    decreases fences.len(),
{
    if count == fences.len() {
        assert(fences.take(count) =~= fences);
    } else {
        lemma_fenced_runs_grow(fences.drop_last(), count);
        assert(fences.drop_last().take(count) =~= fences.take(count));
    }
}

proof fn lemma_fenced_runs_update(fences: Seq<FenceView>, place: int, fence: FenceView)
    requires
        0 <= place < fences.len(),
    ensures
        fenced_runs(fences.update(place, fence)) == fenced_runs(fences) - fences[place].owners.len()
            + fence.owners.len(),
    decreases fences.len(),
{
    let updated = fences.update(place, fence);
    if place == fences.len() - 1 {
        assert(updated.drop_last() =~= fences.drop_last());
    } else {
        lemma_fenced_runs_update(fences.drop_last(), place, fence);
        assert(updated.drop_last() =~= fences.drop_last().update(place, fence));
        assert(updated.last() == fences.last());
    }
}

proof fn lemma_fence_of(owner: CleanupView, key: Seq<char>, place: int)
    requires
        owner.valid(),
        0 <= place < owner.fences.len(),
        owner.fences[place].key == key,
    ensures
        owner.fence_of(key) == Some(owner.fences[place]),
{
    let chosen = choose|i: int|
        0 <= i < owner.fences.len() && (#[trigger] owner.fences[i]).key == key;
    if chosen < place {
        assert(owner.fences[chosen].key != owner.fences[place].key);
    } else if place < chosen {
        assert(owner.fences[place].key != owner.fences[chosen].key);
    }
}

/// The same texts are the same characters.
pub proof fn lemma_texts_multiset(a: Seq<String>, b: Seq<String>)
    requires
        a.to_multiset() == b.to_multiset(),
    ensures
        texts_of(a).to_multiset() == texts_of(b).to_multiset(),
    decreases a.len(),
{
    broadcast use vstd::seq_lib::group_to_multiset_ensures;

    assert(a.to_multiset().len() == a.len());
    assert(b.to_multiset().len() == b.len());
    if a.len() == 0 {
        assert(texts_of(a) =~= texts_of(b));
    } else {
        let last = a.last();
        assert(a.drop_last().push(last) =~= a);
        assert(a.to_multiset() =~= a.drop_last().to_multiset().insert(last));
        assert(b.to_multiset().count(last) > 0);
        assert(b.contains(last));
        let place = choose|i: int| 0 <= i < b.len() && b[i] == last;
        let rest = b.remove(place);
        assert(rest.insert(place, last) =~= b);
        lemma_insert_multiset(rest, place, last);
        assert(rest.to_multiset() =~= a.drop_last().to_multiset());
        lemma_texts_multiset(a.drop_last(), rest);
        assert(texts_of(a) =~= texts_of(a.drop_last()).push(last@));
        assert(texts_of(b) =~= texts_of(rest).insert(place, last@));
        lemma_insert_multiset(texts_of(rest), place, last@);
        assert(texts_of(a).to_multiset() =~= texts_of(b).to_multiset());
    }
}

/// Publications and cleanups together never exceed the slots, and a slot that
/// was released can be taken again.
pub proof fn law_released_slot_is_reusable(owner: CleanupView)
    requires
        owner.valid(),
        owner.reserved() > 0,
    ensures
        ({
            let released = CleanupView { owned: owner.owned - 1, ..owner };
            &&& released.valid()
            &&& released.pruned().owned < MAX_CREATION_OWNER_SLOTS
        }),
{
    let released = CleanupView { owned: owner.owned - 1, ..owner };
    law_pruning_frees_only_proven_slots(released);
}

} // verus!
