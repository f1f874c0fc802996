//! Building, bounding and checking a handoff manifest.

use vstd::prelude::*;

use crate::daemon::handoff::{
    capped_size, input_defect, input_total, kept_operations, law_shed_input_fits_the_budget,
    law_shed_ledger_stays_valid, law_shed_stops_fit_the_budget, lemma_input_total_bounds,
    lemma_operation_bytes_first, lemma_operation_bytes_nonnegative, lemma_running_total,
    lemma_stop_total_first, lemma_stop_total_nonnegative, operation_bytes, same_but_operations,
    shed_operations, shed_stops, stop_bytes, stop_defect, stop_total, total_after_runs,
    HANDOFF_SCHEMA, HandoffError, HandoffManifest, HandoffRun, HandoffStopOperation,
    MAX_HANDOFF_INPUT_REQUEST_BYTES, MAX_HANDOFF_MANIFEST_BYTES, MAX_HANDOFF_STOP_DIAGNOSTIC_BYTES,
};
use crate::identity::{parsed_uuid, DaemonInstanceId};
use crate::text::{decimal, decimal_text, joined, joined3, owned, same_text};

verus! {

/// Every descriptor that a manifest expects to survive the exec: the listener
/// and the state lock first, then the master of each Run.
pub open spec fn manifest_fds(manifest: HandoffManifest) -> Seq<i32> {
    seq![manifest.listener_fd, manifest.state_lock_fd] + manifest.runs@.map_values(
        |run: HandoffRun| run.master_fd,
    )
}

/// Whether descriptors are non-standard, distinct and not the manifest's own.
pub open spec fn fds_are_adoptable(fds: Seq<i32>, manifest_fd: i32) -> bool {
    &&& forall|i: int| 0 <= i < fds.len() ==> #[trigger] fds[i] >= 3 && fds[i] != manifest_fd
    &&& fds.no_duplicates()
}

/// Whether an earlier Run has the identity of the one at `place`.
pub open spec fn run_repeats(runs: Seq<HandoffRun>, place: int) -> bool {
    exists|k: int| 0 <= k < place && (#[trigger] runs[k]).run_id == runs[place].run_id
}

/// Why the Run at `place` cannot be adopted, where it cannot.
pub open spec fn run_defect(runs: Seq<HandoffRun>, place: int) -> Option<Seq<char>> {
    if runs[place].child_pid == 0 || run_repeats(runs, place) {
        Some("handoff Runs must have unique ids and non-zero child pids"@)
    } else {
        input_defect(runs[place].input_state)
    }
}

/// Why one of the first `count` Runs cannot be adopted.
pub open spec fn runs_defect(runs: Seq<HandoffRun>, count: int) -> Option<Seq<char>>
    decreases count,
{
    if count <= 0 {
        None
    } else {
        match runs_defect(runs, count - 1) {
            Some(message) => Some(message),
            None => run_defect(runs, count - 1),
        }
    }
}

/// Whether an earlier Stop has the Run or the key of the one at `place`.
pub open spec fn stop_repeats(operations: Seq<HandoffStopOperation>, place: int) -> bool {
    exists|k: int|
        0 <= k < place && ((#[trigger] operations[k]).run_id == operations[place].run_id
            || operations[k].operation_key@ == operations[place].operation_key@)
}

/// Why the Stop at `place` cannot be adopted, where it cannot.
pub open spec fn stop_place_defect(operations: Seq<HandoffStopOperation>, place: int) -> Option<
    Seq<char>,
> {
    match stop_defect(operations[place]) {
        Some(message) => Some(message),
        None => if stop_repeats(operations, place) {
            Some("handoff native Stop operations must have unique Runs and keys"@)
        } else {
            None
        },
    }
}

/// Why one of the first `count` Stops cannot be adopted.
pub open spec fn stops_defect(operations: Seq<HandoffStopOperation>, count: int) -> Option<
    Seq<char>,
>
    decreases count,
{
    if count <= 0 {
        None
    } else {
        match stops_defect(operations, count - 1) {
            Some(message) => Some(message),
            None => stop_place_defect(operations, count - 1),
        }
    }
}

/// Why a manifest cannot be adopted, where it cannot.
pub open spec fn manifest_defect(manifest: HandoffManifest, manifest_fd: i32) -> Option<
    Seq<char>,
> {
    let input_bytes = capped_size(input_total(manifest.runs@));
    let stop_bytes = capped_size(stop_total(manifest.stop_operations@));
    if parsed_uuid(manifest.epoch@) is Err {
        Some("invalid handoff daemon epoch: "@ + parsed_uuid(manifest.epoch@)->Err_0)
    } else if input_bytes > MAX_HANDOFF_INPUT_REQUEST_BYTES {
        Some(
            "handoff retains "@ + decimal(input_bytes as nat) + (
            " recoverable Input request bytes; maximum is "@ + decimal(
                MAX_HANDOFF_INPUT_REQUEST_BYTES as nat,
            )),
        )
    } else if stop_bytes > MAX_HANDOFF_STOP_DIAGNOSTIC_BYTES {
        Some(
            "handoff retains "@ + decimal(stop_bytes as nat) + (
            " native Stop diagnostic bytes; maximum is "@ + decimal(
                MAX_HANDOFF_STOP_DIAGNOSTIC_BYTES as nat,
            )),
        )
    } else if !fds_are_adoptable(manifest_fds(manifest), manifest_fd) {
        Some(
            "handoff descriptors must be non-standard, distinct, and separate from the manifest"@,
        )
    } else {
        match runs_defect(manifest.runs@, manifest.runs@.len() as int) {
            Some(message) => Some(message),
            None => stops_defect(
                manifest.stop_operations@,
                manifest.stop_operations@.len() as int,
            ),
        }
    }
}

proof fn lemma_runs_defect_stays(runs: Seq<HandoffRun>, count: int, more: int)
    requires
        0 <= count <= more,
        runs_defect(runs, count) is Some,
    ensures
        runs_defect(runs, more) == runs_defect(runs, count),
    decreases more - count,
{
    if count < more {
        lemma_runs_defect_stays(runs, count, more - 1);
    }
}

proof fn lemma_stops_defect_stays(
    operations: Seq<HandoffStopOperation>,
    count: int,
    more: int,
)
    requires
        0 <= count <= more,
        stops_defect(operations, count) is Some,
    ensures
        stops_defect(operations, more) == stops_defect(operations, count),
    decreases more - count,
{
    if count < more {
        lemma_stops_defect_stays(operations, count, more - 1);
    }
}

proof fn lemma_input_total_nonnegative(runs: Seq<HandoffRun>)
    ensures
        input_total(runs) >= 0,
    decreases runs.len(),
{
    if runs.len() > 0 {
        lemma_input_total_nonnegative(runs.drop_last());
        lemma_operation_bytes_nonnegative(
            runs.last().input_state.operations@,
        );
    }
}

/// Whether a manifest of this schema was built from these parts: input and
/// Stop diagnostics beyond their budgets are left out, the oldest first.
pub open spec fn manifest_built(
    epoch: Seq<char>,
    listener_fd: i32,
    state_lock_fd: i32,
    runs: Seq<HandoffRun>,
    stop_operations: Seq<HandoffStopOperation>,
    manifest: HandoffManifest,
) -> bool {
    &&& manifest.schema@ == HANDOFF_SCHEMA@
    &&& manifest.epoch@ == epoch
    &&& manifest.listener_fd == listener_fd
    &&& manifest.state_lock_fd == state_lock_fd
    &&& sheds_input(runs, MAX_HANDOFF_INPUT_REQUEST_BYTES as int, manifest.runs@)
    &&& manifest.stop_operations@ == shed_stops(
        stop_operations,
        stop_total(stop_operations),
        MAX_HANDOFF_STOP_DIAGNOSTIC_BYTES as int,
    )
}

impl HandoffManifest {
    /// A manifest without settled Stops.
    pub fn new(
        epoch: String,
        listener_fd: i32,
        state_lock_fd: i32,
        runs: Vec<HandoffRun>,
    ) -> (r: HandoffManifest)
        requires
            input_total(runs@) <= usize::MAX,
        ensures
            manifest_built(epoch@, listener_fd, state_lock_fd, runs@, seq![], r),
            r.stop_operations@.len() == 0,
            input_total(r.runs@) <= MAX_HANDOFF_INPUT_REQUEST_BYTES,
            input_total(runs@) <= MAX_HANDOFF_INPUT_REQUEST_BYTES ==> r.runs@ == runs@,
    {
        let none: Vec<HandoffStopOperation> = Vec::new();
        proof {
            assert(none@ =~= seq![]);
        }
        HandoffManifest::new_with_stop_operations(epoch, listener_fd, state_lock_fd, runs, none)
    }

    /// A manifest of this schema, with recoverable Input and Stop diagnostics
    /// within their budgets.
    pub fn new_with_stop_operations(
        epoch: String,
        listener_fd: i32,
        state_lock_fd: i32,
        runs: Vec<HandoffRun>,
        stop_operations: Vec<HandoffStopOperation>,
    ) -> (r: HandoffManifest)
        requires
            input_total(runs@) <= usize::MAX,
            stop_total(stop_operations@) <= usize::MAX,
        ensures
            manifest_built(
                epoch@,
                listener_fd,
                state_lock_fd,
                runs@,
                stop_operations@,
                r,
            ),
            stop_total(r.stop_operations@) <= MAX_HANDOFF_STOP_DIAGNOSTIC_BYTES,
            stop_total(stop_operations@) <= MAX_HANDOFF_STOP_DIAGNOSTIC_BYTES
                ==> r.stop_operations@ == stop_operations@,
            input_total(r.runs@) <= MAX_HANDOFF_INPUT_REQUEST_BYTES,
            input_total(runs@) <= MAX_HANDOFF_INPUT_REQUEST_BYTES ==> r.runs@ == runs@,
    {
        let mut manifest = HandoffManifest {
            schema: owned(HANDOFF_SCHEMA),
            epoch,
            listener_fd,
            state_lock_fd,
            runs,
            stop_operations,
        };
        manifest.shed_recoverable_input_to_budget(MAX_HANDOFF_INPUT_REQUEST_BYTES);
        manifest.shed_stop_diagnostics_to_budget(MAX_HANDOFF_STOP_DIAGNOSTIC_BYTES);
        proof {
            let removed = law_shed_stops_fit_the_budget(
                stop_operations@,
                MAX_HANDOFF_STOP_DIAGNOSTIC_BYTES as int,
            );
        }
        manifest
    }

    /// Recoverable Input bytes of all Runs.
    pub fn retained_input_request_bytes(&self) -> (r: usize)
        ensures
            r == capped_size(input_total(self.runs@)),
    {
        let ghost runs = self.runs@;
        let mut total: usize = 0;
        let mut i: usize = 0;
        assert(runs.take(0) =~= seq![]);
        while i < self.runs.len()
            invariant
                runs == self.runs@,
                i <= runs.len(),
                total == capped_size(input_total(runs.take(i as int))),
            decreases runs.len() - i,
        {
            proof {
                assert(runs.take(i + 1).drop_last() =~= runs.take(i as int));
                lemma_input_total_nonnegative(runs.take(i as int));
                lemma_operation_bytes_nonnegative(
                    runs[i as int].input_state.operations@,
                );
            }
            total = match total.checked_add(self.runs[i].input_state.retained_request_bytes()) {
                Some(sum) => sum,
                None => usize::MAX,
            };
            i = i + 1;
        }
        assert(runs.take(i as int) =~= runs);
        total
    }

    /// Stop diagnostic bytes of all settled Stops.
    pub fn stop_diagnostic_bytes(&self) -> (r: usize)
        ensures
            r == capped_size(stop_total(self.stop_operations@)),
    {
        let ghost operations = self.stop_operations@;
        let mut total: usize = 0;
        let mut i: usize = 0;
        assert(operations.take(0) =~= seq![]);
        while i < self.stop_operations.len()
            invariant
                operations == self.stop_operations@,
                i <= operations.len(),
                total == capped_size(stop_total(operations.take(i as int))),
            decreases operations.len() - i,
        {
            proof {
                assert(operations.take(i + 1).drop_last() =~= operations.take(i as int));
                lemma_stop_total_nonnegative(operations.take(i as int));
            }
            total = match total.checked_add(self.stop_operations[i].diagnostic_bytes()) {
                Some(sum) => sum,
                None => usize::MAX,
            };
            i = i + 1;
        }
        assert(operations.take(i as int) =~= operations);
        total
    }

    /// Shed the oldest Input results, Run by Run, until all fit the budget.
    pub fn shed_recoverable_input_to_budget(&mut self, budget: usize)
        requires
            input_total(old(self).runs@) <= usize::MAX,
        ensures
            *final(self) == (HandoffManifest { runs: final(self).runs, ..*old(self) }),
            sheds_input(old(self).runs@, budget as int, final(self).runs@),
            input_total(final(self).runs@) <= budget,
            input_total(old(self).runs@) <= budget ==> final(self).runs@ == old(self).runs@,
    {
        let ghost before = self.runs@;
        let mut total: usize = self.retained_input_request_bytes();
        proof {
            lemma_input_total_nonnegative(before);
        }
        let mut i: usize = 0;
        while i < self.runs.len()
            invariant
                i <= self.runs@.len(),
                self.runs@.len() == before.len(),
                *self == (HandoffManifest { runs: self.runs, ..*old(self) }),
                input_total(before) <= usize::MAX,
                total == total_after_runs(before, input_total(before), budget as int, i as int),
                forall|k: int|
                    0 <= k < i ==> same_but_operations(#[trigger] self.runs@[k], before[k])
                        && self.runs@[k].input_state.operations@ == kept_operations(
                        before,
                        budget as int,
                        k,
                    ),
                forall|k: int|
                    i <= k < self.runs@.len() ==> #[trigger] self.runs@[k] == before[k],
                input_total(before) <= budget ==> self.runs@ == before,
            decreases self.runs@.len() - i,
        {
            let ghost operations = before[i as int].input_state.operations@;
            let ghost start = total as int;
            proof {
                lemma_running_total(before, budget as int, i as int);
                lemma_input_total_bounds(before, i + 1);
                assert(before.take(i + 1).drop_last() =~= before.take(i as int));
                assert(start >= operation_bytes(operations));
                lemma_operation_bytes_nonnegative(operations);
            }
            while total > budget && self.runs[i].input_state.operations.len() > 0
                invariant
                    i < self.runs@.len(),
                    self.runs@.len() == before.len(),
                    *self == (HandoffManifest { runs: self.runs, ..*old(self) }),
                    operations == before[i as int].input_state.operations@,
                    same_but_operations(self.runs@[i as int], before[i as int]),
                    forall|k: int|
                        0 <= k < i ==> same_but_operations(#[trigger] self.runs@[k], before[k])
                            && self.runs@[k].input_state.operations@ == kept_operations(
                            before,
                            budget as int,
                            k,
                        ),
                    forall|k: int|
                        i < k < self.runs@.len() ==> #[trigger] self.runs@[k] == before[k],
                    total <= start <= input_total(before),
                    input_total(before) <= budget ==> self.runs@ == before,
                    total >= operation_bytes(self.runs@[i as int].input_state.operations@),
                    start - total == operation_bytes(operations) - operation_bytes(
                        self.runs@[i as int].input_state.operations@,
                    ),
                    shed_operations(operations, start, budget as int) == shed_operations(
                        self.runs@[i as int].input_state.operations@,
                        total as int,
                        budget as int,
                    ),
                decreases self.runs@[i as int].input_state.operations@.len(),
            {
                let ghost current = self.runs@[i as int].input_state.operations@;
                proof {
                    lemma_operation_bytes_first(current);
                    lemma_operation_bytes_nonnegative(current.drop_first());
                }
                let freed: usize = self.runs[i].input_state.shed_oldest_operation();
                total = total - freed;
            }
            i = i + 1;
        }
        proof {
            lemma_shed_total(before, budget as int, self.runs@);
            law_shed_input_fits_the_budget(before, budget as int);
        }
    }

    /// Shed the oldest settled Stops until their diagnostics fit the budget.
    pub fn shed_stop_diagnostics_to_budget(&mut self, budget: usize)
        requires
            stop_total(old(self).stop_operations@) <= usize::MAX,
        ensures
            *final(self) == (HandoffManifest {
                stop_operations: final(self).stop_operations,
                ..*old(self)
            }),
            final(self).stop_operations@ == shed_stops(
                old(self).stop_operations@,
                stop_total(old(self).stop_operations@),
                budget as int,
            ),
    {
        let ghost before = self.stop_operations@;
        let mut total: usize = self.stop_diagnostic_bytes();
        proof {
            lemma_stop_total_nonnegative(before);
        }
        while total > budget && self.stop_operations.len() > 0
            invariant
                *self == (HandoffManifest {
                    stop_operations: self.stop_operations,
                    ..*old(self)
                }),
                total == stop_total(self.stop_operations@),
                shed_stops(self.stop_operations@, total as int, budget as int) == shed_stops(
                    before,
                    stop_total(before),
                    budget as int,
                ),
            decreases self.stop_operations@.len(),
        {
            let ghost current = self.stop_operations@;
            proof {
                lemma_stop_total_first(current);
                lemma_stop_total_nonnegative(current.drop_first());
            }
            let oldest = self.stop_operations.remove(0);
            assert(self.stop_operations@ =~= current.drop_first());
            total = total - oldest.diagnostic_bytes();
        }
    }

    /// Every descriptor that has to survive the exec, in order.
    pub fn all_fds(&self) -> (r: Vec<i32>)
        ensures
            r@ == manifest_fds(*self),
    {
        let mut fds: Vec<i32> = Vec::new();
        fds.push(self.listener_fd);
        fds.push(self.state_lock_fd);
        let mut i: usize = 0;
        while i < self.runs.len()
            invariant
                i <= self.runs@.len(),
                fds@.len() == i + 2,
                forall|k: int| 0 <= k < i + 2 ==> #[trigger] fds@[k] == manifest_fds(*self)[k],
            decreases self.runs@.len() - i,
        {
            fds.push(self.runs[i].master_fd);
            i = i + 1;
        }
        assert(fds@ =~= manifest_fds(*self));
        fds
    }

    fn fds_adoptable(&self, manifest_fd: i32) -> (r: bool)
        ensures
            r == fds_are_adoptable(manifest_fds(*self), manifest_fd),
    {
        let fds = self.all_fds();
        let ghost all = fds@;
        let mut i: usize = 0;
        while i < fds.len()
            invariant
                all == fds@,
                all == manifest_fds(*self),
                i <= all.len(),
                forall|k: int| 0 <= k < i ==> #[trigger] all[k] >= 3 && all[k] != manifest_fd,
                forall|j: int, k: int| 0 <= j < k < i ==> all[j] != all[k],
            decreases all.len() - i,
        {
            let fd: i32 = fds[i];
            if fd < 3 || fd == manifest_fd {
                assert(all[i as int] < 3 || all[i as int] == manifest_fd);
                return false;
            }
            let mut k: usize = 0;
            while k < i
                invariant
                    all == fds@,
                    all == manifest_fds(*self),
                    k <= i < all.len(),
                    fd == all[i as int],
                    forall|j: int| 0 <= j < k ==> all[j] != fd,
                decreases i - k,
            {
                if fds[k] == fd {
                    assert(all[k as int] == all[i as int]);
                    return false;
                }
                k = k + 1;
            }
            i = i + 1;
        }
        true
    }

    fn run_repeats(&self, place: usize) -> (r: bool)
        requires
            place < self.runs@.len(),
        ensures
            r == run_repeats(self.runs@, place as int),
    {
        let mut k: usize = 0;
        while k < place
            invariant
                k <= place < self.runs@.len(),
                forall|j: int|
                    0 <= j < k ==> (#[trigger] self.runs@[j]).run_id
                        != self.runs@[place as int].run_id,
            decreases place - k,
        {
            if self.runs[k].run_id == self.runs[place].run_id {
                assert(self.runs@[k as int].run_id == self.runs@[place as int].run_id);
                return true;
            }
            k = k + 1;
        }
        false
    }

    fn stop_repeats(&self, place: usize) -> (r: bool)
        requires
            place < self.stop_operations@.len(),
        ensures
            r == stop_repeats(self.stop_operations@, place as int),
    {
        let operation = &self.stop_operations[place];
        let mut k: usize = 0;
        while k < place
            invariant
                k <= place < self.stop_operations@.len(),
                *operation == self.stop_operations@[place as int],
                forall|j: int|
                    0 <= j < k ==> (#[trigger] self.stop_operations@[j]).run_id != operation.run_id
                        && self.stop_operations@[j].operation_key@ != operation.operation_key@,
            decreases place - k,
        {
            if self.stop_operations[k].run_id == operation.run_id
                || self.stop_operations[k].operation_key.same(&operation.operation_key) {
                assert(self.stop_operations@[k as int].run_id == operation.run_id
                    || self.stop_operations@[k as int].operation_key@ == operation.operation_key@);
                return true;
            }
            k = k + 1;
        }
        false
    }

    /// Check that this manifest can be adopted from a descriptor.
    pub fn validate(&self, manifest_fd: i32) -> (r: Result<(), HandoffError>)
        ensures
            match manifest_defect(*self, manifest_fd) {
                Some(defect) => r matches Err(error) && error.is_invalid(defect),
                None => r == Ok::<(), HandoffError>(()),
            },
    {
        if let Err(error) = DaemonInstanceId::parse(self.epoch.as_str()) {
            return Err(
                HandoffError::invalid(joined("invalid handoff daemon epoch: ", error.as_str())),
            );
        }
        let input_bytes: usize = self.retained_input_request_bytes();
        if input_bytes > MAX_HANDOFF_INPUT_REQUEST_BYTES {
            let actual = decimal_text(input_bytes as u64);
            let maximum = decimal_text(MAX_HANDOFF_INPUT_REQUEST_BYTES as u64);
            let ending = joined(
                " recoverable Input request bytes; maximum is ",
                maximum.as_str(),
            );
            return Err(
                HandoffError::invalid(
                    joined3("handoff retains ", actual.as_str(), ending.as_str()),
                ),
            );
        }
        let stop_bytes: usize = self.stop_diagnostic_bytes();
        if stop_bytes > MAX_HANDOFF_STOP_DIAGNOSTIC_BYTES {
            let actual = decimal_text(stop_bytes as u64);
            let maximum = decimal_text(MAX_HANDOFF_STOP_DIAGNOSTIC_BYTES as u64);
            let ending = joined(
                " native Stop diagnostic bytes; maximum is ",
                maximum.as_str(),
            );
            return Err(
                HandoffError::invalid(
                    joined3("handoff retains ", actual.as_str(), ending.as_str()),
                ),
            );
        }
        if !self.fds_adoptable(manifest_fd) {
            return Err(
                HandoffError::invalid(
                    owned(
                        "handoff descriptors must be non-standard, distinct, and separate from the manifest",
                    ),
                ),
            );
        }
        match self.validate_contents() {
            Ok(()) => Ok(()),
            Err(message) => Err(HandoffError::invalid(message)),
        }
    }

    fn validate_contents(&self) -> (r: Result<(), String>)
        ensures
            match runs_defect(self.runs@, self.runs@.len() as int) {
                Some(defect) => r matches Err(message) && message@ == defect,
                None => match stops_defect(
                    self.stop_operations@,
                    self.stop_operations@.len() as int,
                ) {
                    Some(defect) => r matches Err(message) && message@ == defect,
                    None => r is Ok,
                },
            },
    {
        let mut i: usize = 0;
        while i < self.runs.len()
            invariant
                i <= self.runs@.len(),
                runs_defect(self.runs@, i as int) is None,
            decreases self.runs@.len() - i,
        {
            if self.runs[i].child_pid == 0 || self.run_repeats(i) {
                proof {
                    lemma_runs_defect_stays(self.runs@, i + 1, self.runs@.len() as int);
                }
                return Err(owned("handoff Runs must have unique ids and non-zero child pids"));
            }
            if let Err(message) = self.runs[i].input_state.validate() {
                proof {
                    lemma_runs_defect_stays(self.runs@, i + 1, self.runs@.len() as int);
                }
                return Err(message);
            }
            i = i + 1;
        }
        let mut k: usize = 0;
        while k < self.stop_operations.len()
            invariant
                runs_defect(self.runs@, self.runs@.len() as int) is None,
                k <= self.stop_operations@.len(),
                stops_defect(self.stop_operations@, k as int) is None,
            decreases self.stop_operations@.len() - k,
        {
            if let Err(message) = self.stop_operations[k].validate() {
                proof {
                    lemma_stops_defect_stays(
                        self.stop_operations@,
                        k + 1,
                        self.stop_operations@.len() as int,
                    );
                }
                return Err(message);
            }
            if self.stop_repeats(k) {
                proof {
                    lemma_stops_defect_stays(
                        self.stop_operations@,
                        k + 1,
                        self.stop_operations@.len() as int,
                    );
                }
                return Err(
                    owned("handoff native Stop operations must have unique Runs and keys"),
                );
            }
            k = k + 1;
        }
        Ok(())
    }
}

/// Whether `after` is `before` with recoverable Input shed to a budget.
pub open spec fn sheds_input(
    before: Seq<HandoffRun>,
    budget: int,
    after: Seq<HandoffRun>,
) -> bool {
    &&& after.len() == before.len()
    &&& forall|k: int|
        0 <= k < after.len() ==> same_but_operations(#[trigger] after[k], before[k])
            && after[k].input_state.operations@ == kept_operations(before, budget, k)
}

proof fn lemma_shed_total_prefix(
    before: Seq<HandoffRun>,
    budget: int,
    after: Seq<HandoffRun>,
    count: int,
)
    requires
        sheds_input(before, budget, after),
        0 <= count <= before.len(),
    ensures
        input_total(after.take(count)) == total_after_runs(
            before,
            input_total(before),
            budget,
            count,
        ) - (input_total(before) - input_total(before.take(count))),
    decreases count,
{
    if count == 0 {
        assert(after.take(0) =~= seq![]);
        assert(before.take(0) =~= seq![]);
    } else {
        lemma_shed_total_prefix(before, budget, after, count - 1);
        assert(after.take(count).drop_last() =~= after.take(count - 1));
        assert(before.take(count).drop_last() =~= before.take(count - 1));
        assert(same_but_operations(after[count - 1], before[count - 1]));
    }
}

/// What remains after shedding is the running total.
proof fn lemma_shed_total(before: Seq<HandoffRun>, budget: int, after: Seq<HandoffRun>)
    requires
        sheds_input(before, budget, after),
    ensures
        input_total(after) == total_after_runs(
            before,
            input_total(before),
            budget,
            before.len() as int,
        ),
{
    lemma_shed_total_prefix(before, budget, after, before.len() as int);
    assert(after.take(after.len() as int) =~= after);
    assert(before.take(before.len() as int) =~= before);
}

/// A manifest that this image builds is within both budgets, so that the
/// incoming image does not refuse it for its size.
pub proof fn law_built_manifest_is_within_its_budgets(
    epoch: Seq<char>,
    listener_fd: i32,
    state_lock_fd: i32,
    runs: Seq<HandoffRun>,
    stops: Seq<HandoffStopOperation>,
    built: HandoffManifest,
)
    requires
        manifest_built(epoch, listener_fd, state_lock_fd, runs, stops, built),
    ensures
        input_total(built.runs@) <= MAX_HANDOFF_INPUT_REQUEST_BYTES,
        stop_total(built.stop_operations@) <= MAX_HANDOFF_STOP_DIAGNOSTIC_BYTES,
{
    lemma_shed_total(runs, MAX_HANDOFF_INPUT_REQUEST_BYTES as int, built.runs@);
    law_shed_input_fits_the_budget(runs, MAX_HANDOFF_INPUT_REQUEST_BYTES as int);
    let removed = law_shed_stops_fit_the_budget(stops, MAX_HANDOFF_STOP_DIAGNOSTIC_BYTES as int);
}

proof fn lemma_shed_runs_stay_adoptable(
    before: Seq<HandoffRun>,
    budget: int,
    after: Seq<HandoffRun>,
    count: int,
)
    requires
        sheds_input(before, budget, after),
        0 <= count <= before.len(),
        runs_defect(before, before.len() as int) is None,
    ensures
        runs_defect(after, count) is None,
    decreases count,
{
    if count > 0 {
        let place = count - 1;
        lemma_shed_runs_stay_adoptable(before, budget, after, place);
        lemma_no_run_defect_at(before, before.len() as int, place);
        assert(same_but_operations(after[place], before[place]));
        if run_repeats(after, place) {
            let k = choose|k: int|
                0 <= k < place && (#[trigger] after[k]).run_id == after[place].run_id;
            assert(same_but_operations(after[k], before[k]));
            assert(before[k].run_id == before[place].run_id);
        }
        let total = total_after_runs(before, input_total(before), budget, place);
        lemma_running_total(before, budget, place);
        lemma_input_total_bounds(before, count);
        assert(before.take(count).drop_last() =~= before.take(place));
        law_shed_ledger_stays_valid(
            before[place].input_state,
            after[place].input_state,
            total,
            budget,
        );
    }
}

proof fn lemma_no_run_defect_at(runs: Seq<HandoffRun>, count: int, place: int)
    requires
        0 <= place < count,
        runs_defect(runs, count) is None,
    ensures
        run_defect(runs, place) is None,
    decreases count,
{
    if place < count - 1 {
        lemma_no_run_defect_at(runs, count - 1, place);
    }
}

proof fn lemma_no_stop_defect_at(operations: Seq<HandoffStopOperation>, count: int, place: int)
    requires
        0 <= place < count,
        stops_defect(operations, count) is None,
    ensures
        stop_place_defect(operations, place) is None,
    decreases count,
{
    if place < count - 1 {
        lemma_no_stop_defect_at(operations, count - 1, place);
    }
}

proof fn lemma_later_stops_stay_adoptable(
    operations: Seq<HandoffStopOperation>,
    removed: int,
    count: int,
)
    requires
        0 <= removed <= operations.len(),
        0 <= count <= operations.len() - removed,
        stops_defect(operations, operations.len() as int) is None,
    ensures
        stops_defect(operations.skip(removed), count) is None,
    decreases count,
{
    if count > 0 {
        let rest = operations.skip(removed);
        let place = count - 1;
        lemma_later_stops_stay_adoptable(operations, removed, place);
        lemma_no_stop_defect_at(operations, operations.len() as int, removed + place);
        assert(rest[place] == operations[removed + place]);
        if stop_repeats(rest, place) {
            let k = choose|k: int|
                0 <= k < place && ((#[trigger] rest[k]).run_id == rest[place].run_id
                    || rest[k].operation_key@ == rest[place].operation_key@);
            assert(rest[k] == operations[removed + k]);
            assert(stop_repeats(operations, removed + place));
        }
    }
}

/// What this image hands over, an image of the same schema adopts: a manifest
/// that was built from Runs, Stops and descriptors which can be adopted can be
/// adopted itself, with everything that was shed left out.
pub proof fn law_a_built_manifest_is_adopted(
    epoch: Seq<char>,
    listener_fd: i32,
    state_lock_fd: i32,
    runs: Seq<HandoffRun>,
    stops: Seq<HandoffStopOperation>,
    built: HandoffManifest,
    manifest_fd: i32,
)
    requires
        manifest_built(epoch, listener_fd, state_lock_fd, runs, stops, built),
        parsed_uuid(epoch) is Ok,
        fds_are_adoptable(
            seq![listener_fd, state_lock_fd] + runs.map_values(|run: HandoffRun| run.master_fd),
            manifest_fd,
        ),
        runs_defect(runs, runs.len() as int) is None,
        stops_defect(stops, stops.len() as int) is None,
    ensures
        built.schema@ == HANDOFF_SCHEMA@,
        manifest_defect(built, manifest_fd) is None,
{
    let budget = MAX_HANDOFF_INPUT_REQUEST_BYTES as int;
    law_built_manifest_is_within_its_budgets(
        epoch,
        listener_fd,
        state_lock_fd,
        runs,
        stops,
        built,
    );
    assert forall|k: int| 0 <= k < runs.len() implies (#[trigger] built.runs@[k]).master_fd
        == runs[k].master_fd by {
        assert(same_but_operations(built.runs@[k], runs[k]));
    }
    assert(manifest_fds(built) =~= seq![listener_fd, state_lock_fd] + runs.map_values(
        |run: HandoffRun| run.master_fd,
    ));
    lemma_shed_runs_stay_adoptable(runs, budget, built.runs@, runs.len() as int);
    let removed = law_shed_stops_fit_the_budget(stops, MAX_HANDOFF_STOP_DIAGNOSTIC_BYTES as int);
    lemma_later_stops_stay_adoptable(stops, removed, stops.len() - removed);
}

/// The first line of some bytes, without its end.
pub open spec fn first_line(bytes: Seq<u8>) -> Seq<u8>
    decreases bytes.len(),
{
    if bytes.len() == 0 || bytes[0] == 10 {
        seq![]
    } else {
        seq![bytes[0]] + first_line(bytes.drop_first())
    }
}

proof fn lemma_first_line_at(bytes: Seq<u8>, end: int)
    requires
        0 <= end <= bytes.len(),
        forall|k: int| 0 <= k < end ==> bytes[k] != 10,
        end < bytes.len() ==> bytes[end] == 10,
    ensures
        first_line(bytes) == bytes.take(end),
    decreases end,
{
    if end == 0 {
        assert(bytes.take(0) =~= seq![]);
    } else {
        lemma_first_line_at(bytes.drop_first(), end - 1);
        assert(seq![bytes[0]] + bytes.drop_first().take(end - 1) =~= bytes.take(end));
    }
}

/// The line of an inherited file that holds its manifest. A file beyond the
/// bound has none.
pub fn manifest_line(bytes: &Vec<u8>) -> (r: Result<Vec<u8>, HandoffError>)
    ensures
        if bytes@.len() > MAX_HANDOFF_MANIFEST_BYTES {
            r matches Err(error) && error.is_invalid("handoff manifest exceeds its bounded size"@)
        } else {
            r matches Ok(line) && line@ == first_line(bytes@)
        },
{
    if bytes.len() as u64 > MAX_HANDOFF_MANIFEST_BYTES {
        return Err(
            HandoffError::invalid(owned("handoff manifest exceeds its bounded size")),
        );
    }
    let mut end: usize = 0;
    while end < bytes.len() && bytes[end] != 10
        invariant
            end <= bytes@.len(),
            forall|k: int| 0 <= k < end ==> bytes@[k] != 10,
        decreases bytes@.len() - end,
    {
        end = end + 1;
    }
    proof {
        lemma_first_line_at(bytes@, end as int);
    }
    let line = vstd::slice::slice_to_vec(
        vstd::slice::slice_subrange(bytes.as_slice(), 0, end),
    );
    assert(line@ =~= bytes@.take(end as int));
    Ok(line)
}

/// Take over a manifest that was read from a descriptor: one of this schema
/// that can be adopted, or why not.
pub fn read_manifest(parsed: Result<HandoffManifest, HandoffError>, manifest_fd: i32) -> (r: Result<
    HandoffManifest,
    HandoffError,
>)
    ensures
        match parsed {
            Err(error) => r == Err::<HandoffManifest, HandoffError>(error),
            Ok(manifest) => if manifest.schema@ != HANDOFF_SCHEMA@ {
                r matches Err(error) && error.is_invalid("unknown handoff manifest schema"@)
            } else {
                match manifest_defect(manifest, manifest_fd) {
                    Some(defect) => r matches Err(error) && error.is_invalid(defect),
                    None => r == Ok::<HandoffManifest, HandoffError>(manifest),
                }
            },
        },
{
    let manifest = match parsed {
        Ok(manifest) => manifest,
        Err(error) => {
            return Err(error);
        },
    };
    let expected = owned(HANDOFF_SCHEMA);
    if !same_text(&manifest.schema, &expected) {
        return Err(HandoffError::invalid(owned("unknown handoff manifest schema")));
    }
    match manifest.validate(manifest_fd) {
        Ok(()) => Ok(manifest),
        Err(error) => Err(error),
    }
}

} // verus!
