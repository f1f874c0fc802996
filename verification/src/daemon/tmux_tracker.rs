//! Commands that the tmux adapter has written and not yet seen answered.

use std::collections::VecDeque;

use vstd::prelude::*;

use crate::text::owned;

verus! {

/// Commands that may be unanswered at a time.
pub const MAX_PENDING: usize = 2;

/// What an adapter command asks of tmux.
#[derive(Debug, Clone, Copy, PartialEq, Eq, Structural)]
pub enum TmuxCommandKind {
    TargetProbe,
    Continue,
}

/// What a command result answers.
#[derive(Debug, Clone, Copy, PartialEq, Eq, Structural)]
pub enum TmuxCommandResultKind {
    Bootstrap,
    Pending(TmuxCommandKind),
}

/// State of the unanswered commands.
pub struct TrackerView {
    pub session_established: bool,
    pub bootstrap_result_seen: bool,
    pub last_result_number: Option<u64>,
    pub pending: Seq<TmuxCommandKind>,
}

impl TrackerView {
    /// What every tracker keeps: few unanswered commands, each kind at most
    /// once, and none before the session is known.
    pub open spec fn valid(&self) -> bool {
        &&& self.pending.len() <= MAX_PENDING
        &&& self.pending.no_duplicates()
        &&& self.pending.len() > 0 ==> self.session_established
    }

    /// A tracker before the first line of the stream.
    pub open spec fn initial() -> TrackerView {
        TrackerView {
            session_established: false,
            bootstrap_result_seen: false,
            last_result_number: None,
            pending: seq![],
        }
    }

    /// Whether a command is to be written, or why none may be.
    pub open spec fn enqueue(&self, kind: TmuxCommandKind) -> Result<bool, Seq<char>> {
        if !self.session_established {
            Err("tmux adapter command arrived before session establishment"@)
        } else if self.pending.contains(kind) {
            Ok(false)
        } else if self.pending.len() >= MAX_PENDING {
            Err("tmux adapter command queue exceeded its bound"@)
        } else {
            Ok(true)
        }
    }

    /// The state after a command was written.
    pub open spec fn enqueued(&self, kind: TmuxCommandKind) -> TrackerView {
        TrackerView { pending: self.pending.push(kind), ..*self }
    }

    /// Whether a result number is later than every earlier one.
    pub open spec fn advances(&self, number: u64) -> bool {
        self.last_result_number matches Some(last) ==> number > last
    }

    /// What a result answers, or why it answers nothing.
    pub open spec fn correlation(&self, number: u64) -> Result<TmuxCommandResultKind, Seq<char>> {
        if !self.advances(number) {
            Err("tmux command result number did not advance"@)
        } else if self.pending.len() > 0 {
            Ok(TmuxCommandResultKind::Pending(self.pending[0]))
        } else if !self.session_established && !self.bootstrap_result_seen {
            Ok(TmuxCommandResultKind::Bootstrap)
        } else {
            Err("tmux returned a command result without a pending adapter command"@)
        }
    }

    /// The state after a result.
    pub open spec fn correlated(&self, number: u64) -> TrackerView {
        if !self.advances(number) {
            *self
        } else {
            TrackerView {
                last_result_number: Some(number),
                pending: if self.pending.len() > 0 {
                    self.pending.drop_first()
                } else {
                    self.pending
                },
                bootstrap_result_seen: self.bootstrap_result_seen || (self.pending.len() == 0
                    && !self.session_established),
                ..*self
            }
        }
    }
}

/// Writing a command that may be written, and taking any result, keep the
/// bound, the uniqueness and the order of sessions before commands.
pub proof fn law_tracker_stays_bounded(
    tracker: TrackerView,
    kind: TmuxCommandKind,
    number: u64,
)
    requires
        tracker.valid(),
    ensures
        tracker.enqueue(kind) == Ok::<bool, Seq<char>>(true) ==> tracker.enqueued(kind).valid(),
        tracker.correlated(number).valid(),
{
    if tracker.pending.len() > 0 {
        assert(tracker.pending.drop_first().no_duplicates());
    }
}

/// With two kinds of command and each unanswered at most once, an established
/// session never refuses a command for the bound.
pub proof fn law_established_session_never_exceeds_the_bound(
    tracker: TrackerView,
    kind: TmuxCommandKind,
)
    requires
        tracker.valid(),
        tracker.session_established,
    ensures
        tracker.enqueue(kind) is Ok,
{
    if tracker.pending.len() == 2 && !tracker.pending.contains(kind) {
        let first = tracker.pending[0];
        let second = tracker.pending[1];
        assert(first != kind && second != kind && first != second);
        assert(false);
    }
}

/// Results are answered in the order in which the commands were written.
pub proof fn law_results_answer_commands_in_order(
    tracker: TrackerView,
    first: u64,
    second: u64,
)
    requires
        tracker.valid(),
        tracker.pending.len() == 2,
        tracker.advances(first),
        first < second,
    ensures
        tracker.correlation(first) == Ok::<TmuxCommandResultKind, Seq<char>>(
            TmuxCommandResultKind::Pending(tracker.pending[0]),
        ),
        tracker.correlated(first).correlation(second) == Ok::<TmuxCommandResultKind, Seq<char>>(
            TmuxCommandResultKind::Pending(tracker.pending[1]),
        ),
        tracker.correlated(first).correlated(second).pending == Seq::<TmuxCommandKind>::empty(),
{
}

/// A number that was seen, or an earlier one, is never taken again.
pub proof fn law_result_numbers_only_advance(tracker: TrackerView, number: u64, again: u64)
    requires
        tracker.advances(number),
        again <= number,
    ensures
        tracker.correlated(number).correlation(again) is Err,
        tracker.correlated(number).correlated(again) == tracker.correlated(number),
{
}

/// Unanswered commands of one tmux adapter.
pub struct TmuxCommandTracker {
    session_established: bool,
    bootstrap_result_seen: bool,
    last_result_number: Option<u64>,
    pending: VecDeque<TmuxCommandKind>,
}

impl TmuxCommandTracker {
    /// State of the unanswered commands.
    pub closed spec fn view(&self) -> TrackerView {
        TrackerView {
            session_established: self.session_established,
            bootstrap_result_seen: self.bootstrap_result_seen,
            last_result_number: self.last_result_number,
            pending: self.pending@,
        }
    }

    /// A tracker before the first line of the stream.
    pub fn new() -> (r: TmuxCommandTracker)
        ensures
            r@ == TrackerView::initial(),
            r@.valid(),
    {
        let r = TmuxCommandTracker {
            session_established: false,
            bootstrap_result_seen: false,
            last_result_number: None,
            pending: VecDeque::new(),
        };
        assert(r.pending@ =~= seq![]);
        r
    }

    /// Whether the session is known.
    pub fn session_established(&self) -> (r: bool)
        ensures
            r == self@.session_established,
    {
        self.session_established
    }

    /// How many commands are unanswered.
    pub fn pending_len(&self) -> (r: usize)
        ensures
            r == self@.pending.len(),
    {
        self.pending.len()
    }

    /// The command that is answered next.
    pub fn front(&self) -> (r: Option<TmuxCommandKind>)
        ensures
            r == (if self@.pending.len() > 0 {
                Some(self@.pending[0])
            } else {
                None
            }),
    {
        if self.pending.len() > 0 {
            Some(self.pending[0])
        } else {
            None
        }
    }

    /// Note the session. Only the first note counts.
    pub fn observe_session(&mut self) -> (r: bool)
        requires
            old(self)@.valid(),
        ensures
            final(self)@.valid(),
            r == !old(self)@.session_established,
            final(self)@ == (TrackerView { session_established: true, ..old(self)@ }),
    {
        if self.session_established {
            false
        } else {
            self.session_established = true;
            true
        }
    }

    /// Decide whether a command is to be written now.
    pub fn prepare_enqueue(&self, kind: TmuxCommandKind) -> (r: Result<bool, &'static str>)
        ensures
            match self@.enqueue(kind) {
                Ok(write) => r == Ok::<bool, &'static str>(write),
                Err(message) => r matches Err(text) && text@ == message,
            },
    {
        if !self.session_established {
            return Err("tmux adapter command arrived before session establishment");
        }
        let mut i: usize = 0;
        while i < self.pending.len()
            invariant
                i <= self.pending@.len(),
                self@.session_established,
                forall|k: int| 0 <= k < i ==> self.pending@[k] != kind,
            decreases self.pending@.len() - i,
        {
            if self.pending[i] == kind {
                assert(self@.pending[i as int] == kind);
                return Ok(false);
            }
            i = i + 1;
        }
        assert(!self@.pending.contains(kind));
        if self.pending.len() >= MAX_PENDING {
            return Err("tmux adapter command queue exceeded its bound");
        }
        Ok(true)
    }

    /// Note a command that was written.
    pub fn commit_enqueue(&mut self, kind: TmuxCommandKind)
        requires
            old(self)@.valid(),
            old(self)@.enqueue(kind) == Ok::<bool, Seq<char>>(true),
        ensures
            final(self)@.valid(),
            final(self)@ == old(self)@.enqueued(kind),
    {
        proof {
            law_tracker_stays_bounded(self@, kind, 0);
        }
        self.pending.push_back(kind);
    }

    /// Find what a command result answers.
    pub fn correlate_result(&mut self, number: u64) -> (r: Result<
        TmuxCommandResultKind,
        &'static str,
    >)
        requires
            old(self)@.valid(),
        ensures
            final(self)@.valid(),
            final(self)@ == old(self)@.correlated(number),
            match old(self)@.correlation(number) {
                Ok(kind) => r == Ok::<TmuxCommandResultKind, &'static str>(kind),
                Err(message) => r matches Err(text) && text@ == message,
            },
    {
        proof {
            law_tracker_stays_bounded(self@, TmuxCommandKind::Continue, number);
        }
        let ghost before = self@;
        if let Some(last) = self.last_result_number {
            if number <= last {
                return Err("tmux command result number did not advance");
            }
        }
        self.last_result_number = Some(number);
        if let Some(kind) = self.pending.pop_front() {
            assert(self.pending@ =~= before.pending.drop_first());
            return Ok(TmuxCommandResultKind::Pending(kind));
        }
        if !self.session_established && !self.bootstrap_result_seen {
            self.bootstrap_result_seen = true;
            return Ok(TmuxCommandResultKind::Bootstrap);
        }
        Err("tmux returned a command result without a pending adapter command")
    }
}

/// Result of a cleanup: why it failed, where it did.
pub type CleanupResult = Result<(), String>;

/// A copy of a cleanup result.
pub fn copied_cleanup(result: &CleanupResult) -> (r: CleanupResult)
    ensures
        r == *result,
{
    match result {
        Ok(done) => Ok(*done),
        Err(error) => Err(error.clone()),
    }
}

/// What a look at the completion channel brought.
#[derive(Debug, PartialEq, Eq)]
pub enum CompletionPoll {
    /// The control waiter reported its cleanup.
    Received(CleanupResult),
    /// Nothing was reported yet.
    Empty,
    /// The control waiter is gone without a report.
    Disconnected,
}

/// Whether the control client of an imported pane was cleaned up.
#[derive(Debug, PartialEq, Eq)]
pub enum TmuxCompletion {
    Pending,
    Complete(CleanupResult),
}

/// Whether a cleanup result is the report that the waiter never sent.
pub open spec fn is_lost_report(result: CleanupResult) -> bool {
    result matches Err(message) && message@
        == "tmux control waiter ended without a completion receipt"@
}

impl TmuxCompletion {
    /// The result that stays once it was seen.
    pub open spec fn settles(&self, poll: CompletionPoll, after: TmuxCompletion) -> bool {
        match *self {
            TmuxCompletion::Complete(_) => after == *self,
            TmuxCompletion::Pending => match poll {
                CompletionPoll::Received(result) => after == TmuxCompletion::Complete(result),
                CompletionPoll::Empty => after == *self,
                CompletionPoll::Disconnected => after matches TmuxCompletion::Complete(result)
                    && is_lost_report(result),
            },
        }
    }

    /// Look for the completion without waiting: `None` while it is pending. A
    /// completion that was seen once stays.
    pub fn observe(&mut self, poll: CompletionPoll) -> (r: Option<CleanupResult>)
        ensures
            old(self).settles(poll, *final(self)),
            r == (match *final(self) {
                TmuxCompletion::Complete(result) => Some(result),
                TmuxCompletion::Pending => None,
            }),
    {
        if let TmuxCompletion::Pending = self {
            match poll {
                CompletionPoll::Received(result) => {
                    *self = TmuxCompletion::Complete(result);
                },
                CompletionPoll::Empty => {},
                CompletionPoll::Disconnected => {
                    *self = TmuxCompletion::Complete(
                        Err(owned("tmux control waiter ended without a completion receipt")),
                    );
                },
            }
        }
        match self {
            TmuxCompletion::Complete(result) => Some(copied_cleanup(result)),
            TmuxCompletion::Pending => None,
        }
    }

    /// Whether a closed control client has nothing left to clean up: its
    /// writer is closed and its waiter reported success.
    pub fn closed_quiescence_result(&mut self, writer_open: bool, poll: CompletionPoll) -> (r:
        CleanupResult)
        ensures
            if writer_open {
                &&& r matches Err(message) && message@ == "tmux control writer is still open"@
                &&& *final(self) == *old(self)
            } else {
                &&& old(self).settles(poll, *final(self))
                &&& match *final(self) {
                    TmuxCompletion::Complete(result) => r == result,
                    TmuxCompletion::Pending => r matches Err(message) && message@
                        == "tmux control cleanup is still pending"@,
                }
            },
    {
        if writer_open {
            return Err(owned("tmux control writer is still open"));
        }
        match self.observe(poll) {
            Some(result) => result,
            None => Err(owned("tmux control cleanup is still pending")),
        }
    }

    /// Judge a bounded wait. A wait that ran out leaves the completion pending.
    pub fn wait(&mut self, poll: CompletionPoll) -> (r: CleanupResult)
        ensures
            old(self).settles(poll, *final(self)),
            match *final(self) {
                TmuxCompletion::Complete(result) => r == result,
                TmuxCompletion::Pending => r matches Err(message) && message@
                    == "timed out waiting for tmux control cleanup"@,
            },
    {
        match self.observe(poll) {
            Some(result) => result,
            None => Err(owned("timed out waiting for tmux control cleanup")),
        }
    }
}

/// A completion that was seen is seen again, whatever the channel does.
pub proof fn law_completion_is_reusable(
    before: TmuxCompletion,
    poll: CompletionPoll,
    after: TmuxCompletion,
)
    requires
        before is Complete,
        before.settles(poll, after),
    ensures
        after == before,
{
}

} // verus!
