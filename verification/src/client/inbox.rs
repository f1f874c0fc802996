//! Bounded inbox between the connection reader and the one event consumer.
//!
//! Output that does not fit is replaced by a gap that the consumer can recover
//! from by reattaching. Every other event is kept in order or refused.

use std::collections::VecDeque;

use vstd::prelude::*;
use vstd::utf8::encode_utf8;

use crate::client::error::ClientError;
use crate::protocol::{RunEvent, TmuxRunEvent};

verus! {

/// Events that may wait for the consumer.
pub const MAX_QUEUED_EVENTS: usize = 256;

/// Payload bytes that may wait for the consumer.
pub const MAX_QUEUED_EVENT_BYTES: usize = 1048576;

/// Payload bytes of one event.
pub open spec fn event_size(event: RunEvent) -> int {
    match event {
        RunEvent::Output { chunk } => chunk.data@.len() as int,
        RunEvent::Tmux { event: TmuxRunEvent::SessionRenamed { name } } => encode_utf8(
            name@,
        ).len() as usize as int,
        _ => 0,
    }
}

/// Payload bytes of a queue.
pub open spec fn queued_size(queue: Seq<RunEvent>) -> int
    decreases queue.len(),
{
    if queue.len() == 0 {
        0
    } else {
        event_size(queue[0]) + queued_size(queue.drop_first())
    }
}

/// Whether no event may follow this one.
pub open spec fn ends_lifecycle(event: RunEvent) -> bool {
    event is Exited || event is Interrupted
}

/// The later of two optional gaps.
pub open spec fn widened(gap: Option<u64>, latest: u64) -> Option<u64> {
    match gap {
        Some(earlier) if earlier > latest => Some(earlier),
        _ => Some(latest),
    }
}

/// What an inbox holds.
pub struct InboxView {
    pub queue: Seq<RunEvent>,
    pub gap: Option<u64>,
    pub terminal: Option<RunEvent>,
    pub saw_terminal: bool,
    pub closed: bool,
    pub error: Option<ClientError>,
    pub reading: bool,
}

impl InboxView {
    /// The bounds and the shape that every inbox keeps: the event that ends
    /// the lifecycle is the last one that the consumer will see.
    pub open spec fn valid(&self) -> bool {
        &&& self.queue.len() <= MAX_QUEUED_EVENTS
        &&& queued_size(self.queue) <= MAX_QUEUED_EVENT_BYTES
        &&& self.terminal matches Some(event) ==> self.saw_terminal && ends_lifecycle(event)
        &&& forall|i: int|
            0 <= i < self.queue.len() && ends_lifecycle(#[trigger] self.queue[i])
                ==> self.saw_terminal && i == self.queue.len() - 1 && self.terminal is None
                && self.gap is None
    }

    /// Everything that the consumer will see, in order.
    pub open spec fn deliveries(&self) -> Seq<RunEvent> {
        self.queue + (match self.gap {
            Some(latest_output_bytes) => seq![RunEvent::Gap { latest_output_bytes }],
            None => seq![],
        }) + (match self.terminal {
            Some(event) => seq![event],
            None => seq![],
        })
    }

    /// Whether the payload of one more event fits.
    pub open spec fn has_room_for(&self, event: RunEvent) -> bool {
        queued_size(self.queue) + event_size(event) <= MAX_QUEUED_EVENT_BYTES
    }

    /// Whether output joins the queue as it is.
    pub open spec fn admits_output(&self, event: RunEvent) -> bool {
        self.gap is None && self.queue.len() < MAX_QUEUED_EVENTS && self.has_room_for(event)
    }

    /// The queue with a waiting gap at its end.
    pub open spec fn queue_with_gap(&self) -> Seq<RunEvent> {
        match self.gap {
            Some(latest_output_bytes) => self.queue.push(RunEvent::Gap { latest_output_bytes }),
            None => self.queue,
        }
    }

    /// Why an event is refused, where it is.
    pub open spec fn refusal(&self, event: RunEvent) -> Option<Seq<char>> {
        if self.closed {
            Some("daemon sent an event after attachment termination"@)
        } else if self.saw_terminal {
            Some("daemon sent an event after terminal lifecycle"@)
        } else if event is Tmux && (self.queue_with_gap().len() >= MAX_QUEUED_EVENTS
            || !self.has_room_for(event)) {
            Some("bounded event inbox cannot represent a non-output event loss"@)
        } else {
            None
        }
    }

    /// The inbox after an accepted event.
    pub open spec fn pushed(&self, event: RunEvent) -> InboxView {
        match event {
            RunEvent::Output { chunk } => if self.admits_output(event) {
                InboxView { queue: self.queue.push(event), ..*self }
            } else {
                InboxView { gap: widened(self.gap, chunk.end_byte), ..*self }
            },
            RunEvent::Gap { latest_output_bytes } => InboxView {
                gap: widened(self.gap, latest_output_bytes),
                ..*self
            },
            RunEvent::Exited { .. } | RunEvent::Interrupted { .. } => if self.queue.len()
                < MAX_QUEUED_EVENTS && self.gap is None {
                InboxView { queue: self.queue.push(event), saw_terminal: true, ..*self }
            } else {
                InboxView { terminal: Some(event), saw_terminal: true, ..*self }
            },
            RunEvent::Tmux { .. } => InboxView {
                queue: self.queue_with_gap().push(event),
                gap: None,
                ..*self
            },
        }
    }

    /// The inbox after its stream was ended; only the first end counts.
    pub open spec fn ended(&self, error: Option<ClientError>) -> InboxView {
        if self.closed {
            *self
        } else {
            InboxView { closed: true, error, ..*self }
        }
    }

    /// The inbox after its first delivery was taken.
    pub open spec fn advanced(&self) -> InboxView {
        if self.queue.len() > 0 {
            InboxView { queue: self.queue.drop_first(), ..*self }
        } else if self.gap is Some {
            InboxView { gap: None, ..*self }
        } else {
            InboxView { terminal: None, ..*self }
        }
    }
}

proof fn lemma_queued_size_push(queue: Seq<RunEvent>, event: RunEvent)
    ensures
        queued_size(queue.push(event)) == queued_size(queue) + event_size(event),
    decreases queue.len(),
{
    reveal_with_fuel(queued_size, 2);
    if queue.len() > 0 {
        assert(queue.push(event)[0] == queue[0]);
        assert(queue.push(event).drop_first() =~= queue.drop_first().push(event));
        lemma_queued_size_push(queue.drop_first(), event);
    }
}

proof fn lemma_queued_size_nonnegative(queue: Seq<RunEvent>)
    ensures
        queued_size(queue) >= 0,
    decreases queue.len(),
{
    if queue.len() > 0 {
        lemma_queued_size_nonnegative(queue.drop_first());
    }
}

/// An event that ends the lifecycle, or that only tmux can observe, is never
/// dropped: if it is accepted, the consumer sees it after all that was already
/// waiting, a gap included.
pub proof fn law_non_output_event_is_delivered_last(inbox: InboxView, event: RunEvent)
    requires
        inbox.valid(),
        inbox.refusal(event) is None,
        !(event is Output),
        !(event is Gap),
    ensures
        inbox.pushed(event).deliveries() == inbox.deliveries().push(event),
{
    assert(inbox.terminal is None);
    assert(inbox.pushed(event).deliveries() =~= inbox.deliveries().push(event));
}

/// Output is either delivered after all that was waiting, or covered by a gap
/// that reaches at least its end; what was waiting stays.
pub proof fn law_output_is_delivered_or_covered_by_a_gap(inbox: InboxView, event: RunEvent)
    requires
        inbox.valid(),
        inbox.refusal(event) is None,
        event is Output,
    ensures
        inbox.pushed(event).deliveries() == inbox.deliveries().push(event) || {
            &&& inbox.pushed(event).queue == inbox.queue
            &&& inbox.pushed(event).gap matches Some(latest) && latest
                >= event->Output_chunk.end_byte
            &&& inbox.gap matches Some(earlier) ==> inbox.pushed(event).gap->0 >= earlier
        },
{
    assert(inbox.terminal is None);
    if inbox.admits_output(event) {
        assert(inbox.pushed(event).deliveries() =~= inbox.deliveries().push(event));
    }
}

/// Every accepted event keeps the bounds and the shape of the inbox.
pub proof fn law_push_keeps_inbox_valid(inbox: InboxView, event: RunEvent)
    requires
        inbox.valid(),
        inbox.refusal(event) is None,
    ensures
        inbox.pushed(event).valid(),
{
    lemma_queued_size_push(inbox.queue, event);
    let with_gap = inbox.queue_with_gap();
    lemma_queued_size_push(with_gap, event);
    if let Some(latest_output_bytes) = inbox.gap {
        lemma_queued_size_push(inbox.queue, RunEvent::Gap { latest_output_bytes });
    }
    let after = inbox.pushed(event);
    assert forall|i: int| 0 <= i < after.queue.len() && ends_lifecycle(#[trigger] after.queue[i])
        implies after.saw_terminal && i == after.queue.len() - 1 && after.terminal is None
        && after.gap is None by {
        if i < inbox.queue.len() {
            assert(after.queue[i] == inbox.queue[i]);
        }
    }
}

/// Once a lifecycle end was accepted, no event is accepted any more.
pub proof fn law_nothing_follows_the_end_of_the_lifecycle(inbox: InboxView, event: RunEvent)
    requires
        inbox.saw_terminal,
    ensures
        inbox.refusal(event) is Some,
{
}

/// Bytes that one event holds while it waits.
pub fn event_bytes(event: &RunEvent) -> (r: usize)
    ensures
        r as int == event_size(*event),
{
    match event {
        RunEvent::Output { chunk } => chunk.data.len(),
        RunEvent::Tmux { event: TmuxRunEvent::SessionRenamed { name } } => name.as_str().len(),
        _ => 0,
    }
}

/// What the consumer gets from one look into the inbox.
#[derive(Debug, PartialEq, Eq)]
pub enum NextEvent {
    /// The next event, the clean end of the stream, or its failure.
    Ready(Result<Option<RunEvent>, ClientError>),
    /// Nothing yet.
    Wait,
}

/// Sole right to read from one inbox.
pub struct EventConsumerGuard(());

impl EventConsumerGuard {
    /// Take the right to read, unless another reader holds it.
    pub fn acquire(active: &mut bool) -> (r: Result<EventConsumerGuard, ClientError>)
        ensures
            *final(active),
            *old(active) ==> (r matches Err(e) && e is ConcurrentEventRead),
            !*old(active) ==> r is Ok,
    {
        if *active {
            Err(ClientError::ConcurrentEventRead)
        } else {
            *active = true;
            Ok(EventConsumerGuard(()))
        }
    }

    /// Give the right to read back.
    pub fn release(self, active: &mut bool)
        ensures
            !*final(active),
    {
        *active = false;
    }
}

/// Bounded events of one attachment.
pub struct EventInbox {
    queue: VecDeque<RunEvent>,
    queued_bytes: usize,
    pending_gap: Option<u64>,
    terminal: Option<RunEvent>,
    saw_terminal: bool,
    closed: bool,
    error: Option<ClientError>,
    consumer_active: bool,
}

impl EventInbox {
    /// What this inbox holds.
    pub closed spec fn view(&self) -> InboxView {
        InboxView {
            queue: self.queue@,
            gap: self.pending_gap,
            terminal: self.terminal,
            saw_terminal: self.saw_terminal,
            closed: self.closed,
            error: self.error,
            reading: self.consumer_active,
        }
    }

    /// Whether the inbox keeps its bounds and counts its bytes exactly.
    pub closed spec fn wf(&self) -> bool {
        self@.valid() && self.queued_bytes == queued_size(self.queue@)
    }

    /// What a well-formed inbox keeps.
    pub proof fn lemma_wf_is_valid(&self)
        requires
            self.wf(),
        ensures
            self@.valid(),
    {
    }

    /// An open inbox without events.
    pub fn new() -> (r: EventInbox)
        ensures
            r.wf(),
            r@ == (InboxView {
                queue: seq![],
                gap: None,
                terminal: None,
                saw_terminal: false,
                closed: false,
                error: None,
                reading: false,
            }),
    {
        let r = EventInbox {
            queue: VecDeque::new(),
            queued_bytes: 0,
            pending_gap: None,
            terminal: None,
            saw_terminal: false,
            closed: false,
            error: None,
            consumer_active: false,
        };
        assert(r.queue@ =~= seq![]);
        r
    }

    fn widen_gap(&mut self, latest: u64)
        ensures
            final(self).pending_gap == widened(old(self).pending_gap, latest),
            *final(self) == (EventInbox { pending_gap: final(self).pending_gap, ..*old(self) }),
    {
        let gap: u64 = match self.pending_gap {
            Some(earlier) => if earlier > latest {
                earlier
            } else {
                latest
            },
            None => latest,
        };
        self.pending_gap = Some(gap);
    }

    fn fits(&self, bytes: usize) -> (r: bool)
        requires
            self.wf(),
        ensures
            r == (queued_size(self@.queue) + bytes <= MAX_QUEUED_EVENT_BYTES),
    {
        match self.queued_bytes.checked_add(bytes) {
            Some(total) => total <= MAX_QUEUED_EVENT_BYTES,
            None => false,
        }
    }

    /// Take over one event from the daemon. A refused event changes nothing.
    pub fn push(&mut self, event: RunEvent) -> (r: Result<(), &'static str>)
        requires
            old(self).wf(),
        ensures
            final(self).wf(),
            match old(self)@.refusal(event) {
                Some(message) => {
                    &&& r matches Err(text) && text@ == message
                    &&& final(self)@ == old(self)@
                },
                None => {
                    &&& r is Ok
                    &&& final(self)@ == old(self)@.pushed(event)
                },
            },
    {
        if self.closed {
            return Err("daemon sent an event after attachment termination");
        }
        if self.saw_terminal {
            return Err("daemon sent an event after terminal lifecycle");
        }
        proof {
            lemma_queued_size_push(self.queue@, event);
            if self@.refusal(event) is None {
                law_push_keeps_inbox_valid(self@, event);
            }
            if let Some(latest_output_bytes) = self.pending_gap {
                let gap = RunEvent::Gap { latest_output_bytes };
                lemma_queued_size_push(self.queue@, gap);
                lemma_queued_size_push(self.queue@.push(gap), event);
            }
        }
        let bytes: usize = event_bytes(&event);
        match event {
            RunEvent::Output { chunk } => {
                let end_byte: u64 = chunk.end_byte;
                if self.pending_gap.is_some() || self.queue.len() == MAX_QUEUED_EVENTS
                    || !self.fits(bytes) {
                    self.widen_gap(end_byte);
                } else {
                    self.queued_bytes = self.queued_bytes + bytes;
                    self.queue.push_back(RunEvent::Output { chunk });
                }
            },
            RunEvent::Gap { latest_output_bytes } => {
                self.widen_gap(latest_output_bytes);
            },
            RunEvent::Tmux { .. } => {
                let gap_slots: usize = if self.pending_gap.is_some() {
                    1
                } else {
                    0
                };
                if self.queue.len() + gap_slots >= MAX_QUEUED_EVENTS || !self.fits(bytes) {
                    return Err("bounded event inbox cannot represent a non-output event loss");
                }
                if let Some(latest_output_bytes) = self.pending_gap.take() {
                    self.queue.push_back(RunEvent::Gap { latest_output_bytes });
                }
                self.queued_bytes = self.queued_bytes + bytes;
                self.queue.push_back(event);
            },
            _ => {
                self.saw_terminal = true;
                if self.queue.len() < MAX_QUEUED_EVENTS && self.pending_gap.is_none() {
                    self.queue.push_back(event);
                } else {
                    self.terminal = Some(event);
                }
            },
        }
        Ok(())
    }

    /// Whether the lifecycle has ended.
    pub fn saw_terminal(&self) -> (r: bool)
        ensures
            r == self@.saw_terminal,
    {
        self.saw_terminal
    }

    /// End the stream, with a failure that the consumer sees last. Only the
    /// first close counts.
    pub fn close(&mut self, error: Option<ClientError>)
        requires
            old(self).wf(),
        ensures
            final(self).wf(),
            final(self)@ == old(self)@.ended(error),
    {
        if self.closed {
            return ;
        }
        self.closed = true;
        self.error = error;
    }

    /// Take the sole right to read.
    pub fn begin_read(&mut self) -> (r: Result<EventConsumerGuard, ClientError>)
        requires
            old(self).wf(),
        ensures
            final(self).wf(),
            final(self)@ == (InboxView { reading: true, ..old(self)@ }),
            old(self)@.reading ==> (r matches Err(e) && e is ConcurrentEventRead),
            !old(self)@.reading ==> r is Ok,
    {
        EventConsumerGuard::acquire(&mut self.consumer_active)
    }

    /// Give the right to read back.
    pub fn end_read(&mut self, guard: EventConsumerGuard)
        requires
            old(self).wf(),
        ensures
            final(self).wf(),
            final(self)@ == (InboxView { reading: false, ..old(self)@ }),
    {
        guard.release(&mut self.consumer_active)
    }

    /// Hand out the next delivery. The failure of a closed stream comes after
    /// every delivery and only once; then the stream stays at its end.
    pub fn next(&mut self) -> (r: NextEvent)
        requires
            old(self).wf(),
        ensures
            final(self).wf(),
            if old(self)@.deliveries().len() > 0 {
                &&& r matches NextEvent::Ready(Ok(Some(event))) && event
                    == old(self)@.deliveries()[0]
                &&& final(self)@ == old(self)@.advanced()
                &&& final(self)@.deliveries() == old(self)@.deliveries().drop_first()
            } else if old(self)@.error is Some {
                &&& r matches NextEvent::Ready(Err(e)) && Some(e) == old(self)@.error
                &&& final(self)@ == (InboxView { error: None, ..old(self)@ })
            } else {
                &&& final(self)@ == old(self)@
                &&& old(self)@.closed ==> (r matches NextEvent::Ready(Ok(None)))
                &&& !old(self)@.closed ==> r is Wait
            },
    {
        let ghost before = self@;
        match self.queue.pop_front() {
            Some(event) => {
                proof {
                    assert(self.queue@ =~= before.queue.drop_first());
                    lemma_queued_size_nonnegative(self.queue@);
                    assert(before.deliveries()[0] == before.queue[0]);
                    assert(self@.deliveries() =~= before.deliveries().drop_first());
                    assert forall|i: int|
                        0 <= i < self.queue@.len() && ends_lifecycle(#[trigger] self.queue@[i])
                        implies self.saw_terminal && i == self.queue@.len() - 1
                        && self.terminal is None && self.pending_gap is None by {
                        assert(self.queue@[i] == before.queue[i + 1]);
                    }
                }
                self.queued_bytes = self.queued_bytes - event_bytes(&event);
                return NextEvent::Ready(Ok(Some(event)));
            },
            None => {},
        }
        assert(before.queue =~= seq![]);
        if let Some(latest_output_bytes) = self.pending_gap.take() {
            assert(self@.deliveries() =~= before.deliveries().drop_first());
            return NextEvent::Ready(Ok(Some(RunEvent::Gap { latest_output_bytes })));
        }
        if let Some(event) = self.terminal.take() {
            assert(self@.deliveries() =~= before.deliveries().drop_first());
            return NextEvent::Ready(Ok(Some(event)));
        }
        if let Some(error) = self.error.take() {
            return NextEvent::Ready(Err(error));
        }
        if self.closed {
            NextEvent::Ready(Ok(None))
        } else {
            NextEvent::Wait
        }
    }
}

} // verus!
