//! What a client's reader of events gets, and in what order.

use vstd::prelude::*;
use vstd::utf8::encode_utf8;

use crate::client::error::ClientError;
use crate::client::inbox::{
    event_size, queued_size, EventConsumerGuard, EventInbox, InboxView, NextEvent,
};
use crate::client::replay::{begin_replay, receive_replay, replay_bytes, replay_complete};
use crate::output::{bytes_of, chunk_views, lemma_bytes_of_push};
use crate::protocol::{
    AttachedSnapshot, AttachedSnapshotHeader, OutputChunk, OutputReplay, RunEvent, ServerFrame,
    TmuxRunEvent,
};

verus! {

/// What a client still has to tell its reader: the queued events, then the gap,
/// then the end.
pub open spec fn left_to_tell(inbox: InboxView) -> Seq<RunEvent> {
    inbox.queue + (match inbox.gap {
        Some(latest_output_bytes) => seq![RunEvent::Gap { latest_output_bytes }],
        None => seq![],
    }) + (match inbox.terminal {
        Some(event) => seq![event],
        None => seq![],
    })
}

/// The bytes that some events hold: their output and their names.
pub open spec fn bytes_held(queue: Seq<RunEvent>) -> int
    decreases queue.len(),
{
    if queue.len() == 0 {
        0
    } else {
        (match queue[0] {
            RunEvent::Output { chunk } => chunk.data@.len() as int,
            RunEvent::Tmux { event: TmuxRunEvent::SessionRenamed { name } } => encode_utf8(
                name@,
            ).len() as usize as int,
            _ => 0,
        }) + bytes_held(queue.drop_first())
    }
}

/// The inbox counts the bytes that its events hold.
pub proof fn lemma_bytes_held(queue: Seq<RunEvent>)
    ensures
        bytes_held(queue) == queued_size(queue),
    decreases queue.len(),
{
    if queue.len() > 0 {
        lemma_bytes_held(queue.drop_first());
    }
}

/// Output is told in its place as long as no gap is open, fewer than 256 events
/// are queued and they hold a mebibyte at most with it. Otherwise a gap that
/// reaches behind it takes its place, and what is queued stays.
pub proof fn law_output_is_told_or_covered_by_a_gap(
    inbox: &mut EventInbox,
    chunk: OutputChunk,
    r: Result<(), &'static str>,
)
    requires
        !old(inbox)@.closed,
        !old(inbox)@.saw_terminal,
        call_ensures(EventInbox::push, (inbox, RunEvent::Output { chunk }), r),
    ensures
        r is Ok,
        ({
            let before = old(inbox)@;
            let after = final(inbox)@;
            let fits = before.gap is None && before.queue.len() < 256 && bytes_held(before.queue)
                + chunk.data@.len() <= 1048576;
            &&& fits ==> after == (InboxView {
                queue: before.queue.push(RunEvent::Output { chunk }),
                ..before
            })
            &&& !fits ==> after.queue == before.queue && (after.gap matches Some(latest) && latest
                >= chunk.end_byte && (before.gap matches Some(earlier) ==> latest >= earlier) && (
            latest == chunk.end_byte || before.gap == Some(latest)))
            &&& after.terminal == before.terminal && !after.saw_terminal && !after.closed
        }),
{
    lemma_bytes_held(old(inbox)@.queue);
}

/// A gap that the daemon tells of is kept, and never shrinks one that is open.
pub proof fn law_a_gap_is_kept(inbox: &mut EventInbox, latest: u64, r: Result<(), &'static str>)
    requires
        !old(inbox)@.closed,
        !old(inbox)@.saw_terminal,
        call_ensures(
            EventInbox::push,
            (inbox, RunEvent::Gap { latest_output_bytes: latest }),
            r,
        ),
    ensures
        r is Ok,
        final(inbox)@.queue == old(inbox)@.queue,
        final(inbox)@.gap matches Some(kept) && kept >= latest && (old(inbox)@.gap matches Some(
            earlier,
        ) ==> kept >= earlier) && (kept == latest || old(inbox)@.gap == Some(kept)),
{
}

/// The end of a Run is always taken and told last; nothing is taken behind it.
pub proof fn law_the_end_is_told_last(
    inbox: &mut EventInbox,
    event: RunEvent,
    r: Result<(), &'static str>,
)
    requires
        event is Exited || event is Interrupted,
        !old(inbox)@.closed,
        !old(inbox)@.saw_terminal,
        old(inbox)@.terminal is None,
        call_ensures(EventInbox::push, (inbox, event), r),
    ensures
        r is Ok,
        left_to_tell(final(inbox)@) == left_to_tell(old(inbox)@).push(event),
        final(inbox)@.saw_terminal,
{
    assert(left_to_tell(final(inbox)@) =~= left_to_tell(old(inbox)@).push(event));
}

/// An event of tmux is told in its place, behind an open gap, or is refused
/// where there is no room: it is never left out silently.
pub proof fn law_a_tmux_event_is_told_or_refused(
    inbox: &mut EventInbox,
    event: TmuxRunEvent,
    r: Result<(), &'static str>,
)
    requires
        !old(inbox)@.closed,
        !old(inbox)@.saw_terminal,
        old(inbox)@.terminal is None,
        call_ensures(EventInbox::push, (inbox, RunEvent::Tmux { event }), r),
    ensures
        r is Ok ==> left_to_tell(final(inbox)@) == left_to_tell(old(inbox)@).push(
            RunEvent::Tmux { event },
        ),
        r is Err ==> final(inbox)@ == old(inbox)@,
        old(inbox)@.queue.len() < 255 && bytes_held(
            old(inbox)@.queue.push(RunEvent::Tmux { event }),
        ) <= 1048576 ==> r is Ok,
{
    let queue = old(inbox)@.queue;
    lemma_bytes_held(queue);
    lemma_bytes_held(queue.push(RunEvent::Tmux { event }));
    lemma_size_push(queue, RunEvent::Tmux { event });
    if r is Ok {
        assert(left_to_tell(final(inbox)@) =~= left_to_tell(old(inbox)@).push(
            RunEvent::Tmux { event },
        ));
    }
}

proof fn lemma_size_push(queue: Seq<RunEvent>, event: RunEvent)
    ensures
        queued_size(queue.push(event)) == queued_size(queue) + event_size(event),
    decreases queue.len(),
{
    if queue.len() == 0 {
        assert(queue.push(event).drop_first() =~= queue);
    } else {
        lemma_size_push(queue.drop_first(), event);
        assert(queue.push(event).drop_first() =~= queue.drop_first().push(event));
    }
}

/// Nothing is taken once the Run ended or the attachment did.
pub proof fn law_nothing_is_taken_behind_the_end(
    inbox: &mut EventInbox,
    event: RunEvent,
    r: Result<(), &'static str>,
)
    requires
        old(inbox)@.closed || old(inbox)@.saw_terminal,
        call_ensures(EventInbox::push, (inbox, event), r),
    ensures
        r is Err,
        final(inbox)@ == old(inbox)@,
{
}

/// Events are read in the order in which they were told, each once. Then comes
/// the failure of the attachment, once, and then its end; while it goes on, the
/// reader waits.
pub proof fn law_events_are_read_in_order(inbox: &mut EventInbox, next: NextEvent)
    requires
        call_ensures(EventInbox::next, (inbox,), next),
    ensures
        ({
            let before = old(inbox)@;
            let after = final(inbox)@;
            let left = left_to_tell(before);
            if left.len() > 0 {
                &&& next == NextEvent::Ready(Ok(Some(left[0])))
                &&& left_to_tell(after) == left.drop_first()
                &&& after.error == before.error && after.closed == before.closed
            } else if before.error is Some {
                &&& next == NextEvent::Ready(Err(before.error->Some_0))
                &&& after.error is None && after.closed == before.closed
                &&& left_to_tell(after).len() == 0
            } else {
                &&& after == before
                &&& before.closed ==> next == NextEvent::Ready(Ok(None))
                &&& !before.closed ==> next is Wait
            }
        }),
{
    assert(left_to_tell(old(inbox)@) =~= old(inbox)@.deliveries());
    assert(left_to_tell(final(inbox)@) =~= final(inbox)@.deliveries());
}

/// A new inbox holds nothing. Only the first close counts, and it keeps what is
/// left to tell.
pub proof fn law_only_the_first_close_counts(
    fresh: EventInbox,
    inbox: &mut EventInbox,
    error: Option<ClientError>,
)
    requires
        call_ensures(EventInbox::new, (), fresh),
        call_ensures(EventInbox::close, (inbox, error), ()),
    ensures
        left_to_tell(fresh@).len() == 0 && !fresh@.closed && fresh@.error is None
            && !fresh@.saw_terminal && !fresh@.reading,
        final(inbox)@.closed,
        left_to_tell(final(inbox)@) == left_to_tell(old(inbox)@),
        old(inbox)@.closed ==> final(inbox)@ == old(inbox)@,
        !old(inbox)@.closed ==> final(inbox)@.error == error,
{
}

/// One reader reads at a time.
pub proof fn law_one_reader_reads_at_a_time(
    inbox: &mut EventInbox,
    begun: Result<EventConsumerGuard, ClientError>,
    ending: &mut EventInbox,
    guard: EventConsumerGuard,
)
    requires
        call_ensures(EventInbox::begin_read, (inbox,), begun),
        call_ensures(EventInbox::end_read, (ending, guard), ()),
    ensures
        begun is Ok <==> !old(inbox)@.reading,
        begun matches Err(error) ==> error is ConcurrentEventRead,
        final(inbox)@ == (InboxView { reading: true, ..old(inbox)@ }),
        final(ending)@ == (InboxView { reading: false, ..old(ending)@ }),
{
}

/// A replay begins empty, with the bounds that the daemon announced.
pub proof fn law_a_replay_begins_with_its_bounds(
    header: AttachedSnapshotHeader,
    begun: AttachedSnapshot,
)
    requires
        call_ensures(begin_replay, (header,), begun),
    ensures
        begun.run == header.run,
        begun.replay.chunks@.len() == 0,
        begun.replay.first_available_byte == header.replay.first_available_byte,
        begun.replay.latest_output_bytes == header.replay.latest_output_bytes,
        begun.replay.truncated == header.replay.truncated,
{
}

/// A replay takes the next chunk exactly where it follows the last one, or for
/// the first where the reader is, or where the output begins; has as many bytes as
/// it says; and does not exceed what was announced. It takes it as it came.
pub proof fn law_a_replay_takes_the_next_chunk(
    snapshot: &mut AttachedSnapshot,
    after_byte: u64,
    chunk: OutputChunk,
    r: Result<(), ClientError>,
)
    requires
        call_ensures(
            receive_replay,
            (
                snapshot,
                after_byte,
                Ok(Some(ServerFrame::Event { event: RunEvent::Output { chunk } })),
            ),
            r,
        ),
    ensures
        ({
            let before = old(snapshot).replay;
            let place = if before.chunks@.len() > 0 {
                before.chunks@.last().end_byte
            } else if after_byte >= before.first_available_byte {
                after_byte
            } else {
                before.first_available_byte
            };
            &&& r is Ok <==> chunk.start_byte == place && chunk.start_byte < chunk.end_byte
                && chunk.end_byte - chunk.start_byte == chunk.data@.len() && chunk.end_byte
                <= before.latest_output_bytes
            &&& r is Ok ==> final(snapshot).replay.chunks@ == before.chunks@.push(chunk)
            &&& r is Err ==> final(snapshot).replay.chunks@ == before.chunks@
        }),
        final(snapshot).run == old(snapshot).run,
        final(snapshot).replay.latest_output_bytes == old(snapshot).replay.latest_output_bytes,
        final(snapshot).replay.first_available_byte == old(snapshot).replay.first_available_byte,
{
}

/// Anything but output ends a replay with a failure: the daemon's own, that of
/// the transport, or that of a closed or confused connection.
pub proof fn law_a_replay_takes_only_output(
    snapshot: &mut AttachedSnapshot,
    after_byte: u64,
    received: Result<Option<ServerFrame>, ClientError>,
    r: Result<(), ClientError>,
)
    requires
        !(received matches Ok(Some(ServerFrame::Event { event: RunEvent::Output { .. } }))),
        call_ensures(receive_replay, (snapshot, after_byte, received), r),
    ensures
        r is Err,
        final(snapshot).replay.chunks@ == old(snapshot).replay.chunks@,
        received matches Err(error) ==> r->Err_0 == error,
        received matches Ok(None) ==> r->Err_0 is Closed,
        received matches Ok(Some(ServerFrame::Error { error })) ==> r->Err_0 == (
        ClientError::Protocol { code: error.code, message: error.message }),
{
}

/// The bytes of some chunks, one after another.
pub open spec fn bytes_one_after_another(chunks: Seq<OutputChunk>) -> Seq<u8>
    decreases chunks.len(),
{
    if chunks.len() == 0 {
        seq![]
    } else {
        bytes_one_after_another(chunks.drop_last()) + chunks.last().data@
    }
}

proof fn lemma_bytes_one_after_another(chunks: Seq<OutputChunk>)
    ensures
        bytes_of(chunk_views(chunks)) == bytes_one_after_another(chunks),
    decreases chunks.len(),
{
    let views = chunk_views(chunks);
    if chunks.len() > 0 {
        let shorter = chunks.drop_last();
        lemma_bytes_one_after_another(shorter);
        assert(views =~= chunk_views(shorter).push(chunks.last()@));
        lemma_bytes_of_push(chunk_views(shorter), chunks.last()@);
    }
}

/// A replay is complete exactly where it reached what was announced.
pub proof fn law_a_replay_is_complete_at_its_bound(
    replay: OutputReplay,
    after_byte: u64,
    complete: bool,
    bytes: Vec<u8>,
    chunks: &[OutputChunk],
)
    requires
        call_ensures(replay_complete, (&replay, after_byte), complete),
        call_ensures(replay_bytes, (chunks,), bytes),
    ensures
        replay.chunks@.len() > 0 ==> (complete <==> replay.chunks@.last().end_byte
            == replay.latest_output_bytes),
        replay.chunks@.len() == 0 ==> (complete <==> after_byte >= replay.latest_output_bytes),
        bytes@ == bytes_one_after_another(chunks@),
{
    lemma_bytes_one_after_another(chunks@);
}

} // verus!
