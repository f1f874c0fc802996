//! What becomes of the output of a Run.

use vstd::prelude::*;

use crate::daemon::output_log::{
    law_push_keeps_log_valid, law_replay_brings_every_retained_byte, retained_after,
    within_retention, LogView, OutputLog,
};
use crate::daemon::run::{OwnerCursors, Run, RunEffects};
use crate::output::{
    bytes_of, chunk_views, contiguous_from, law_contiguous_chunks_hold_every_byte,
    lemma_bytes_of_concat, lemma_bytes_of_push, ChunkView,
};
use crate::protocol::{AttachedSnapshot, OutputChunk, OutputReplay, RunEvent};

verus! {

proof fn lemma_bytes_of_one(chunk: ChunkView)
    ensures
        bytes_of(seq![chunk]) == chunk.data,
{
    lemma_bytes_of_push(seq![], chunk);
    assert(seq![].push(chunk) =~= seq![chunk]);
    assert(bytes_of(seq![chunk]) =~= chunk.data);
}

proof fn lemma_first_chunk_apart(chunks: Seq<ChunkView>)
    requires
        chunks.len() > 0,
    ensures
        bytes_of(chunks) == chunks[0].data + bytes_of(chunks.drop_first()),
{
    let head = seq![chunks[0]];
    lemma_bytes_of_one(chunks[0]);
    lemma_bytes_of_concat(head, chunks.drop_first());
    assert(head + chunks.drop_first() =~= chunks);
}

/// What the retention keeps of some chunks is their end, from the first place on
/// at which it fits.
pub proof fn lemma_least_eviction(chunks: Seq<ChunkView>) -> (removed: int)
    requires
        chunks.len() > 0,
    ensures
        0 <= removed < chunks.len(),
        within_retention(chunks) == chunks.skip(removed),
        removed > 0 ==> chunks[removed - 1].data.len() + bytes_of(chunks.skip(removed)).len()
            > 4194304,
        bytes_of(chunks.skip(removed)).len() <= 4194304 || removed == chunks.len() - 1,
    decreases chunks.len(),
{
    if bytes_of(chunks).len() > 4194304 && chunks.len() > 1 {
        let shorter = chunks.drop_first();
        let removed = lemma_least_eviction(shorter);
        lemma_first_chunk_apart(chunks);
        assert(shorter.skip(removed) =~= chunks.skip(removed + 1));
        if removed == 0 {
            assert(shorter.skip(0) =~= shorter);
        } else {
            assert(shorter[removed - 1] == chunks[removed]);
        }
        removed + 1
    } else {
        assert(chunks.skip(0) =~= chunks);
        0
    }
}

/// Output is evicted only where it must be. As long as what is retained and
/// what is new come to four mebibytes at most, every chunk stays. Otherwise the
/// oldest chunks leave, no more than it takes: what stays and the last chunk
/// that left are more than four mebibytes together, and what stays is not,
/// unless it is the new chunk alone.
pub proof fn law_output_is_evicted_only_where_it_must_be(
    log: &mut OutputLog,
    data: Vec<u8>,
    chunk: OutputChunk,
) -> (removed: int)
    requires
        call_ensures(OutputLog::push, (log, data), chunk),
    ensures
        ({
            let all = old(log)@.chunks.push(chunk@);
            let kept = final(log)@.chunks;
            &&& bytes_of(old(log)@.chunks).len() + data@.len() <= 4194304 ==> kept == all
            &&& 0 <= removed < all.len()
            &&& kept == all.skip(removed)
            &&& removed > 0 ==> all[removed - 1].data.len() + bytes_of(kept).len() > 4194304
            &&& bytes_of(kept).len() <= 4194304 || kept == seq![chunk@]
        }),
{
    let all = old(log)@.chunks.push(chunk@);
    let removed = lemma_least_eviction(all);
    lemma_bytes_of_push(old(log)@.chunks, chunk@);
    if removed == all.len() - 1 {
        assert(all.skip(removed) =~= seq![chunk@]);
    }
    if bytes_of(all).len() <= 4194304 && removed > 0 {
        let kept = all.skip(removed);
        let front = all.take(removed);
        assert(front + kept =~= all);
        lemma_bytes_of_concat(front, kept);
        assert(front.drop_last().push(front.last()) =~= front);
        lemma_bytes_of_push(front.drop_last(), front.last());
        assert(front.last() == all[removed - 1]);
    }
    if removed == 0 {
        assert(all.skip(0) =~= all);
    }
    removed
}

/// New output becomes one chunk with exactly its bytes, which begins where the
/// output ended so far. The cursor advances by as many bytes, and what the
/// source lost earlier stays noted.
pub proof fn law_new_output_follows_the_old(log: &mut OutputLog, data: Vec<u8>, chunk: OutputChunk)
    requires
        call_ensures(OutputLog::push, (log, data), chunk),
        old(log)@.latest + data@.len() <= u64::MAX,
    ensures
        chunk.data@ == data@,
        chunk.start_byte == old(log)@.latest,
        chunk.end_byte == old(log)@.latest + data@.len(),
        final(log)@.latest == old(log)@.latest + data@.len(),
        final(log)@.gap == old(log)@.gap,
        final(log)@.chunks.len() > 0 && final(log)@.chunks.last() == chunk@,
{
    let removed = law_output_is_evicted_only_where_it_must_be(log, data, chunk);
}

/// A replay holds the retained bytes after the cursor, all of them and in
/// order, and says how far it goes. It is truncated exactly where bytes after
/// the cursor are gone: evicted ones, or ones that the source lost.
pub proof fn law_a_replay_holds_what_is_retained_after_the_cursor(
    log: OutputLog,
    after: u64,
    replay: OutputReplay,
)
    requires
        log@.chunks.len() > 0,
        contiguous_from(log@.chunks, log@.chunks[0].start_byte as int),
        log@.chunks.last().end_byte == log@.latest,
        call_ensures(OutputLog::replay, (&log, after), replay),
    ensures
        ({
            let first = log@.chunks[0].start_byte;
            let retained = bytes_of(log@.chunks);
            let held = bytes_of(chunk_views(replay.chunks@));
            &&& replay.first_available_byte == first
            &&& replay.latest_output_bytes == log@.latest
            &&& after <= first ==> held == retained
            &&& first <= after <= log@.latest ==> held == retained.skip(after - first)
            &&& after >= log@.latest ==> held.len() == 0
            &&& contiguous_from(
                chunk_views(replay.chunks@),
                if after >= first {
                    after as int
                } else {
                    first as int
                },
            )
            &&& replay.truncated <==> after < first || (log@.gap matches Some(lost) && after
                <= lost)
        }),
{
    law_replay_brings_every_retained_byte(log@, after);
    law_contiguous_chunks_hold_every_byte(
        log@.chunks,
        log@.chunks[0].start_byte as int,
    );
    assert(bytes_of(log@.chunks).skip(0) =~= bytes_of(log@.chunks));
}

/// A log without output replays nothing, and says so: only where the source had
/// output before it was observed is the replay truncated.
pub proof fn law_an_empty_log_replays_nothing(
    log: OutputLog,
    late: OutputLog,
    after: u64,
    replay: OutputReplay,
    cut: OutputReplay,
)
    requires
        call_ensures(OutputLog::new, (), log),
        call_ensures(OutputLog::with_initial_truncation, (), late),
        call_ensures(OutputLog::replay, (&log, after), replay),
        call_ensures(OutputLog::replay, (&late, after), cut),
    ensures
        replay.chunks@.len() == 0 && cut.chunks@.len() == 0,
        replay.latest_output_bytes == 0 && cut.latest_output_bytes == 0,
        replay.first_available_byte == 0 && cut.first_available_byte == 0,
        !replay.truncated,
        cut.truncated <==> after == 0,
{
    assert(chunk_views(replay.chunks@).len() == replay.chunks@.len());
    assert(chunk_views(cut.chunks@).len() == cut.chunks@.len());
}

/// A loss at the source cuts every reader that had not gone past it, and
/// changes nothing of what is retained.
pub proof fn law_a_lost_source_is_noted(log: &mut OutputLog, at: u64)
    requires
        call_ensures(OutputLog::mark_source_gap, (log,), at),
    ensures
        at == old(log)@.latest,
        final(log)@.gap == Some(at),
        final(log)@.chunks == old(log)@.chunks,
        final(log)@.latest == old(log)@.latest,
{
}

/// All bytes that some outputs print.
pub open spec fn printed(outputs: Seq<Seq<u8>>) -> Seq<u8>
    decreases outputs.len(),
{
    if outputs.len() == 0 {
        seq![]
    } else {
        printed(outputs.drop_last()) + outputs.last()
    }
}

/// A fresh log after some outputs.
pub open spec fn log_of(outputs: Seq<Seq<u8>>) -> LogView
    decreases outputs.len(),
{
    if outputs.len() == 0 {
        LogView { chunks: seq![], latest: 0, gap: None }
    } else {
        log_of(outputs.drop_last()).pushed(outputs.last())
    }
}

proof fn lemma_short_history(outputs: Seq<Seq<u8>>)
    requires
        printed(outputs).len() <= 4194304,
        forall|i: int| 0 <= i < outputs.len() ==> (#[trigger] outputs[i]).len() > 0,
    ensures
        log_of(outputs).chunks.len() == outputs.len(),
        bytes_of(log_of(outputs).chunks) == printed(outputs),
        log_of(outputs).latest == printed(outputs).len(),
        log_of(outputs).gap is None,
        log_of(outputs).valid(),
        outputs.len() > 0 ==> log_of(outputs).chunks[0].start_byte == 0,
    decreases outputs.len(),
{
    if outputs.len() > 0 {
        let before = outputs.drop_last();
        assert forall|i: int| 0 <= i < before.len() implies (#[trigger] before[i]).len() > 0 by {
            assert(before[i] == outputs[i]);
        }
        lemma_short_history(before);
        let log = log_of(before);
        let chunk = log.next_chunk(outputs.last());
        let all = log.chunks.push(chunk);
        lemma_bytes_of_push(log.chunks, chunk);
        assert(outputs[outputs.len() - 1].len() > 0);
        law_push_keeps_log_valid(log, outputs.last());
        assert(within_retention(all) == all);
    }
}

/// A Run that has printed four mebibytes at most is replayed whole: from any
/// cursor a reader gets exactly the bytes that were printed after it, however
/// many chunks they came in, and nothing is truncated.
pub proof fn law_a_short_history_is_replayed_whole(
    outputs: Seq<Seq<u8>>,
    log: OutputLog,
    after: u64,
    replay: OutputReplay,
)
    requires
        printed(outputs).len() <= 4194304,
        forall|i: int| 0 <= i < outputs.len() ==> (#[trigger] outputs[i]).len() > 0,
        log@ == log_of(outputs),
        after <= printed(outputs).len(),
        call_ensures(OutputLog::replay, (&log, after), replay),
    ensures
        bytes_of(chunk_views(replay.chunks@)) == printed(outputs).skip(after as int),
        replay.first_available_byte == 0,
        replay.latest_output_bytes == printed(outputs).len(),
        !replay.truncated,
{
    lemma_short_history(outputs);
    if outputs.len() == 0 {
        assert(chunk_views(replay.chunks@).len() == replay.chunks@.len());
        assert(bytes_of(chunk_views(replay.chunks@)) =~= printed(outputs).skip(after as int));
    } else {
        law_a_replay_holds_what_is_retained_after_the_cursor(log, after, replay);
        assert(printed(outputs).skip(0) =~= printed(outputs));
    }
}

/// What a Run prints is retained and told to its live readers as it was
/// printed, and to nobody else.
pub proof fn law_printed_output_is_retained_and_told(
    run: &mut Run,
    data: Vec<u8>,
    effects: RunEffects,
)
    requires
        data@.len() > 0,
        old(run)@.output.latest + data@.len() <= u64::MAX,
        call_ensures(Run::record_output, (run, data), effects),
    ensures
        final(run)@.output.latest == old(run)@.output.latest + data@.len(),
        final(run)@.output.chunks.len() > 0,
        final(run)@.output.chunks.last().data == data@,
        bytes_of(old(run)@.output.chunks).len() + data@.len() <= 4194304 ==> bytes_of(
            final(run)@.output.chunks,
        ) == bytes_of(old(run)@.output.chunks) + data@,
        old(run)@.attachments == 0 ==> effects.event is None,
        old(run)@.attachments > 0 ==> (effects.event matches Some(RunEvent::Output { chunk })
            && chunk.data@ == data@ && chunk.start_byte == old(run)@.output.latest
            && chunk.end_byte == old(run)@.output.latest + data@.len()),
        final(run)@.state == old(run)@.state,
        final(run)@.id == old(run)@.id,
        final(run)@.attachments == old(run)@.attachments,
        final(run)@.pid == old(run)@.pid,
        final(run)@.control == old(run)@.control,
        final(run)@.ordinal == old(run)@.ordinal,
        final(run)@.spec == old(run)@.spec,
{
    let log = old(run)@.output;
    let chunk = log.next_chunk(data@);
    let all = log.chunks.push(chunk);
    let removed = lemma_least_eviction(all);
    lemma_bytes_of_push(log.chunks, chunk);
    if bytes_of(all).len() <= 4194304 {
        assert(within_retention(all) == all);
    }
}

/// What a new reader sees first is the Run as it is and the output that is
/// retained after its cursor.
pub proof fn law_a_snapshot_shows_the_run_and_its_output(
    run: Run,
    after: u64,
    cursors: OwnerCursors,
    snapshot: AttachedSnapshot,
)
    requires
        run@.output.chunks.len() > 0,
        contiguous_from(run@.output.chunks, run@.output.chunks[0].start_byte as int),
        run@.output.chunks.last().end_byte == run@.output.latest,
        call_ensures(Run::attachment_snapshot, (&run, after, cursors), snapshot),
    ensures
        snapshot.run.id == run@.id,
        snapshot.run.state == run@.state,
        snapshot.run.latest_output_bytes == run@.output.latest,
        snapshot.run.pid == run@.pid,
        snapshot.replay.latest_output_bytes == run@.output.latest,
        ({
            let first = run@.output.chunks[0].start_byte;
            let held = bytes_of(chunk_views(snapshot.replay.chunks@));
            &&& after <= first ==> held == bytes_of(run@.output.chunks)
            &&& first <= after <= run@.output.latest ==> held == bytes_of(
                run@.output.chunks,
            ).skip(after - first)
            &&& snapshot.replay.truncated <==> after < first || (run@.output.gap matches Some(lost)
                && after <= lost)
        }),
{
    law_replay_brings_every_retained_byte(run@.output, after);
    law_contiguous_chunks_hold_every_byte(
        run@.output.chunks,
        run@.output.chunks[0].start_byte as int,
    );
    assert(bytes_of(run@.output.chunks).skip(0) =~= bytes_of(run@.output.chunks));
}

/// Of one chunk a reader still needs the bytes behind its cursor: none of a chunk
/// that ends there, all of one that begins there or later, else its end.
pub proof fn law_a_reader_needs_the_bytes_behind_its_cursor(
    chunk: OutputChunk,
    after: u64,
    r: Option<OutputChunk>,
)
    requires
        chunk.start_byte < chunk.end_byte,
        chunk.end_byte - chunk.start_byte == chunk.data@.len(),
        call_ensures(retained_after, (&chunk, after), r),
    ensures
        r is None <==> chunk.end_byte <= after,
        r matches Some(kept) ==> kept.end_byte == chunk.end_byte && kept.start_byte == (
        if chunk.start_byte >= after {
            chunk.start_byte
        } else {
            after
        }) && kept.data@ == chunk.data@.skip(kept.start_byte - chunk.start_byte),
{
    assert(chunk.data@.skip(0) =~= chunk.data@);
}

/// Recovered output is retained as it was recorded, and goes on from where the
/// record ends.
pub proof fn law_recovered_output_is_retained(
    replay: OutputReplay,
    log: OutputLog,
    latest: u64,
    first: u64,
)
    requires
        call_ensures(OutputLog::from_replay, (replay,), log),
        call_ensures(OutputLog::latest_output_bytes, (&log,), latest),
        call_ensures(OutputLog::first_available_byte, (&log,), first),
    ensures
        log@.chunks == chunk_views(replay.chunks@),
        log@.gap is None,
        latest == replay.latest_output_bytes && log@.latest == latest,
        replay.chunks@.len() > 0 ==> first == replay.chunks@[0].start_byte,
        replay.chunks@.len() == 0 ==> first == 0,
{
}

} // verus!
