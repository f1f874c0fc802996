//! What holds of a client and a daemon together.

use vstd::prelude::*;

use crate::client::connector::control_outcome;
use crate::client::error::ClientError;
use crate::client::receipt::failure_is_consistent;
use crate::client::receipt::ControlAccepted;
use crate::client::replay::{continues_replay, replay_is_complete, replay_start};
use crate::client::requests::{request_of, ClientCall};
use crate::daemon::attachment::{LiveEvent, ServerView, Step};
use crate::daemon::connection::{
    answers, connection_next, controlled_run, ConnectionPhase, ConnectionStep, WorkOutcome,
};
use crate::daemon::output_log::{law_replay_brings_every_retained_byte, LogView};
use crate::daemon::upgrade::GateView;
use crate::output::{
    bytes_of, chunk_is_exact, chunk_views, contiguous_from, end_of, kept_after,
    law_kept_chunks_are_the_missing_bytes, trimmed, ChunkView,
};
use crate::protocol::{
    ClientFrame, ControlReceipt, ControlResult, OutputChunk, OutputReplay, ProtocolError, Request,
    Response, RunEvent, RunInfo, ServerFrame, PROTOCOL_VERSION,
};

verus! {

/// A client that reads the replay of a daemon gets all of it: every chunk is
/// the one it waits for, it waits as long as one is missing, and it stops
/// after the last. What it then has is every retained byte after its cursor.
///
/// A log that counts output it does not retain at all is left out: nothing
/// could be sent of it.
pub proof fn law_a_client_reads_the_whole_replay(
    log: LogView,
    after: u64,
    sent: OutputReplay,
    got: OutputReplay,
)
    requires
        log.valid(),
        log.latest > 0 ==> log.chunks.len() > 0,
        log.replays(after, sent),
        got.first_available_byte == sent.first_available_byte,
        got.latest_output_bytes == sent.latest_output_bytes,
        got.chunks@.len() <= sent.chunks@.len(),
        got.chunks@ == sent.chunks@.take(got.chunks@.len() as int),
    ensures
        got.chunks@.len() < sent.chunks@.len() ==> {
            &&& !replay_is_complete(got, after)
            &&& continues_replay(
                got,
                after,
                ServerFrame::Event {
                    event: RunEvent::Output { chunk: sent.chunks@[got.chunks@.len() as int] },
                },
            )
        },
        got.chunks@.len() == sent.chunks@.len() ==> {
            &&& replay_is_complete(got, after)
            &&& chunk_views(got.chunks@) == kept_after(log.chunks, after)
            &&& !log.truncated(after) && after <= log.latest ==> bytes_of(
                chunk_views(got.chunks@),
            ).len() == log.latest - after
        },
{
    let count = got.chunks@.len() as int;
    let all = chunk_views(sent.chunks@);
    let start = replay_start(got, after);
    assert(got.chunks@.len() == sent.chunks@.len() ==> got.chunks@ =~= sent.chunks@);
    assert(chunk_views(got.chunks@) =~= all.take(count));
    if log.chunks.len() > 0 {
        law_replay_brings_every_retained_byte(log, after);
        law_kept_chunks_are_the_missing_bytes(
            log.chunks,
            log.first() as int,
            after,
        );
        assert(contiguous_from(all, start));
        assert(all.len() > 0 ==> all.last().end_byte == log.latest) by {
            lemma_kept_reaches_the_end(log, after);
        }
        if count < sent.chunks@.len() {
            assert(all[count] == sent.chunks@[count]@);
            lemma_ends_increase(all, start, count);
            if count > 0 {
                assert(all[count - 1].end_byte == all[count].start_byte);
                assert(got.chunks@.last() == sent.chunks@[count - 1]);
                assert(all[count - 1] == sent.chunks@[count - 1]@);
            }
        } else if all.len() > 0 {
            assert(all.last() == sent.chunks@.last()@);
        } else {
            lemma_kept_reaches_the_end(log, after);
        }
    } else {
        assert(kept_after(log.chunks, after) =~= seq![]);
        assert(all.len() == 0);
    }
}

proof fn lemma_ends_increase(
    chunks: Seq<ChunkView>,
    start: int,
    count: int,
)
    requires
        contiguous_from(chunks, start),
        0 <= count < chunks.len(),
    ensures
        chunks[count].end_byte <= chunks.last().end_byte,
        start < chunks[count].end_byte,
        count > 0 ==> chunks[count - 1].end_byte < chunks.last().end_byte,
    decreases chunks.len() - count,
{
    if count + 1 < chunks.len() {
        lemma_ends_increase(chunks, start, count + 1);
        assert(chunks[count].end_byte == chunks[count + 1].start_byte);
    }
    assert(chunk_is_exact(chunks[count]));
    lemma_starts_follow(chunks, start, count);
    if count > 0 {
        assert(chunks[count - 1].end_byte == chunks[count].start_byte);
    }
}

proof fn lemma_starts_follow(chunks: Seq<ChunkView>, start: int, count: int)
    requires
        contiguous_from(chunks, start),
        0 <= count < chunks.len(),
    ensures
        start <= chunks[count].start_byte,
    decreases count,
{
    if count > 0 {
        lemma_starts_follow(chunks, start, count - 1);
        assert(chunk_is_exact(chunks[count - 1]));
        assert(chunks[count - 1].end_byte == chunks[count].start_byte);
    }
}

proof fn lemma_kept_reaches_the_end(log: LogView, after: u64)
    requires
        log.valid(),
        log.chunks.len() > 0,
    ensures
        kept_after(log.chunks, after).len() > 0 ==> kept_after(log.chunks, after).last().end_byte
            == log.latest,
        kept_after(log.chunks, after).len() == 0 <==> after >= log.latest,
{
    let last = log.chunks.last();
    match trimmed(last, after) {
        Some(chunk) => {
            assert(kept_after(log.chunks, after).last() == chunk);
        },
        None => {
            lemma_nothing_kept(log.chunks, log.first() as int, after);
        },
    }
}

proof fn lemma_nothing_kept(chunks: Seq<ChunkView>, start: int, after: u64)
    requires
        contiguous_from(chunks, start),
        chunks.len() > 0 ==> chunks.last().end_byte <= after,
    ensures
        kept_after(chunks, after).len() == 0,
    decreases chunks.len(),
{
    if chunks.len() > 0 {
        let shorter = chunks.drop_last();
        if shorter.len() > 0 {
            assert(chunks[chunks.len() - 2].end_byte == chunks[chunks.len() - 1].start_byte);
            assert(chunk_is_exact(chunks[chunks.len() - 1]));
        }
        assert(contiguous_from(shorter, start));
        lemma_nothing_kept(shorter, start, after);
    }
}

/// The live chunks that a daemon sends on, behind what it sent already.
pub open spec fn sent_live(sent_through: u64, chunks: Seq<ChunkView>) -> Seq<ChunkView>
    decreases chunks.len(),
{
    if chunks.len() == 0 {
        seq![]
    } else if chunks[0].end_byte <= sent_through {
        sent_live(sent_through, chunks.drop_first())
    } else {
        seq![chunks[0]] + sent_live(chunks[0].end_byte, chunks.drop_first())
    }
}

/// The chunks that some frames carry.
pub open spec fn carried(frames: Seq<ServerFrame>) -> Seq<ChunkView>
    decreases frames.len(),
{
    if frames.len() == 0 {
        seq![]
    } else {
        match frames.last() {
            ServerFrame::Event { event: RunEvent::Output { chunk } } => carried(
                frames.drop_last(),
            ).push(chunk@),
            _ => carried(frames.drop_last()),
        }
    }
}

/// One live chunk is sent on exactly if it lies behind what was sent.
pub proof fn law_a_live_chunk_is_sent_on_once(
    before: ServerView,
    chunk: OutputChunk,
    after: ServerView,
    step: Step,
)
    requires
        before.reacts(LiveEvent::Event(RunEvent::Output { chunk }), after, step),
    ensures
        carried(step.frames@) == sent_live(before.sent_through_byte, seq![chunk@]),
        forall|rest: Seq<ChunkView>| #[trigger]
            sent_live(before.sent_through_byte, seq![chunk@] + rest) == carried(step.frames@)
                + sent_live(after.sent_through_byte, rest),
{
    reveal_with_fuel(carried, 3);
    reveal_with_fuel(sent_live, 3);
    let one = seq![chunk@];
    assert(one.drop_first() =~= seq![]);
    if chunk.end_byte <= before.sent_through_byte {
        assert(carried(step.frames@) =~= seq![]);
    } else {
        assert(step.frames@.drop_last() =~= seq![]);
        assert(carried(step.frames@) =~= seq![chunk@]);
        assert(sent_live(before.sent_through_byte, one) =~= seq![chunk@]);
    }
    assert forall|rest: Seq<ChunkView>| #[trigger]
        sent_live(before.sent_through_byte, one + rest) == carried(step.frames@) + sent_live(
            after.sent_through_byte,
            rest,
        ) by {
        let all = one + rest;
        assert(all[0] == chunk@);
        assert(all.drop_first() =~= rest);
        assert(sent_live(before.sent_through_byte, all) =~= carried(step.frames@) + sent_live(
            after.sent_through_byte,
            rest,
        ));
    }
}

/// Live output joins the replay exactly. A reader that subscribes first and
/// gets the replay through `latest` afterwards misses nothing of what was
/// printed since it subscribed and sees nothing twice: of all live chunks,
/// exactly those behind the replay are sent on.
pub proof fn law_live_output_joins_the_replay(
    chunks: Seq<ChunkView>,
    start: int,
    latest: u64,
    covered: int,
)
    requires
        contiguous_from(chunks, start),
        0 <= covered <= chunks.len(),
        end_of(chunks.take(covered), start) == latest,
    ensures
        sent_live(latest, chunks) == chunks.skip(covered),
        contiguous_from(chunks.skip(covered), latest as int),
    decreases chunks.len(),
{
    let rest = chunks.skip(covered);
    assert(contiguous_from(rest, latest as int)) by {
        assert forall|i: int| 0 <= i < rest.len() implies chunk_is_exact(#[trigger] rest[i]) by {
            assert(chunk_is_exact(chunks[covered + i]));
        }
        assert forall|i: int, j: int| 0 <= i && j == i + 1 && j < rest.len() implies (
        #[trigger] rest[i]).end_byte == (#[trigger] rest[j]).start_byte by {
            assert(chunks[covered + i].end_byte == chunks[covered + j].start_byte);
        }
        if rest.len() > 0 && covered > 0 {
            assert(chunks[covered - 1].end_byte == chunks[covered].start_byte);
        }
    }
    if chunks.len() > 0 {
        let shorter = chunks.drop_first();
        let first = chunks[0];
        assert(chunk_is_exact(first));
        assert(contiguous_from(shorter, first.end_byte as int)) by {
            assert forall|i: int| 0 <= i < shorter.len() implies chunk_is_exact(
                #[trigger] shorter[i],
            ) by {
                assert(chunk_is_exact(chunks[i + 1]));
            }
            assert forall|i: int, j: int| 0 <= i && j == i + 1 && j < shorter.len() implies (
            #[trigger] shorter[i]).end_byte == (#[trigger] shorter[j]).start_byte by {
                assert(chunks[i + 1].end_byte == chunks[j + 1].start_byte);
            }
            if shorter.len() > 0 {
                assert(chunks[0].end_byte == chunks[1].start_byte);
            }
        }
        if covered > 0 {
            lemma_ends_increase(chunks.take(covered), start, 0);
            assert(contiguous_from(chunks.take(covered), start));
            assert(chunks.take(covered)[0] == first);
            assert(shorter.take(covered - 1) =~= chunks.take(covered).drop_first());
            if covered > 1 {
                assert(shorter.take(covered - 1).last() == chunks.take(covered).last());
            }
            law_live_output_joins_the_replay(
                shorter,
                first.end_byte as int,
                latest,
                covered - 1,
            );
            assert(shorter.skip(covered - 1) =~= chunks.skip(covered));
        } else {
            assert(first.end_byte > latest);
            assert(shorter.take(0) =~= seq![]);
            law_live_output_joins_the_replay(
                shorter,
                first.end_byte as int,
                first.end_byte,
                0,
            );
            assert(shorter.skip(0) =~= shorter);
            assert(chunks.skip(0) =~= seq![first] + shorter);
        }
    } else {
        assert(chunks.skip(covered) =~= seq![]);
    }
}

/// What the owner of a control says of a command is what the client's call
/// returns: its receipt where the client can read it as the receipt of its
/// command, and its failure with the disposition that the owner gave it.
pub proof fn law_a_control_result_reaches_the_client<R>(
    run: RunInfo,
    result: ControlResult,
    answer: Result<Response, ProtocolError>,
    good: spec_fn(ControlReceipt) -> Result<R, Seq<char>>,
    r: Result<ControlAccepted<R>, ClientError>,
)
    requires
        answers(WorkOutcome::Control { run, result }, answer),
        control_outcome(Ok::<Response, ClientError>(answer->Ok_0), good, r),
    ensures
        answer is Ok,
        match result {
            Ok(receipt) => good(receipt) matches Ok(read) ==> r == Ok::<
                ControlAccepted<R>,
                ClientError,
            >(ControlAccepted { run, receipt: read }),
            Err(failure) => failure_is_consistent(failure) ==> r == Err::<
                ControlAccepted<R>,
                ClientError,
            >(ClientError::ControlRejected { failure }),
        },
{
}

/// A client of the same protocol is greeted, and its call reaches the daemon
/// as it was made: a control call controls the Run that the caller named.
pub proof fn law_a_call_reaches_the_daemon_as_it_was_made(
    call: ClientCall,
    gate: GateView,
    greeting: ConnectionStep,
    greeted: GateView,
    step: ConnectionStep,
    after: GateView,
)
    requires
        connection_next(
            ConnectionPhase::AwaitHello,
            Some(ClientFrame::Hello { protocol: PROTOCOL_VERSION }),
            gate,
            greeting,
            greeted,
        ),
        connection_next(
            ConnectionPhase::AwaitRequest,
            Some(ClientFrame::Request { request: request_of(call) }),
            greeted,
            step,
            after,
        ),
        gate.phase is Open,
    ensures
        greeting is Greet,
        match call {
            ClientCall::Attach { id, after_byte } => step == (ConnectionStep::Attach {
                id,
                after_byte,
            }),
            _ => step == ConnectionStep::Execute(request_of(call)),
        },
        call matches ClientCall::Input { id, .. } ==> controlled_run(request_of(call)) == Some(id),
        call matches ClientCall::Resize { id, .. } ==> controlled_run(request_of(call)) == Some(id),
        call matches ClientCall::Interrupt { id } ==> controlled_run(request_of(call)) == Some(id),
        call matches ClientCall::Stop { id } ==> controlled_run(request_of(call)) == Some(id),
{
}

} // verus!
