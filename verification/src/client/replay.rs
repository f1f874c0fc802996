//! Reading the retained output that follows an attachment's first frame.

use vstd::prelude::*;

use crate::client::error::ClientError;
use crate::output::{
    bytes_of, chunk_is_exact, chunk_views, contiguous_from, end_of,
    law_contiguous_chunks_hold_every_byte, lemma_bytes_of_push,
};
use crate::protocol::{
    AttachedSnapshot, AttachedSnapshotHeader, OutputChunk, OutputReplay, RunEvent, ServerFrame,
};

verus! {

/// The first byte that a replay after `after_byte` has to bring.
pub open spec fn replay_start(replay: OutputReplay, after_byte: u64) -> int {
    if after_byte as int >= replay.first_available_byte as int {
        after_byte as int
    } else {
        replay.first_available_byte as int
    }
}

/// Whether everything that the daemon advertised has arrived.
pub open spec fn replay_is_complete(replay: OutputReplay, after_byte: u64) -> bool {
    if replay.chunks@.len() == 0 {
        after_byte >= replay.latest_output_bytes
    } else {
        replay.chunks@.last().end_byte == replay.latest_output_bytes
    }
}

/// Whether a frame is the next output of an unfinished replay.
pub open spec fn continues_replay(
    replay: OutputReplay,
    after_byte: u64,
    frame: ServerFrame,
) -> bool {
    match frame {
        ServerFrame::Event { event: RunEvent::Output { chunk } } => {
            &&& chunk.start_byte as int == end_of(
                chunk_views(replay.chunks@),
                replay_start(replay, after_byte))
            &&& chunk_is_exact(chunk@)
            &&& chunk.end_byte <= replay.latest_output_bytes
        },
        _ => false,
    }
}

/// A complete replay without a hole brings exactly the bytes from its start to
/// the latest output: none is missing and none comes twice.
pub proof fn law_complete_replay_reaches_the_latest_output(replay: OutputReplay, after_byte: u64)
    requires
        contiguous_from(chunk_views(replay.chunks@), replay_start(replay, after_byte)),
        replay_is_complete(replay, after_byte),
        replay.chunks@.len() > 0,
    ensures
        replay_start(replay, after_byte) + bytes_of(chunk_views(replay.chunks@)).len()
            == replay.latest_output_bytes,
{
    law_contiguous_chunks_hold_every_byte(
        chunk_views(replay.chunks@),
        replay_start(replay, after_byte),
    );
}

/// Begin to read a replay: the snapshot that the header announces, without
/// its chunks.
pub fn begin_replay(header: AttachedSnapshotHeader) -> (r: AttachedSnapshot)
    ensures
        r.run == header.run,
        r.replay.chunks@ == Seq::<OutputChunk>::empty(),
        r.replay.first_available_byte == header.replay.first_available_byte,
        r.replay.latest_output_bytes == header.replay.latest_output_bytes,
        r.replay.truncated == header.replay.truncated,
        forall|start: int| contiguous_from(chunk_views(r.replay.chunks@), start),
{
    AttachedSnapshot {
        run: header.run,
        replay: OutputReplay {
            chunks: Vec::new(),
            first_available_byte: header.replay.first_available_byte,
            latest_output_bytes: header.replay.latest_output_bytes,
            truncated: header.replay.truncated,
        },
    }
}

/// Whether everything that the daemon advertised has arrived.
pub fn replay_complete(replay: &OutputReplay, after_byte: u64) -> (r: bool)
    ensures
        r == replay_is_complete(*replay, after_byte),
{
    let count: usize = replay.chunks.len();
    if count == 0 {
        after_byte >= replay.latest_output_bytes
    } else {
        replay.chunks[count - 1].end_byte == replay.latest_output_bytes
    }
}

/// Take the next frame of an unfinished replay. Anything but the next output
/// fails and leaves the snapshot as it is.
pub fn receive_replay(
    snapshot: &mut AttachedSnapshot,
    after_byte: u64,
    received: Result<Option<ServerFrame>, ClientError>,
) -> (r: Result<(), ClientError>)
    ensures
        final(snapshot).run == old(snapshot).run,
        final(snapshot).replay.first_available_byte == old(snapshot).replay.first_available_byte,
        final(snapshot).replay.latest_output_bytes == old(snapshot).replay.latest_output_bytes,
        final(snapshot).replay.truncated == old(snapshot).replay.truncated,
        match received {
            Err(error) => r == Err::<(), ClientError>(error),
            Ok(None) => r matches Err(e) && e is Closed,
            Ok(Some(ServerFrame::Error { error })) => r == Err::<(), ClientError>(
                ClientError::Protocol { code: error.code, message: error.message },
            ),
            Ok(Some(frame)) => if continues_replay(old(snapshot).replay, after_byte, frame) {
                &&& r is Ok
                &&& final(snapshot).replay.chunks@ == old(snapshot).replay.chunks@.push(
                    frame->Event_event->Output_chunk,
                )
            } else {
                r matches Err(e) && e.unexpected("expected ordered replay output"@)
            },
        },
        r is Err ==> final(snapshot).replay.chunks@ == old(snapshot).replay.chunks@,
        contiguous_from(
            chunk_views(old(snapshot).replay.chunks@),
            replay_start(old(snapshot).replay, after_byte),
        ) ==> contiguous_from(
            chunk_views(final(snapshot).replay.chunks@),
            replay_start(final(snapshot).replay, after_byte),
        ),
{
    let ghost before = snapshot.replay;
    let frame = match received {
        Err(error) => {
            return Err(error);
        },
        Ok(None) => {
            return Err(ClientError::Closed);
        },
        Ok(Some(frame)) => frame,
    };
    let count: usize = snapshot.replay.chunks.len();
    let expected_byte: u64 = if count > 0 {
        snapshot.replay.chunks[count - 1].end_byte
    } else if after_byte >= snapshot.replay.first_available_byte {
        after_byte
    } else {
        snapshot.replay.first_available_byte
    };
    match frame {
        ServerFrame::Event { event: RunEvent::Output { chunk } } => {
            if chunk.start_byte == expected_byte && chunk.end_byte > chunk.start_byte
                && chunk.end_byte <= snapshot.replay.latest_output_bytes && chunk.end_byte
                - chunk.start_byte == chunk.data.len() as u64 {
                snapshot.replay.chunks.push(chunk);
                proof {
                    let old_views = chunk_views(before.chunks@);
                    let new_views = chunk_views(snapshot.replay.chunks@);
                    assert(new_views =~= old_views.push(chunk@));
                }
                Ok(())
            } else {
                Err(ClientError::UnexpectedFrame("expected ordered replay output"))
            }
        },
        ServerFrame::Error { error } => Err(ClientError::from_protocol(error)),
        _ => Err(ClientError::UnexpectedFrame("expected ordered replay output")),
    }
}

/// Concatenate output data from one replay for terminal presentation.
pub fn replay_bytes(chunks: &[OutputChunk]) -> (r: Vec<u8>)
    ensures
        r@ == bytes_of(chunk_views(chunks@)),
{
    let ghost views = chunk_views(chunks@);
    let mut output: Vec<u8> = Vec::new();
    let mut i: usize = 0;
    assert(views.take(0) =~= seq![]);
    while i < chunks.len()
        invariant
            i <= chunks@.len(),
            views == chunk_views(chunks@),
            output@ == bytes_of(views.take(i as int)),
        decreases chunks@.len() - i,
    {
        let ghost before = output@;
        output.extend_from_slice(chunks[i].data.as_slice());
        proof {
            assert(output@ =~= before + views[i as int].data);
            assert(views.take(i + 1) =~= views.take(i as int).push(views[i as int]));
            lemma_bytes_of_push(views.take(i as int), views[i as int]);
        }
        i = i + 1;
    }
    assert(views.take(i as int) =~= views);
    output
}

} // verus!
