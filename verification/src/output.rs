//! Sequences of output chunks and the bytes that they stand for.

use vstd::prelude::*;

use crate::protocol::OutputChunk;

verus! {

/// A chunk by its cursors and its bytes.
pub struct ChunkView {
    pub start_byte: u64,
    pub end_byte: u64,
    pub data: Seq<u8>,
}

impl OutputChunk {
    /// This chunk by its cursors and its bytes.
    pub open spec fn view(&self) -> ChunkView {
        ChunkView { start_byte: self.start_byte, end_byte: self.end_byte, data: self.data@ }
    }

    /// A copy of this chunk.
    pub fn copied(&self) -> (r: OutputChunk)
        ensures
            r@ == self@,
    {
        let r = OutputChunk {
            start_byte: self.start_byte,
            end_byte: self.end_byte,
            data: self.data.clone(),
        };
        assert(r.data@ =~= self.data@);
        r
    }
}

/// Chunks by their cursors and bytes.
pub open spec fn chunk_views(chunks: Seq<OutputChunk>) -> Seq<ChunkView> {
    chunks.map_values(|chunk: OutputChunk| chunk@)
}

/// Whether a chunk is the non-empty run of bytes that its cursors name.
pub open spec fn chunk_is_exact(chunk: ChunkView) -> bool {
    chunk.start_byte < chunk.end_byte && chunk.end_byte - chunk.start_byte == chunk.data.len()
}

/// Whether the chunks are exact and follow one another without a hole from
/// `start` on.
pub open spec fn contiguous_from(chunks: Seq<ChunkView>, start: int) -> bool {
    &&& forall|i: int| 0 <= i < chunks.len() ==> chunk_is_exact(#[trigger] chunks[i])
    &&& forall|i: int, j: int|
        0 <= i && j == i + 1 && j < chunks.len() ==> (#[trigger] chunks[i]).end_byte == (
        #[trigger] chunks[j]).start_byte
    &&& chunks.len() > 0 ==> chunks[0].start_byte == start
}

/// Where the chunks end, if they begin at `start`.
pub open spec fn end_of(chunks: Seq<ChunkView>, start: int) -> int {
    if chunks.len() == 0 {
        start
    } else {
        chunks.last().end_byte as int
    }
}

/// All bytes of the chunks in order.
pub open spec fn bytes_of(chunks: Seq<ChunkView>) -> Seq<u8>
    decreases chunks.len(),
{
    if chunks.len() == 0 {
        seq![]
    } else {
        bytes_of(chunks.drop_last()) + chunks.last().data
    }
}

/// What a reader that has seen the bytes before `after` still needs of a chunk.
pub open spec fn trimmed(chunk: ChunkView, after: u64) -> Option<ChunkView> {
    if chunk.end_byte <= after {
        None
    } else if chunk.start_byte >= after {
        Some(chunk)
    } else {
        Some(
            ChunkView {
                start_byte: after,
                end_byte: chunk.end_byte,
                data: chunk.data.skip(after - chunk.start_byte),
            },
        )
    }
}

/// What a reader that has seen the bytes before `after` still needs.
pub open spec fn kept_after(chunks: Seq<ChunkView>, after: u64) -> Seq<ChunkView>
    decreases chunks.len(),
{
    if chunks.len() == 0 {
        seq![]
    } else {
        match trimmed(chunks.last(), after) {
            Some(chunk) => kept_after(chunks.drop_last(), after).push(chunk),
            None => kept_after(chunks.drop_last(), after),
        }
    }
}

/// The later of two cursors.
pub open spec fn later(a: int, b: int) -> int {
    if a >= b {
        a
    } else {
        b
    }
}

/// The earlier of two cursors.
pub open spec fn earlier(a: int, b: int) -> int {
    if a <= b {
        a
    } else {
        b
    }
}

/// Chunks without a hole hold as many bytes as lie between their first and
/// their last cursor.
pub proof fn law_contiguous_chunks_hold_every_byte(chunks: Seq<ChunkView>, start: int)
    requires
        contiguous_from(chunks, start),
    ensures
        bytes_of(chunks).len() == end_of(chunks, start) - start,
    decreases chunks.len(),
{
    if chunks.len() > 0 {
        let shorter = chunks.drop_last();
        assert(contiguous_from(shorter, start));
        law_contiguous_chunks_hold_every_byte(shorter, start);
        if shorter.len() > 0 {
            assert(chunks[chunks.len() - 2].end_byte == chunks[chunks.len() - 1].start_byte);
        }
    }
}

/// The bytes of two runs of chunks, one after the other.
pub proof fn lemma_bytes_of_concat(first: Seq<ChunkView>, second: Seq<ChunkView>)
    ensures
        bytes_of(first + second) == bytes_of(first) + bytes_of(second),
    decreases second.len(),
{
    if second.len() == 0 {
        assert(first + second =~= first);
        assert(bytes_of(first) + bytes_of(second) =~= bytes_of(first));
    } else {
        assert((first + second).drop_last() =~= first + second.drop_last());
        assert((first + second).last() == second.last());
        lemma_bytes_of_concat(first, second.drop_last());
        assert(bytes_of(first + second) =~= bytes_of(first) + bytes_of(second));
    }
}

/// The bytes of one more chunk.
pub proof fn lemma_bytes_of_push(chunks: Seq<ChunkView>, chunk: ChunkView)
    ensures
        bytes_of(chunks.push(chunk)) == bytes_of(chunks) + chunk.data,
{
    assert(chunks.push(chunk).drop_last() =~= chunks);
}

/// What a reader still needs of chunks without a hole is again without a hole,
/// begins where the reader stands or where the chunks begin, whichever is
/// later, and is exactly the bytes from there to the end.
pub proof fn law_kept_chunks_are_the_missing_bytes(chunks: Seq<ChunkView>, start: int, after: u64)
    requires
        contiguous_from(chunks, start),
    ensures
        contiguous_from(kept_after(chunks, after), later(after as int, start)),
        kept_after(chunks, after).len() > 0 <==> chunks.len() > 0 && end_of(chunks, start) > after,
        kept_after(chunks, after).len() > 0 ==> kept_after(chunks, after).last().end_byte
            == chunks.last().end_byte,
        bytes_of(kept_after(chunks, after)) == bytes_of(chunks).skip(
            earlier(later(after as int, start) - start, bytes_of(chunks).len() as int),
        ),
    decreases chunks.len(),
{
    law_contiguous_chunks_hold_every_byte(chunks, start);
    if chunks.len() == 0 {
        assert(bytes_of(chunks).skip(0) =~= seq![]);
    } else {
        let shorter = chunks.drop_last();
        let last = chunks.last();
        assert(contiguous_from(shorter, start));
        law_kept_chunks_are_the_missing_bytes(shorter, start, after);
        law_contiguous_chunks_hold_every_byte(shorter, start);
        if shorter.len() > 0 {
            assert(chunks[chunks.len() - 2].end_byte == chunks[chunks.len() - 1].start_byte);
        }
        let kept = kept_after(chunks, after);
        let kept_shorter = kept_after(shorter, after);
        let place = earlier(later(after as int, start) - start, bytes_of(chunks).len() as int);
        match trimmed(last, after) {
            None => {
                assert(bytes_of(kept) =~= bytes_of(chunks).skip(place));
            },
            Some(chunk) => {
                lemma_bytes_of_push(kept_shorter, chunk);
                assert(bytes_of(kept) =~= bytes_of(chunks).skip(place));
                if kept_shorter.len() > 0 {
                    assert(chunk == last);
                    assert forall|i: int, j: int|
                        0 <= i && j == i + 1 && j < kept.len() implies (
                    #[trigger] kept[i]).end_byte == (#[trigger] kept[j]).start_byte by {
                        if j < kept_shorter.len() {
                            assert(kept_shorter[i].end_byte == kept_shorter[j].start_byte);
                        }
                    }
                    assert(kept[0] == kept_shorter[0]);
                } else {
                    assert(kept.len() == 1);
                }
            },
        }
    }
}

} // verus!
