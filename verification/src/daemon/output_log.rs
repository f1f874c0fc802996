//! Retained output of one Run.

use std::collections::VecDeque;

use vstd::prelude::*;
use vstd::slice::{slice_subrange, slice_to_vec};

use crate::output::{
    bytes_of, chunk_is_exact, chunk_views, contiguous_from, earlier, kept_after,
    law_contiguous_chunks_hold_every_byte, law_kept_chunks_are_the_missing_bytes,
    lemma_bytes_of_concat, lemma_bytes_of_push, later, trimmed, ChunkView,
};
use crate::protocol::{OutputChunk, OutputReplay};

verus! {

/// Output bytes that one Run retains, as long as more than one chunk is left.
pub const OUTPUT_RETENTION_BYTES: usize = 4194304;

/// What remains of chunks under the retention bound: the oldest leave until
/// the rest fits or is a single chunk.
pub open spec fn within_retention(chunks: Seq<ChunkView>) -> Seq<ChunkView>
    decreases chunks.len(),
{
    if bytes_of(chunks).len() > OUTPUT_RETENTION_BYTES && chunks.len() > 1 {
        within_retention(chunks.drop_first())
    } else {
        chunks
    }
}

/// What a log retains. `gap` is a cursor at which the source itself lost
/// output.
pub struct LogView {
    pub chunks: Seq<ChunkView>,
    pub latest: u64,
    pub gap: Option<u64>,
}

impl LogView {
    /// The first byte that is retained.
    pub open spec fn first(&self) -> u64 {
        if self.chunks.len() == 0 {
            0
        } else {
            self.chunks[0].start_byte
        }
    }

    /// What every log keeps: the chunks have no hole and end at the latest
    /// output.
    pub open spec fn valid(&self) -> bool {
        self.chunks.len() > 0 ==> contiguous_from(self.chunks, self.first() as int)
            && self.chunks.last().end_byte == self.latest
    }

    /// The chunk that `data` becomes.
    pub open spec fn next_chunk(&self, data: Seq<u8>) -> ChunkView {
        ChunkView { start_byte: self.latest, end_byte: (self.latest + data.len()) as u64, data }
    }

    /// The log after output.
    pub open spec fn pushed(&self, data: Seq<u8>) -> LogView {
        LogView {
            chunks: within_retention(self.chunks.push(self.next_chunk(data))),
            latest: (self.latest + data.len()) as u64,
            ..*self
        }
    }

    /// Whether output after the cursor may be missing.
    pub open spec fn truncated(&self, after: u64) -> bool {
        (self.gap matches Some(gap) && after <= gap) || after < self.first()
    }

    /// Whether `replay` is what a reader at the cursor still needs.
    pub open spec fn replays(&self, after: u64, replay: OutputReplay) -> bool {
        &&& chunk_views(replay.chunks@) == kept_after(self.chunks, after)
        &&& replay.first_available_byte == self.first()
        &&& replay.latest_output_bytes == self.latest
        &&& replay.truncated == self.truncated(after)
    }

    /// Whether one more chunk can be counted.
    pub open spec fn has_cursor_space(&self, data: Seq<u8>) -> bool {
        self.latest + data.len() <= u64::MAX && bytes_of(self.chunks).len() + data.len()
            <= usize::MAX
    }
}

proof fn lemma_drop_first_bytes(chunks: Seq<ChunkView>)
    requires
        chunks.len() > 0,
    ensures
        bytes_of(chunks) == chunks[0].data + bytes_of(chunks.drop_first()),
{
    let head = seq![chunks[0]];
    lemma_bytes_of_concat(head, chunks.drop_first());
    assert(head + chunks.drop_first() =~= chunks);
    reveal_with_fuel(bytes_of, 2);
    assert(bytes_of(head) =~= chunks[0].data);
}

/// The retention bound only removes the oldest chunks; the newest stays.
pub proof fn law_retention_keeps_a_suffix(chunks: Seq<ChunkView>) -> (removed: int)
    requires
        chunks.len() > 0,
    ensures
        0 <= removed < chunks.len(),
        within_retention(chunks) == chunks.skip(removed),
        bytes_of(within_retention(chunks)).len() <= OUTPUT_RETENTION_BYTES || within_retention(
            chunks,
        ).len() == 1,
        bytes_of(within_retention(chunks)) == bytes_of(chunks).skip(
            bytes_of(chunks).len() - bytes_of(within_retention(chunks)).len(),
        ),
        bytes_of(within_retention(chunks)).len() <= bytes_of(chunks).len(),
    decreases chunks.len(),
{
    if bytes_of(chunks).len() > OUTPUT_RETENTION_BYTES && chunks.len() > 1 {
        let shorter = chunks.drop_first();
        let removed = law_retention_keeps_a_suffix(shorter);
        lemma_drop_first_bytes(chunks);
        assert(shorter.skip(removed) =~= chunks.skip(removed + 1));
        let rest = bytes_of(within_retention(chunks));
        assert(rest =~= bytes_of(chunks).skip(bytes_of(chunks).len() - rest.len()));
        removed + 1
    } else {
        assert(chunks.skip(0) =~= chunks);
        assert(bytes_of(chunks).skip(0) =~= bytes_of(chunks));
        0
    }
}

/// Output keeps the log without holes, and its chunk is the last one retained.
pub proof fn law_push_keeps_log_valid(log: LogView, data: Seq<u8>)
    requires
        log.valid(),
        log.has_cursor_space(data),
        data.len() > 0,
    ensures
        log.pushed(data).valid(),
        log.pushed(data).chunks.len() > 0,
        log.pushed(data).chunks.last() == log.next_chunk(data),
{
    let all = log.chunks.push(log.next_chunk(data));
    assert(contiguous_from(all, all[0].start_byte as int)) by {
        assert forall|i: int, j: int| 0 <= i && j == i + 1 && j < all.len() implies (
        #[trigger] all[i]).end_byte == (#[trigger] all[j]).start_byte by {
            if j < log.chunks.len() {
                assert(log.chunks[i].end_byte == log.chunks[j].start_byte);
            } else {
                assert(all[i] == log.chunks.last());
            }
        }
        assert forall|i: int| 0 <= i < all.len() implies chunk_is_exact(#[trigger] all[i]) by {
            if i < log.chunks.len() {
                assert(all[i] == log.chunks[i]);
            }
        }
    }
    let removed = law_retention_keeps_a_suffix(all);
    let kept = log.pushed(data).chunks;
    assert forall|i: int, j: int| 0 <= i && j == i + 1 && j < kept.len() implies (
    #[trigger] kept[i]).end_byte == (#[trigger] kept[j]).start_byte by {
        assert(all[i + removed].end_byte == all[j + removed].start_byte);
    }
    assert forall|i: int| 0 <= i < kept.len() implies chunk_is_exact(#[trigger] kept[i]) by {
        assert(chunk_is_exact(all[i + removed]));
    }
}

/// What is retained after output is the end of what was retained before it
/// followed by the new bytes.
pub proof fn law_push_retains_the_newest_bytes(log: LogView, data: Seq<u8>)
    requires
        log.valid(),
        log.has_cursor_space(data),
        data.len() > 0,
    ensures
        ({
            let everything = bytes_of(log.chunks) + data;
            let retained = bytes_of(log.pushed(data).chunks);
            &&& data.len() <= retained.len() <= everything.len()
            &&& retained == everything.skip(everything.len() - retained.len())
            &&& retained.len() <= OUTPUT_RETENTION_BYTES || retained == data
        }),
{
    let all = log.chunks.push(log.next_chunk(data));
    lemma_bytes_of_push(log.chunks, log.next_chunk(data));
    let removed = law_retention_keeps_a_suffix(all);
    law_push_keeps_log_valid(log, data);
    let kept = log.pushed(data).chunks;
    lemma_bytes_of_push(kept.drop_last(), kept.last());
    if kept.len() == 1 {
        assert(kept.drop_last() =~= seq![]);
        assert(bytes_of(kept) =~= data);
    }
}

/// A replay from any cursor brings the retained bytes after that cursor, and
/// where it is not truncated, every byte from the cursor to the latest output.
pub proof fn law_replay_brings_every_retained_byte(log: LogView, after: u64)
    requires
        log.valid(),
        log.chunks.len() > 0,
    ensures
        ({
            let kept = kept_after(log.chunks, after);
            let start = later(after as int, log.first() as int);
            &&& contiguous_from(kept, start)
            &&& bytes_of(kept) == bytes_of(log.chunks).skip(
                earlier(start - log.first(), bytes_of(log.chunks).len() as int),
            )
            &&& !log.truncated(after) && after <= log.latest ==> bytes_of(kept).len() == log.latest
                - after
        }),
{
    let kept = kept_after(log.chunks, after);
    let start = later(after as int, log.first() as int);
    law_kept_chunks_are_the_missing_bytes(log.chunks, log.first() as int, after);
    law_contiguous_chunks_hold_every_byte(log.chunks, log.first() as int);
    law_contiguous_chunks_hold_every_byte(kept, start);
}

proof fn lemma_kept_of_concat_tail(chunks: Seq<ChunkView>, chunk: ChunkView, after: u64)
    requires
        contiguous_from(chunks, chunks[0].start_byte as int),
        chunks.len() > 0,
        chunks.last().end_byte == after,
        chunk.start_byte == after,
        chunk_is_exact(chunk),
    ensures
        kept_after(chunks.push(chunk), after) == seq![chunk],
{
    law_kept_chunks_are_the_missing_bytes(chunks, chunks[0].start_byte as int, after);
    assert(chunks.push(chunk).drop_last() =~= chunks);
    assert(kept_after(chunks, after) =~= seq![]);
    assert(seq![].push(chunk) =~= seq![chunk]);
}

/// A reader that has seen everything gets, after further output, exactly that
/// output: nothing is missing and nothing comes twice.
pub proof fn law_reader_at_the_head_sees_the_next_output_once(log: LogView, data: Seq<u8>)
    requires
        log.valid(),
        log.has_cursor_space(data),
        data.len() > 0,
    ensures
        kept_after(log.pushed(data).chunks, log.latest) == seq![log.next_chunk(data)],
        bytes_of(kept_after(log.pushed(data).chunks, log.latest)) == data,
{
    law_push_keeps_log_valid(log, data);
    let kept = log.pushed(data).chunks;
    let chunk = log.next_chunk(data);
    let older = kept.drop_last();
    assert(older.push(chunk) =~= kept);
    if older.len() > 0 {
        assert(kept[kept.len() - 2].end_byte == kept[kept.len() - 1].start_byte);
        assert(contiguous_from(older, older[0].start_byte as int)) by {
            assert forall|i: int, j: int| 0 <= i && j == i + 1 && j < older.len() implies (
            #[trigger] older[i]).end_byte == (#[trigger] older[j]).start_byte by {
                assert(kept[i].end_byte == kept[j].start_byte);
            }
            assert forall|i: int| 0 <= i < older.len() implies chunk_is_exact(
                #[trigger] older[i],
            ) by {
                assert(chunk_is_exact(kept[i]));
            }
        }
        lemma_kept_of_concat_tail(older, chunk, log.latest);
    } else {
        reveal_with_fuel(kept_after, 2);
        assert(kept_after(kept, log.latest) =~= seq![chunk]);
    }
    lemma_bytes_of_push(seq![], chunk);
    assert(seq![].push(chunk) =~= seq![chunk]);
    assert(bytes_of(seq![chunk]) =~= data);
}

/// What a reader still needs of one chunk.
pub fn retained_after(chunk: &OutputChunk, after_byte: u64) -> (r: Option<OutputChunk>)
    requires
        chunk_is_exact(chunk@),
    ensures
        match trimmed(chunk@, after_byte) {
            Some(kept) => r matches Some(found) && found@ == kept,
            None => r is None,
        },
{
    if chunk.end_byte <= after_byte {
        return None;
    }
    if chunk.start_byte >= after_byte {
        return Some(chunk.copied());
    }
    let offset: usize = (after_byte - chunk.start_byte) as usize;
    let rest = slice_subrange(chunk.data.as_slice(), offset, chunk.data.len());
    let data = slice_to_vec(rest);
    assert(data@ =~= chunk.data@.skip(offset as int));
    Some(OutputChunk { start_byte: after_byte, end_byte: chunk.end_byte, data })
}

/// Retained output of one Run.
pub struct OutputLog {
    chunks: VecDeque<OutputChunk>,
    retained_bytes: usize,
    latest_output_bytes: u64,
    source_gap_after_byte: Option<u64>,
}

impl OutputLog {
    /// What this log retains.
    pub closed spec fn view(&self) -> LogView {
        LogView {
            chunks: chunk_views(self.chunks@),
            latest: self.latest_output_bytes,
            gap: self.source_gap_after_byte,
        }
    }

    /// Whether the chunks have no hole and their bytes are counted exactly.
    pub closed spec fn wf(&self) -> bool {
        self@.valid() && self.retained_bytes == bytes_of(self@.chunks).len()
    }

    /// What a well-formed log keeps.
    pub proof fn lemma_wf_is_valid(&self)
        requires
            self.wf(),
        ensures
            self@.valid(),
    {
    }

    /// A log without output.
    pub fn new() -> (r: OutputLog)
        ensures
            r.wf(),
            r@ == (LogView { chunks: seq![], latest: 0, gap: None }),
    {
        let r = OutputLog {
            chunks: VecDeque::new(),
            retained_bytes: 0,
            latest_output_bytes: 0,
            source_gap_after_byte: None,
        };
        assert(r@.chunks =~= seq![]);
        r
    }

    /// A log of a source that had output before it was observed.
    pub fn with_initial_truncation() -> (r: OutputLog)
        ensures
            r.wf(),
            r@ == (LogView { chunks: seq![], latest: 0, gap: Some(0) }),
    {
        let mut r = OutputLog::new();
        r.source_gap_after_byte = Some(0);
        r
    }

    /// A log that continues recovered output.
    pub fn from_replay(replay: OutputReplay) -> (r: OutputLog)
        requires
            (LogView {
                chunks: chunk_views(replay.chunks@),
                latest: replay.latest_output_bytes,
                gap: None,
            }).valid(),
            bytes_of(chunk_views(replay.chunks@)).len() <= usize::MAX,
        ensures
            r.wf(),
            r@ == (LogView {
                chunks: chunk_views(replay.chunks@),
                latest: replay.latest_output_bytes,
                gap: None,
            }),
    {
        let ghost views = chunk_views(replay.chunks@);
        let latest_output_bytes: u64 = replay.latest_output_bytes;
        let mut source = replay.chunks;
        let ghost given = source@;
        let mut chunks: VecDeque<OutputChunk> = VecDeque::new();
        let mut retained_bytes: usize = 0;
        assert(views.take(0) =~= seq![]);
        assert(bytes_of(views.skip(0)).len() == bytes_of(views).len()) by {
            assert(views.skip(0) =~= views);
        }
        while source.len() > 0
            invariant
                views == chunk_views(given),
                chunks@.len() + source@.len() == given.len(),
                chunks@ == given.skip(source@.len() as int),
                source@ == given.take(source@.len() as int),
                retained_bytes == bytes_of(views.skip(source@.len() as int)).len(),
                bytes_of(views).len() <= usize::MAX,
            decreases source@.len(),
        {
            let ghost place = source@.len() - 1;
            match source.pop() {
                Some(chunk) => {
                    proof {
                        assert(chunk == given[place]);
                        assert(views.skip(place).drop_first() =~= views.skip(place + 1));
                        lemma_drop_first_bytes(views.skip(place));
                        lemma_bytes_of_concat(views.take(place), views.skip(place));
                        assert(views.take(place) + views.skip(place) =~= views);
                        assert(views.skip(place)[0] == chunk@);
                    }
                    retained_bytes = retained_bytes + chunk.data.len();
                    chunks.push_front(chunk);
                    assert(chunks@ =~= given.skip(place));
                    assert(source@ =~= given.take(place));
                },
                None => {},
            }
        }
        assert(given.skip(0) =~= given);
        assert(views.skip(0) =~= views);
        OutputLog { chunks, retained_bytes, latest_output_bytes, source_gap_after_byte: None }
    }

    /// Note that the source lost output at the latest cursor.
    pub fn mark_source_gap(&mut self) -> (r: u64)
        requires
            old(self).wf(),
        ensures
            final(self).wf(),
            r == old(self)@.latest,
            final(self)@ == (LogView { gap: Some(old(self)@.latest), ..old(self)@ }),
    {
        self.source_gap_after_byte = Some(self.latest_output_bytes);
        self.latest_output_bytes
    }

    /// Append output and evict what no longer fits. The new chunk is returned.
    pub fn push(&mut self, data: Vec<u8>) -> (r: OutputChunk)
        requires
            old(self).wf(),
            data@.len() > 0,
            old(self)@.has_cursor_space(data@),
        ensures
            final(self).wf(),
            r@ == old(self)@.next_chunk(data@),
            final(self)@ == old(self)@.pushed(data@),
    {
        let ghost before = self@;
        let start_byte: u64 = self.latest_output_bytes;
        let end_byte: u64 = start_byte + data.len() as u64;
        let chunk = OutputChunk { start_byte, end_byte, data };
        self.latest_output_bytes = end_byte;
        self.retained_bytes = self.retained_bytes + chunk.data.len();
        self.chunks.push_back(chunk.copied());
        let ghost all = chunk_views(self.chunks@);
        proof {
            assert(all =~= before.chunks.push(chunk@));
            lemma_bytes_of_push(before.chunks, chunk@);
            law_push_keeps_log_valid(before, chunk@.data);
        }
        while self.retained_bytes > OUTPUT_RETENTION_BYTES && self.chunks.len() > 1
            invariant
                self.retained_bytes == bytes_of(chunk_views(self.chunks@)).len(),
                within_retention(chunk_views(self.chunks@)) == within_retention(all),
                self.latest_output_bytes == end_byte,
                self.source_gap_after_byte == before.gap,
            decreases self.chunks@.len(),
        {
            let ghost views = chunk_views(self.chunks@);
            match self.chunks.pop_front() {
                Some(evicted) => {
                    proof {
                        lemma_drop_first_bytes(views);
                        assert(chunk_views(self.chunks@) =~= views.drop_first());
                        assert(evicted@ == views[0]);
                    }
                    self.retained_bytes = self.retained_bytes - evicted.data.len();
                },
                None => {},
            }
        }
        chunk
    }

    /// How many bytes the Run has ever produced.
    pub fn latest_output_bytes(&self) -> (r: u64)
        ensures
            r == self@.latest,
    {
        self.latest_output_bytes
    }

    /// The first byte that is retained.
    pub fn first_available_byte(&self) -> (r: u64)
        ensures
            r == self@.first(),
    {
        if self.chunks.len() == 0 {
            0
        } else {
            self.chunks[0].start_byte
        }
    }

    /// What a reader that has seen the bytes before `after_byte` still needs.
    pub fn replay(&self, after_byte: u64) -> (r: OutputReplay)
        requires
            self.wf(),
        ensures
            self@.replays(after_byte, r),
    {
        let first_available_byte: u64 = self.first_available_byte();
        let ghost views = self@.chunks;
        let mut chunks: Vec<OutputChunk> = Vec::new();
        let mut i: usize = 0;
        assert(views.take(0) =~= seq![]);
        assert(chunk_views(chunks@) =~= seq![]);
        while i < self.chunks.len()
            invariant
                self.wf(),
                views == self@.chunks,
                i <= self.chunks@.len(),
                chunk_views(chunks@) == kept_after(views.take(i as int), after_byte),
            decreases self.chunks@.len() - i,
        {
            assert(views[i as int] == self.chunks@[i as int]@);
            assert(views.take(i + 1).drop_last() =~= views.take(i as int));
            let ghost before = chunks@;
            match retained_after(&self.chunks[i], after_byte) {
                Some(chunk) => {
                    chunks.push(chunk);
                    assert(chunk_views(chunks@) =~= chunk_views(before).push(chunk@));
                },
                None => {},
            }
            i = i + 1;
        }
        assert(views.take(i as int) =~= views);
        let gap_applies = match self.source_gap_after_byte {
            Some(gap) => after_byte <= gap,
            None => false,
        };
        OutputReplay {
            chunks,
            first_available_byte,
            latest_output_bytes: self.latest_output_bytes,
            truncated: gap_applies || after_byte < first_available_byte,
        }
    }
}

} // verus!
