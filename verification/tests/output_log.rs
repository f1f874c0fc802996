use ctxmux::client::replay::replay_bytes;
use ctxmux::daemon::output_log::{OutputLog, OUTPUT_RETENTION_BYTES};
use ctxmux::protocol::{OutputChunk, OutputReplay};

fn ranges(chunks: &[OutputChunk]) -> Vec<(u64, u64)> {
    chunks.iter().map(|chunk| (chunk.start_byte, chunk.end_byte)).collect()
}

#[test]
fn replay_marks_a_cursor_older_than_retained_output_as_truncated() {
    let mut output = OutputLog::new();
    for _ in 0..600 {
        output.push(vec![0; 8192]);
    }
    let replay = output.replay(0);
    assert!(replay.truncated);
    assert!(replay.first_available_byte > 0);
    assert_eq!(replay.latest_output_bytes, 600 * 8192);
}

#[test]
fn replay_cursor_and_retention_boundaries_are_exact() {
    let mut output = OutputLog::new();
    let first_size = OUTPUT_RETENTION_BYTES / 2;
    let second_size = OUTPUT_RETENTION_BYTES - first_size;
    output.push(vec![b'a'; first_size]);
    output.push(vec![b'b'; second_size]);

    let exact_limit = output.replay(0);
    assert!(!exact_limit.truncated);
    assert_eq!(exact_limit.first_available_byte, 0);
    assert_eq!(exact_limit.latest_output_bytes, OUTPUT_RETENTION_BYTES as u64);
    assert_eq!(
        ranges(&exact_limit.chunks),
        vec![
            (0, first_size as u64),
            (first_size as u64, OUTPUT_RETENTION_BYTES as u64),
        ]
    );

    output.push(vec![b'c']);
    let evicted = output.replay(0);
    assert!(evicted.truncated);
    assert_eq!(evicted.first_available_byte, first_size as u64);
    assert_eq!(evicted.latest_output_bytes, OUTPUT_RETENTION_BYTES as u64 + 1);
    assert_eq!(
        ranges(&evicted.chunks),
        vec![
            (first_size as u64, OUTPUT_RETENTION_BYTES as u64),
            (OUTPUT_RETENTION_BYTES as u64, OUTPUT_RETENTION_BYTES as u64 + 1),
        ]
    );

    let immediately_before_oldest = output.replay(first_size as u64);
    assert!(!immediately_before_oldest.truncated);
    assert_eq!(immediately_before_oldest.chunks, evicted.chunks);
    assert_eq!(
        ranges(&output.replay(OUTPUT_RETENTION_BYTES as u64).chunks),
        vec![(OUTPUT_RETENTION_BYTES as u64, OUTPUT_RETENTION_BYTES as u64 + 1)]
    );
    assert!(output.replay(OUTPUT_RETENTION_BYTES as u64 + 1).chunks.is_empty());
    assert!(output.replay(u64::MAX).chunks.is_empty());
    assert!(!output.replay(u64::MAX).truncated);
}

#[test]
fn replay_keeps_a_tmux_source_gap_visible_to_late_attachments() {
    let mut output = OutputLog::with_initial_truncation();
    assert!(output.replay(0).truncated);
    assert_eq!(output.mark_source_gap(), 0);

    output.push(b"before-gap".to_vec());
    assert_eq!(output.mark_source_gap(), b"before-gap".len() as u64);
    let at_gap = output.replay(b"before-gap".len() as u64);
    assert!(at_gap.truncated);
    assert!(at_gap.chunks.is_empty());

    output.push(b"after-gap".to_vec());
    let recovery = output.replay(b"before-gap".len() as u64);
    assert!(recovery.truncated);
    assert_eq!(recovery.first_available_byte, 0);
    assert_eq!(recovery.latest_output_bytes, b"before-gapafter-gap".len() as u64);
    assert_eq!(
        (recovery.chunks[0].start_byte, recovery.chunks[0].end_byte),
        (b"before-gap".len() as u64, b"before-gapafter-gap".len() as u64)
    );
    assert!(!output.replay(b"before-gapafter-gap".len() as u64).truncated);
}

#[test]
fn one_oversized_output_chunk_is_retained_as_an_honest_replay_unit() {
    let mut output = OutputLog::new();
    let oversized = vec![0xa5; OUTPUT_RETENTION_BYTES + 1];
    output.push(oversized.clone());

    let replay = output.replay(0);
    assert!(!replay.truncated);
    assert_eq!(replay.first_available_byte, 0);
    assert_eq!(replay.latest_output_bytes, oversized.len() as u64);
    assert_eq!(replay.chunks[0].data, oversized);

    output.push(vec![0x5a]);
    let after_eviction = output.replay(0);
    assert!(after_eviction.truncated);
    assert_eq!(after_eviction.first_available_byte, oversized.len() as u64);
    assert_eq!(after_eviction.latest_output_bytes, oversized.len() as u64 + 1);
    assert_eq!(after_eviction.chunks[0].data, vec![0x5a]);
}

#[test]
fn lag_recovery_replays_from_the_callers_cursor_without_loss_or_duplicates() {
    let mut output = OutputLog::new();
    for byte in b"abcd" {
        output.push(vec![*byte]);
    }
    let replay = output.replay(0);
    assert!(!replay.truncated);
    assert_eq!(ranges(&replay.chunks), vec![(0, 1), (1, 2), (2, 3), (3, 4)]);
    assert_eq!(replay_bytes(&replay.chunks), b"abcd");
    assert_eq!(replay_bytes(&output.replay(3).chunks), b"d");
}

#[test]
fn a_cursor_inside_a_chunk_gets_the_rest_of_it() {
    let mut output = OutputLog::new();
    output.push(b"hello".to_vec());
    let replay = output.replay(2);
    assert_eq!(ranges(&replay.chunks), vec![(2, 5)]);
    assert_eq!(replay.chunks[0].data, b"llo");
    assert!(!replay.truncated);
}

#[test]
fn recovered_output_goes_on_at_its_cursor() {
    let mut output = OutputLog::from_replay(OutputReplay {
        chunks: vec![
            OutputChunk { start_byte: 7, end_byte: 9, data: vec![1, 2] },
            OutputChunk { start_byte: 9, end_byte: 10, data: vec![3] },
        ],
        first_available_byte: 7,
        latest_output_bytes: 10,
        truncated: true,
    });
    let chunk = output.push(vec![4, 5]);
    assert_eq!((chunk.start_byte, chunk.end_byte), (10, 12));
    assert_eq!(output.latest_output_bytes(), 12);
    assert_eq!(output.first_available_byte(), 7);
    assert_eq!(replay_bytes(&output.replay(0).chunks), vec![1, 2, 3, 4, 5]);
    assert!(output.replay(6).truncated);
    assert!(!output.replay(7).truncated);
}
