use concon::error::RaceError;
use concon::response::{accumulate_reads, fetch_outcome, ResponseAccumulator};

#[test]
fn round_trip_varying_chunk_sizes() {
    // A known byte sequence split across reads of varying size, ending in a
    // short read, comes back exactly as it was.
    let original: Vec<u8> = (0u8..=10).collect();
    let chunks = vec![
        original[0..4].to_vec(),
        original[4..8].to_vec(),
        original[8..11].to_vec(),
    ];
    let payload = accumulate_reads(&chunks, 4);
    assert_eq!(payload, original);
}

#[test]
fn round_trip_single_short_read() {
    let chunks = vec![vec![72u8, 105]];
    let payload = accumulate_reads(&chunks, 8);
    assert_eq!(payload, vec![72u8, 105]);
}

#[test]
fn short_read_stops_consumption() {
    // Chunks after the first short one are never consumed.
    let chunks = vec![vec![1u8, 2], vec![3u8], vec![4u8, 5]];
    let payload = accumulate_reads(&chunks, 2);
    assert_eq!(payload, vec![1u8, 2, 3]);
}

#[test]
fn empty_read_ends_stream() {
    // A read of zero bytes is a short read: end of stream, nothing added.
    let chunks = vec![vec![9u8, 9], vec![], vec![1u8, 1]];
    let payload = accumulate_reads(&chunks, 2);
    assert_eq!(payload, vec![9u8, 9]);
}

#[test]
fn accumulator_steps_match_whole_run() {
    let mut acc = ResponseAccumulator::new();
    acc.on_read(&vec![10u8, 20, 30], 3);
    assert!(!acc.done);
    acc.on_read(&vec![40u8], 3);
    assert!(acc.done);
    assert_eq!(acc.payload, vec![10u8, 20, 30, 40]);
    assert!(!acc.read_failed);
}

#[test]
fn read_error_keeps_partial_payload() {
    let mut acc = ResponseAccumulator::new();
    acc.on_read(&vec![5u8, 6], 2);
    acc.on_read_error();
    assert!(acc.done);
    assert!(acc.read_failed);
    let out = fetch_outcome(true, acc);
    assert_eq!(out, Ok(vec![5u8, 6]));
}

#[test]
fn read_error_before_any_data_is_read_error() {
    let mut acc = ResponseAccumulator::new();
    acc.on_read_error();
    let out = fetch_outcome(true, acc);
    assert_eq!(out, Err(RaceError::Read));
}

#[test]
fn failed_write_is_write_error() {
    let acc = ResponseAccumulator::new();
    let out = fetch_outcome(false, acc);
    assert_eq!(out, Err(RaceError::Write));
}

#[test]
fn successful_fetch_returns_payload() {
    let mut acc = ResponseAccumulator::new();
    acc.on_read(&vec![1u8], 2);
    let out = fetch_outcome(true, acc);
    assert_eq!(out, Ok(vec![1u8]));
}
