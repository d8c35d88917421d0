use multipart_echo::error::DecodeError;
use multipart_echo::payload::{accumulate, append_chunk, ChunkRead};

fn data(bytes: &[u8]) -> ChunkRead {
    ChunkRead::Data(bytes.to_vec())
}

#[test]
fn append_chunk_adds_at_the_end() {
    let mut buffer = vec![1u8, 2];
    append_chunk(&mut buffer, &[3, 4, 5]);
    assert_eq!(buffer, vec![1u8, 2, 3, 4, 5]);
    append_chunk(&mut buffer, &[]);
    assert_eq!(buffer, vec![1u8, 2, 3, 4, 5]);
}

#[test]
fn accumulate_joins_chunks_in_arrival_order() {
    let reads = vec![data(b"he"), data(b""), data(b"llo"), data(b" world")];
    assert_eq!(accumulate(&reads), Ok(b"hello world".to_vec()));
}

#[test]
fn accumulate_keeps_repeated_chunks() {
    let reads = vec![data(b"ab"), data(b"ab"), data(b"ab")];
    assert_eq!(accumulate(&reads), Ok(b"ababab".to_vec()));
}

#[test]
fn accumulate_of_no_reads_is_empty() {
    assert_eq!(accumulate(&Vec::new()), Ok(Vec::new()));
}

#[test]
fn accumulate_fails_when_the_last_read_failed() {
    let reads = vec![data(b"he"), data(b"llo"), ChunkRead::Failed];
    assert_eq!(accumulate(&reads), Err(DecodeError::PayloadInterrupted));
}

#[test]
fn accumulate_fails_when_a_read_in_the_middle_failed() {
    let reads = vec![data(b"he"), ChunkRead::Failed, data(b"llo")];
    assert_eq!(accumulate(&reads), Err(DecodeError::PayloadInterrupted));
}

#[test]
fn accumulate_fails_when_the_only_read_failed() {
    assert_eq!(accumulate(&vec![ChunkRead::Failed]), Err(DecodeError::PayloadInterrupted));
}

#[test]
fn every_cutting_of_a_payload_accumulates_to_the_payload() {
    let payload: Vec<u8> = (0u8..12).collect();
    for first in 0..=payload.len() {
        for second in first..=payload.len() {
            let reads = vec![
                data(&payload[..first]),
                data(&payload[first..second]),
                data(&payload[second..]),
            ];
            assert_eq!(accumulate(&reads), Ok(payload.clone()));
        }
    }
}

#[test]
fn one_byte_chunks_accumulate_to_the_payload() {
    let payload = b"\x00\xff binary \r\n--boundary".to_vec();
    let reads: Vec<ChunkRead> = payload.iter().map(|b| ChunkRead::Data(vec![*b])).collect();
    assert_eq!(accumulate(&reads), Ok(payload));
}
