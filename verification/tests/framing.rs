use pomodoro::framing::{frame_message, reassemble, CHUNK_SIZE};

fn bytes_of_len(n: usize) -> Vec<u8> {
    (0..n).map(|i| (i % 251) as u8).collect()
}

#[test]
fn frame_empty_message() {
    let datagrams = frame_message(&Vec::new());
    assert_eq!(datagrams.len(), 1);
    assert!(datagrams[0].is_empty());
    assert_eq!(reassemble(&datagrams), Some(Vec::new()));
}

#[test]
fn frame_small_message() {
    let msg = bytes_of_len(10);
    let datagrams = frame_message(&msg);
    assert_eq!(datagrams.len(), 2);
    assert_eq!(datagrams[0], msg);
    assert!(datagrams[1].is_empty());
    assert_eq!(reassemble(&datagrams), Some(msg));
}

#[test]
fn frame_exact_chunk_multiple_has_one_terminator() {
    // A message of exactly one chunk still ends with exactly one
    // zero-length datagram.
    let msg = bytes_of_len(CHUNK_SIZE);
    let datagrams = frame_message(&msg);
    assert_eq!(datagrams.len(), 2);
    assert_eq!(datagrams[0].len(), CHUNK_SIZE);
    let empties = datagrams.iter().filter(|d| d.is_empty()).count();
    assert_eq!(empties, 1);
    assert!(datagrams.last().unwrap().is_empty());
    assert_eq!(reassemble(&datagrams), Some(msg));

    // Two full chunks behave the same way.
    let msg = bytes_of_len(2 * CHUNK_SIZE);
    let datagrams = frame_message(&msg);
    assert_eq!(datagrams.len(), 3);
    assert_eq!(datagrams[0].len(), CHUNK_SIZE);
    assert_eq!(datagrams[1].len(), CHUNK_SIZE);
    let empties = datagrams.iter().filter(|d| d.is_empty()).count();
    assert_eq!(empties, 1);
    assert!(datagrams.last().unwrap().is_empty());
    assert_eq!(reassemble(&datagrams), Some(msg));
}

#[test]
fn frame_ragged_tail() {
    let msg = bytes_of_len(2 * CHUNK_SIZE + 904);
    let datagrams = frame_message(&msg);
    assert_eq!(datagrams.len(), 4);
    assert_eq!(datagrams[0].len(), CHUNK_SIZE);
    assert_eq!(datagrams[1].len(), CHUNK_SIZE);
    assert_eq!(datagrams[2].len(), 904);
    assert!(datagrams[3].is_empty());
    assert_eq!(reassemble(&datagrams), Some(msg));
}

#[test]
fn reassemble_without_terminator_is_nothing() {
    let datagrams = vec![vec![1u8, 2, 3], vec![4u8, 5]];
    assert_eq!(reassemble(&datagrams), None);
    assert_eq!(reassemble(&Vec::new()), None);
}

#[test]
fn reassemble_stops_at_first_terminator() {
    let datagrams = vec![vec![1u8, 2], Vec::new(), vec![9u8, 9]];
    assert_eq!(reassemble(&datagrams), Some(vec![1u8, 2]));
}
