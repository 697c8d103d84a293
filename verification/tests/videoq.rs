use narcissus::errors::{Error, ErrorType};
use narcissus::videoq::{videoq, MAX_RECEIVERS, SLOTS};

#[test]
fn a_new_ring_is_empty_and_open() {
    let (ring, _tx, mut rx) = videoq(4);
    assert_eq!(SLOTS, 2);
    assert_eq!(ring.bufsize(), 4);
    assert_eq!(ring.receivers(), 1);
    assert!(ring.is_open());
    assert_eq!(rx.last_timestamp(), None);
    let mut ring = ring;
    assert!(matches!(rx.recv(&mut ring), Ok(None)));
}

#[test]
fn recv_borrows_the_frame_that_was_sent() {
    let (mut ring, tx, mut rx) = videoq(4);
    assert!(tx.send(&mut ring, &[1, 2, 3, 4], 100));
    let (frame, timestamp) = rx.recv(&mut ring).unwrap().unwrap();
    assert_eq!(timestamp, 100);
    assert_eq!(frame.bytes(&ring), &[1, 2, 3, 4]);
    assert_eq!(ring.readers(frame.slot()), 1);
    assert_eq!(rx.last_timestamp(), Some(100));
    let slot = frame.slot();
    frame.release(&mut ring);
    assert_eq!(ring.readers(slot), 0);
}

#[test]
fn recv_hands_out_only_frames_newer_than_the_last() {
    let (mut ring, tx, mut rx) = videoq(1);
    tx.send(&mut ring, &[1], 5);
    let (frame, _) = rx.recv(&mut ring).unwrap().unwrap();
    frame.release(&mut ring);
    assert!(matches!(rx.recv(&mut ring), Ok(None)));
    tx.send(&mut ring, &[2], 5);
    assert!(matches!(rx.recv(&mut ring), Ok(None)));
    tx.send(&mut ring, &[3], 6);
    let (frame, timestamp) = rx.recv(&mut ring).unwrap().unwrap();
    assert_eq!(timestamp, 6);
    assert_eq!(frame.bytes(&ring), &[3]);
}

#[test]
fn sends_between_two_reads_are_coalesced() {
    let (mut ring, tx, mut rx) = videoq(1);
    tx.send(&mut ring, &[1], 1);
    tx.send(&mut ring, &[2], 2);
    tx.send(&mut ring, &[3], 3);
    let (frame, timestamp) = rx.recv(&mut ring).unwrap().unwrap();
    assert_eq!(timestamp, 3);
    assert_eq!(frame.bytes(&ring), &[3]);
}

#[test]
fn a_borrowed_slot_is_not_overwritten() {
    let (mut ring, tx, mut rx) = videoq(2);
    tx.send(&mut ring, &[1, 1], 1);
    let (frame, _) = rx.recv(&mut ring).unwrap().unwrap();
    // the other slot is free: this frame is taken
    tx.send(&mut ring, &[2, 2], 2);
    assert_eq!(frame.bytes(&ring), &[1, 1]);
    // now the borrowed slot is the only one that is not published: the frame is let go
    tx.send(&mut ring, &[3, 3], 3);
    assert_eq!(frame.bytes(&ring), &[1, 1]);
    frame.release(&mut ring);
    let (newest, timestamp) = rx.recv(&mut ring).unwrap().unwrap();
    assert_eq!(timestamp, 2);
    assert_eq!(newest.bytes(&ring), &[2, 2]);
    newest.release(&mut ring);
    // with the borrow given back the writer moves on
    tx.send(&mut ring, &[4, 4], 4);
    let (last, timestamp) = rx.recv(&mut ring).unwrap().unwrap();
    assert_eq!(timestamp, 4);
    assert_eq!(last.bytes(&ring), &[4, 4]);
}

#[test]
fn send_reports_when_no_receiver_is_left() {
    let (mut ring, tx, rx) = videoq(1);
    assert!(tx.send(&mut ring, &[1], 1));
    rx.release(&mut ring);
    assert_eq!(ring.receivers(), 0);
    assert!(!tx.send(&mut ring, &[2], 2));
}

#[test]
fn recv_after_close_reports_the_closed_sender() {
    let (mut ring, tx, mut rx) = videoq(1);
    tx.send(&mut ring, &[1], 1);
    tx.close(&mut ring);
    assert!(!ring.is_open());
    match rx.recv(&mut ring) {
        Err(e) => assert_eq!(e, Error { error_type: ErrorType::VideoSenderClosed }),
        Ok(_) => panic!("a closed ring handed out a frame"),
    }
}

#[test]
fn clone_fails_at_the_receiver_cap() {
    let (mut ring, _tx, rx) = videoq(1);
    let mut ends = Vec::new();
    for _ in 1..MAX_RECEIVERS {
        ends.push(rx.clone(&mut ring).unwrap());
    }
    assert_eq!(ring.receivers(), MAX_RECEIVERS);
    assert!(rx.clone(&mut ring).is_none());
    assert_eq!(ring.receivers(), MAX_RECEIVERS);
}

#[test]
fn a_cloned_receiver_has_seen_what_the_first_has() {
    let (mut ring, tx, mut rx) = videoq(1);
    tx.send(&mut ring, &[1], 10);
    let (frame, _) = rx.recv(&mut ring).unwrap().unwrap();
    frame.release(&mut ring);
    let mut twin = rx.clone(&mut ring).unwrap();
    assert_eq!(twin.last_timestamp(), Some(10));
    assert!(matches!(twin.recv(&mut ring), Ok(None)));
    tx.send(&mut ring, &[2], 11);
    assert!(matches!(twin.recv(&mut ring), Ok(Some(_))));
    assert!(matches!(rx.recv(&mut ring), Ok(Some(_))));
}
