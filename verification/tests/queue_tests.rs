use veritas::queue::InputQueue;

fn frame(bytes: &[u8]) -> Vec<u8> {
    bytes.to_vec()
}

#[test]
fn queue_fifo_round_trip() {
    // Enqueue a burst within capacity, then dequeue the same count: the
    // frames come back unchanged and in order.
    let mut q = InputQueue::new(2, 8);
    let frames = [
        [0x7F, 0xFF],
        [0xBF, 0xFF],
        [0xDF, 0xFF],
        [0xEF, 0xFF],
        [0xFF, 0xFE],
    ];
    for f in &frames {
        assert!(q.enqueue(frame(f)));
    }
    assert_eq!(q.len(), 5);
    for f in &frames {
        assert_eq!(q.dequeue(), Some(frame(f)));
    }
    assert!(q.is_empty());
}

#[test]
fn queue_rejects_when_full() {
    let mut q = InputQueue::new(2, 2);
    assert!(q.enqueue(frame(&[1, 2])));
    assert!(q.enqueue(frame(&[3, 4])));
    assert!(q.is_full());
    assert!(!q.enqueue(frame(&[5, 6])));
    assert_eq!(q.len(), 2);
    assert_eq!(q.dequeue(), Some(frame(&[1, 2])));
}

#[test]
fn empty_dequeue_yields_neutral_frame() {
    // An empty queue hands out the neutral all-released frame, not a
    // failure.
    let mut q = InputQueue::new(2, 4);
    assert_eq!(q.dequeue_or_neutral(), frame(&[0xFF, 0xFF]));
    let mut q4 = InputQueue::new(4, 4);
    assert_eq!(q4.dequeue_or_neutral(), frame(&[0xFF, 0xFF, 0xFF, 0xFF]));
    assert_eq!(q4.dequeue(), None);
}

#[test]
fn queue_free_bytes_track_width() {
    let mut q = InputQueue::new(4, 8);
    assert_eq!(q.free_bytes(), 32);
    q.enqueue(frame(&[1, 2, 3, 4]));
    assert_eq!(q.free_bytes(), 28);
    q.drain();
    assert_eq!(q.free_bytes(), 32);
    assert!(q.is_empty());
}
