//! The replay buffer of a terminal.

use clhorde::daemon::pty_worker::PtyRingBuffer;

#[test]
fn ring_buffer_basic() {
    let mut rb = PtyRingBuffer::new(8);
    rb.extend(b"hello");
    assert_eq!(rb.snapshot(), b"hello");
}

#[test]
fn ring_buffer_wrap() {
    let mut rb = PtyRingBuffer::new(8);
    rb.extend(b"12345678"); // fill exactly
    rb.extend(b"AB"); // wrap around
    let snap = rb.snapshot();
    assert_eq!(snap, b"345678AB");
}

#[test]
fn ring_buffer_overflow() {
    let mut rb = PtyRingBuffer::new(4);
    rb.extend(b"abcdefgh"); // 2x capacity
    let snap = rb.snapshot();
    assert_eq!(snap.len(), 4);
    assert_eq!(snap, b"efgh");
}

#[test]
fn ring_buffer_empty() {
    let rb = PtyRingBuffer::new(16);
    assert!(rb.snapshot().is_empty());
}
