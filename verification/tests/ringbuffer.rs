use zenrc::errors::RwLockError;
use zenrc::ringbuffer::MpmcRingBuffer;

/// End-to-end scenario: a producer builds a ring of capacity 10 and writes
/// 1..=5; a consumer attaching afterwards reads the latest value (5) and
/// then the empty error.
#[test]
fn end_to_end_capacity_ten() {
    let mut producer: MpmcRingBuffer<i32> = MpmcRingBuffer::new(10);
    for v in 1..=5 {
        producer.write(v);
    }
    let mut consumer = MpmcRingBuffer::try_into(&producer).unwrap();
    assert_eq!(consumer.read(), Ok(5));
    assert_eq!(consumer.read(), Err(RwLockError::Empty));
}

/// Empty condition: after one write, the first read succeeds and the second
/// reports empty.
#[test]
fn empty_after_catching_up() {
    let mut rb: MpmcRingBuffer<u64> = MpmcRingBuffer::new(3);
    rb.write(42);
    assert_eq!(rb.read(), Ok(42));
    assert_eq!(rb.read(), Err(RwLockError::Empty));
}

/// Consumer skip-to-latest: a consumer attached after several writes sees
/// only the latest of them, and then exactly the writes that follow.
#[test]
fn skip_to_latest_then_one_at_a_time() {
    let mut rb: MpmcRingBuffer<i32> = MpmcRingBuffer::new(4);
    rb.write(10);
    rb.write(20);
    rb.write(30);
    // First read jumps over 10 and 20 straight to 30.
    assert_eq!(rb.read(), Ok(30));
    rb.write(40);
    assert_eq!(rb.read(), Ok(40));
    assert_eq!(rb.read(), Err(RwLockError::Empty));
}

/// A consumer advances by exactly one read per call even when the producer
/// has moved further ahead.
#[test]
fn one_step_per_read() {
    let mut rb: MpmcRingBuffer<i32> = MpmcRingBuffer::new(2);
    rb.write(1);
    assert_eq!(rb.read(), Ok(1));
    rb.write(2);
    rb.write(3);
    // The shared counter is at 3, the cursor at 1: one step to write 2.
    assert_eq!(rb.read(), Ok(2));
    assert_eq!(rb.read(), Ok(3));
    assert_eq!(rb.read(), Err(RwLockError::Empty));
}

/// Slot selection wraps modulo the capacity: with capacity 2, the third
/// write lands on the first slot again.
#[test]
fn wrap_around_overwrites_oldest() {
    let mut rb: MpmcRingBuffer<i32> = MpmcRingBuffer::new(2);
    rb.write(1);
    rb.write(2);
    rb.write(3);
    // A fresh consumer jumps to the latest write (sequence 3, slot 0).
    let mut consumer = MpmcRingBuffer::try_into(&rb).unwrap();
    assert_eq!(consumer.read(), Ok(3));
    assert_eq!(consumer.read(), Err(RwLockError::Empty));
}

/// Round-trip: values written by one handle are read back through a handle
/// attached to the same state, slot by slot.
#[test]
fn attach_reconstructs_written_values() {
    let mut producer: MpmcRingBuffer<i32> = MpmcRingBuffer::new(3);
    producer.write(7);
    let mut consumer = MpmcRingBuffer::try_into(&producer).unwrap();
    assert_eq!(consumer.read(), Ok(7));
}
