use zenrc::layout::{align_pad, lock_span, required_bytes, ring_layout};
use zenrc::PTR_ALIGN;

#[test]
fn padding_reaches_the_next_boundary() {
    assert_eq!(align_pad(0, PTR_ALIGN), 0);
    assert_eq!(align_pad(1, PTR_ALIGN), 7);
    assert_eq!(align_pad(8, PTR_ALIGN), 0);
    assert_eq!(align_pad(13, PTR_ALIGN), 3);
}

#[test]
fn lock_span_at_aligned_address() {
    // One process-shared read/write lock (56 control bytes on this target)
    // guarding a 4-byte payload, placed at offset 16.
    let s = lock_span(16, 56, 4);
    assert_eq!(s.padding, 0);
    assert_eq!(s.lock_offset, 16);
    assert_eq!(s.data_offset, 72);
    assert_eq!(s.consumed, 60);
}

#[test]
fn lock_span_at_unaligned_address() {
    let s = lock_span(76, 56, 4);
    assert_eq!(s.padding, 4);
    assert_eq!(s.lock_offset, 80);
    assert_eq!(s.data_offset, 136);
    assert_eq!(s.consumed, 64);
}

/// Round-trip layout: the offsets of a two-slot ring computed from the
/// parameters alone, as both the initializing and the attaching process
/// compute them.
#[test]
fn two_slot_ring_offsets() {
    let r = ring_layout(0, 2, 56, 4);
    assert_eq!(r.capacity_offset, 0);
    assert_eq!(r.seq_offset, 8);
    assert_eq!(r.slots.len(), 2);
    assert_eq!(r.slots[0].lock_offset, 16);
    assert_eq!(r.slots[0].data_offset, 72);
    assert_eq!(r.slots[1].lock_offset, 80);
    assert_eq!(r.slots[1].data_offset, 136);
    assert_eq!(r.end, 140);
    assert!(r.end <= required_bytes(2, 56, 4));
}

/// Two independent computations of the same layout agree offset for offset.
#[test]
fn layout_is_reproducible() {
    let a = ring_layout(32, 5, 56, 16);
    let b = ring_layout(32, 5, 56, 16);
    assert_eq!(a, b);
    for i in 0..4 {
        // Slots are disjoint and in increasing order.
        assert!(a.slots[i].data_offset + 16 <= a.slots[i + 1].lock_offset);
    }
}
