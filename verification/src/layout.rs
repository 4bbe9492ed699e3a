//! Byte-layout arithmetic for structures placed inside a shared segment.
//!
//! A producer lays a ring buffer out inside a freshly created segment; a
//! consumer in another process must reconstruct the very same offsets from
//! nothing but the segment's base address and the capacity it reads back out
//! of the header. Both sides therefore compute their offsets with the same
//! pure functions of `(base address, capacity, control-block size, payload
//! size)` below, and [`lemma_ring_layout_unique`] proves that those
//! equations admit exactly one layout.
//!
//! All offsets are aligned to [`crate::PTR_ALIGN`], mirroring the
//! initializer, which aligns every block to the platform pointer width
//! before writing it.

use vstd::prelude::*;

use crate::PTR_ALIGN;

verus! {

/// Bytes of padding needed in front of `addr` so that the padded address is
/// a multiple of `align`.
pub open spec fn pad_spec(addr: int, align: int) -> int
    recommends
        align >= 1,
{
    let r = addr % align;
    if r == 0 {
        0
    } else {
        align - r
    }
}

/// The padding is less than one alignment unit and lands the address on an
/// exact multiple of `align`.
pub proof fn lemma_pad_aligns(addr: int, align: int)
    requires
        align >= 1,
        addr >= 0,
    ensures
        0 <= pad_spec(addr, align) < align,
        (addr + pad_spec(addr, align)) % align == 0,
{
    let r = addr % align;
    assert(0 <= r < align) by (nonlinear_arith)
        requires
            align >= 1,
            addr >= 0,
            r == addr % align,
    ;
    if r != 0 {
        assert((addr + (align - r)) % align == 0) by (nonlinear_arith)
            requires
                align >= 1,
                0 <= r < align,
                r == addr % align,
        ;
    }
}

/// Padding in front of `addr` to reach the next multiple of `align`
/// (`0` if `addr` is already aligned).
pub fn align_pad(addr: usize, align: usize) -> (pad: usize)
    requires
        align >= 1,
    ensures
        pad == pad_spec(addr as int, align as int),
        pad < align,
        (addr + pad) % (align as int) == 0,
{
    proof {
        lemma_pad_aligns(addr as int, align as int);
    }
    let r = addr % align;
    if r == 0 {
        0
    } else {
        align - r
    }
}

/// Where one lock-plus-payload block lands when placed at `addr`: padding to
/// the pointer alignment, then the lock control block, then the payload.
/// `consumed` is the byte count the block's initializer reports back so that
/// a caller laying out several blocks can advance its cursor.
#[derive(Debug, Clone, Copy, PartialEq, Eq, Structural)]
pub struct LockSpan {
    /// Padding inserted in front of `addr`.
    pub padding: usize,
    /// Absolute offset of the lock control block.
    pub lock_offset: usize,
    /// Absolute offset of the payload, right after the control block.
    pub data_offset: usize,
    /// Total bytes consumed from `addr` on: `padding + lock_size +
    /// payload_size`.
    pub consumed: usize,
}

/// The defining equations of a lock span placed at `addr`.
pub open spec fn is_lock_span(addr: int, lock_size: int, payload_size: int, s: LockSpan) -> bool {
    &&& s.padding == pad_spec(addr, PTR_ALIGN as int)
    &&& s.lock_offset == addr + s.padding
    &&& s.data_offset == s.lock_offset + lock_size
    &&& s.consumed == s.padding + lock_size + payload_size
    &&& s.lock_offset as int % (PTR_ALIGN as int) == 0
}

/// Computes the span of one lock-plus-payload block placed at `addr`.
///
/// Both the initializing side (which writes the control block and the
/// initial payload) and the attaching side (which merely recomputes the
/// pointers) take their offsets from here.
pub fn lock_span(addr: usize, lock_size: usize, payload_size: usize) -> (s: LockSpan)
    requires
        addr + PTR_ALIGN + lock_size + payload_size <= usize::MAX,
    ensures
        is_lock_span(addr as int, lock_size as int, payload_size as int, s),
        s.consumed < PTR_ALIGN + lock_size + payload_size,
        addr + s.consumed == s.data_offset + payload_size,
{
    let padding: usize = align_pad(addr, PTR_ALIGN);
    let lock_offset: usize = addr + padding;
    LockSpan {
        padding,
        lock_offset,
        data_offset: lock_offset + lock_size,
        consumed: padding + lock_size + payload_size,
    }
}

/// Round-trip placement of a single lock-plus-payload block: the defining
/// equations admit exactly one span, so the process that initializes the
/// block and every process that attaches to it compute identical pointers
/// from the address and the sizes alone.
pub proof fn lemma_lock_span_unique(
    addr: int,
    lock_size: int,
    payload_size: int,
    s1: LockSpan,
    s2: LockSpan,
)
    requires
        is_lock_span(addr, lock_size, payload_size, s1),
        is_lock_span(addr, lock_size, payload_size, s2),
    ensures
        s1 == s2,
{
}

/// Full layout of a ring buffer inside a segment: a pointer-aligned header
/// holding the capacity and the shared write-sequence counter, followed by
/// `capacity` lock-plus-payload slots back to back.
#[derive(Debug, PartialEq, Eq)]
pub struct RingLayout {
    /// Absolute offset of the capacity field (one pointer-sized word).
    pub capacity_offset: usize,
    /// Absolute offset of the write-sequence counter (one pointer-sized
    /// word, right after the capacity).
    pub seq_offset: usize,
    /// One span per slot, in slot order.
    pub slots: Vec<LockSpan>,
    /// First byte past the last slot.
    pub end: usize,
}

/// Upper bound on the bytes a ring layout starting at any address consumes
/// past that address: header padding and fields, plus one aligned slot per
/// capacity unit.
pub open spec fn ring_bound(capacity: int, lock_size: int, payload_size: int) -> int {
    3 * (PTR_ALIGN as int) + capacity * ((PTR_ALIGN as int) + lock_size + payload_size)
}

/// The defining equations of a ring layout placed at `base`: they have
/// exactly one solution ([`lemma_ring_layout_unique`]), which is why an
/// attaching process reconstructs the producer's offsets without any
/// coordination beyond the capacity value itself.
pub open spec fn is_ring_layout(
    base: int,
    capacity: int,
    lock_size: int,
    payload_size: int,
    r: RingLayout,
) -> bool {
    &&& r.capacity_offset == base + pad_spec(base, PTR_ALIGN as int)
    &&& r.seq_offset == r.capacity_offset + PTR_ALIGN
    &&& r.slots@.len() == capacity
    &&& (capacity > 0 ==> is_lock_span(
        r.seq_offset + PTR_ALIGN,
        lock_size,
        payload_size,
        r.slots@[0],
    ))
    &&& (forall|i: int|
        0 < i < capacity ==> is_lock_span(
            r.slots@[i - 1].data_offset + payload_size,
            lock_size,
            payload_size,
            #[trigger] r.slots@[i],
        ))
    &&& r.end == if capacity == 0 {
        r.seq_offset + (PTR_ALIGN as int)
    } else {
        r.slots@[capacity - 1].data_offset + payload_size
    }
}

/// Computes the one layout of a `capacity`-slot ring buffer placed at
/// `base`, for slots made of a `lock_size`-byte control block and a
/// `payload_size`-byte payload.
///
/// The producer walks this layout writing header fields and initializing
/// slot locks; an attaching consumer walks the identical layout computing
/// pointers only. Besides the defining equations, the result is proved to
/// stay within [`ring_bound`] bytes of `base`, with the slots in strictly
/// increasing, non-overlapping positions.
pub fn ring_layout(base: usize, capacity: usize, lock_size: usize, payload_size: usize) -> (r:
    RingLayout)
    requires
        capacity >= 1,
        base + ring_bound(capacity as int, lock_size as int, payload_size as int) <= usize::MAX,
    ensures
        is_ring_layout(base as int, capacity as int, lock_size as int, payload_size as int, r),
        r.end <= base + ring_bound(capacity as int, lock_size as int, payload_size as int),
        forall|i: int|
            0 <= i < capacity ==> (#[trigger] r.slots@[i]).lock_offset >= r.seq_offset + PTR_ALIGN,
        forall|i: int|
            0 <= i < capacity ==> (#[trigger] r.slots@[i]).data_offset + payload_size <= r.end,
        forall|i: int|
            0 <= i < capacity - 1 ==> (#[trigger] r.slots@[i]).data_offset + payload_size
                <= r.slots@[i + 1].lock_offset,
{
    let ghost stride: int = (PTR_ALIGN as int) + lock_size + payload_size;
    let pad: usize = align_pad(base, PTR_ALIGN);
    let capacity_offset: usize = base + pad;
    let seq_offset: usize = capacity_offset + PTR_ALIGN;
    let mut slots: Vec<LockSpan> = Vec::new();
    let mut addr: usize = seq_offset + PTR_ALIGN;
    let mut i: usize = 0;
    while i < capacity
        invariant
            capacity >= 1,
            base + ring_bound(capacity as int, lock_size as int, payload_size as int)
                <= usize::MAX,
            stride == (PTR_ALIGN as int) + lock_size + payload_size,
            capacity_offset == base + pad_spec(base as int, PTR_ALIGN as int),
            seq_offset == capacity_offset + PTR_ALIGN,
            i <= capacity,
            slots@.len() == i,
            addr >= seq_offset + PTR_ALIGN,
            addr == if i == 0 {
                seq_offset + (PTR_ALIGN as int)
            } else {
                slots@[i - 1].data_offset + (payload_size as int)
            },
            addr <= base + 3 * (PTR_ALIGN as int) + i * stride,
            i > 0 ==> is_lock_span(
                seq_offset + (PTR_ALIGN as int),
                lock_size as int,
                payload_size as int,
                slots@[0],
            ),
            forall|j: int|
                0 < j < i ==> is_lock_span(
                    slots@[j - 1].data_offset + payload_size,
                    lock_size as int,
                    payload_size as int,
                    #[trigger] slots@[j],
                ),
            forall|j: int|
                0 <= j < i ==> (#[trigger] slots@[j]).lock_offset >= seq_offset + PTR_ALIGN,
            forall|j: int|
                0 <= j < i ==> (#[trigger] slots@[j]).data_offset + payload_size <= addr,
        decreases capacity - i,
    {
        proof {
            assert((i + 1) * stride == i * stride + stride) by (nonlinear_arith);
            assert((i + 1) * stride <= capacity * stride) by (nonlinear_arith)
                requires
                    i + 1 <= capacity,
                    stride >= 0,
            ;
        }
        let s: LockSpan = lock_span(addr, lock_size, payload_size);
        addr = addr + s.consumed;
        slots.push(s);
        i = i + 1;
    }
    proof {
        assert(i * stride <= capacity * stride) by (nonlinear_arith)
            requires
                i <= capacity,
                stride >= 0,
        ;
    }
    RingLayout { capacity_offset, seq_offset, slots, end: addr }
}

/// Number of bytes a segment must offer past the ring's base address so
/// that a `capacity`-slot ring buffer surely fits, whatever the base
/// address's alignment.
pub fn required_bytes(capacity: usize, lock_size: usize, payload_size: usize) -> (n: usize)
    requires
        capacity >= 1,
        ring_bound(capacity as int, lock_size as int, payload_size as int) <= usize::MAX,
    ensures
        n == ring_bound(capacity as int, lock_size as int, payload_size as int),
{
    proof {
        let stride: int = (PTR_ALIGN as int) + lock_size + payload_size;
        assert(stride <= capacity * stride && capacity * stride >= 0) by (nonlinear_arith)
            requires
                capacity >= 1,
                stride >= 0,
        ;
    }
    3 * PTR_ALIGN + capacity * (PTR_ALIGN + lock_size + payload_size)
}

/// Round-trip layout: the defining equations admit exactly one layout, so
/// the producer that initializes a segment and any consumer that later
/// attaches to it — knowing only the base address, the capacity and the
/// sizes — place the header and every slot at identical offsets.
pub proof fn lemma_ring_layout_unique(
    base: int,
    capacity: int,
    lock_size: int,
    payload_size: int,
    r1: RingLayout,
    r2: RingLayout,
)
    requires
        capacity >= 0,
        is_ring_layout(base, capacity, lock_size, payload_size, r1),
        is_ring_layout(base, capacity, lock_size, payload_size, r2),
    ensures
        r1.capacity_offset == r2.capacity_offset,
        r1.seq_offset == r2.seq_offset,
        r1.slots@ == r2.slots@,
        r1.end == r2.end,
{
    assert forall|i: int| 0 <= i < capacity implies r1.slots@[i] == r2.slots@[i] by {
        lemma_ring_slots_agree(base, capacity, lock_size, payload_size, r1, r2, i);
    }
    assert(r1.slots@ =~= r2.slots@);
}

/// Slots of two layouts satisfying the same defining equations agree up to
/// and including index `i`.
proof fn lemma_ring_slots_agree(
    base: int,
    capacity: int,
    lock_size: int,
    payload_size: int,
    r1: RingLayout,
    r2: RingLayout,
    i: int,
)
    requires
        is_ring_layout(base, capacity, lock_size, payload_size, r1),
        is_ring_layout(base, capacity, lock_size, payload_size, r2),
        0 <= i < capacity,
    ensures
        r1.slots@[i] == r2.slots@[i],
    decreases i,
{
    if i > 0 {
        lemma_ring_slots_agree(base, capacity, lock_size, payload_size, r1, r2, i - 1);
    }
}

} // verus!
