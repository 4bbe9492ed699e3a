//! Multi-producer/multi-consumer slot ring buffer.
//!
//! The shared state of a ring buffer — the slot payloads, the capacity and
//! the monotonically increasing write-sequence counter — lives in a shared
//! segment; every attached process holds its own handle, and consumers keep
//! a private read cursor that is never shared. This module verifies that
//! state machine: [`write_spec`] and [`read_spec`] say exactly what one
//! write and one read do, the executable methods are proved to implement
//! them, and the lemmas at the end state the ring's laws (sequence numbers
//! are handed out without duplicates or gaps, slots only ever hold whole
//! written values, a late consumer skips to the latest write, a caught-up
//! consumer reads "empty").
//!
//! A write increments the shared counter to claim a sequence number `s` and
//! overwrites slot `s mod capacity`; a slow writer can thus be overtaken and
//! its value dropped before any reader sees it — this is a "latest values
//! visible" ring, not a queue with guaranteed delivery. A consumer's first
//! read jumps its cursor straight to the current counter value (skipping
//! every older write); each later read advances the cursor by exactly one if
//! the counter has moved, else reports empty; the slot consulted is always
//! `(cursor - 1) mod capacity`.

use vstd::prelude::*;
use vstd::pervasive::VecAdditionalExecFns;

use crate::errors::RwLockError;

verus! {

/// Mathematical state of one ring-buffer handle: the shared slot contents,
/// capacity and write-sequence counter, plus this handle's private read
/// cursor.
pub struct RingView<T> {
    /// Payload held by each of the `capacity` slots.
    pub slots: Seq<T>,
    /// Number of slots; fixed at initialization, identical in every process.
    pub capacity: nat,
    /// Shared write-sequence counter: the number of writes performed so far.
    pub write_seq: nat,
    /// This handle's private cursor: the sequence number of the last write
    /// it has consumed (`0` before the first read).
    pub read_seq: nat,
}

impl<T> RingView<T> {
    /// Well-formedness: at least one slot, one payload per slot, and the
    /// cursor never ahead of the shared counter.
    pub open spec fn wf(self) -> bool {
        &&& self.capacity >= 1
        &&& self.slots.len() == self.capacity
        &&& self.read_seq <= self.write_seq
    }
}

/// Effect of `write(value)` on the shared state: the claimed sequence
/// number is the counter's old value `s`, slot `s mod capacity` is
/// overwritten whole, and the counter moves to `s + 1`. The writer's own
/// read cursor is untouched.
pub open spec fn write_spec<T>(r: RingView<T>, value: T) -> RingView<T>
    recommends
        r.wf(),
{
    RingView {
        slots: r.slots.update((r.write_seq % r.capacity) as int, value),
        write_seq: r.write_seq + 1,
        ..r
    }
}

/// Effect of `read()` on one consumer handle, and its result.
///
/// A fresh cursor (`0`) jumps directly to the current counter value; a
/// cursor behind the counter advances by exactly one; a cursor that has
/// caught up leaves the state unchanged and reports empty. On success the
/// value returned is the payload of slot `(cursor - 1) mod capacity` for
/// the new cursor.
pub open spec fn read_spec<T>(r: RingView<T>) -> (RingView<T>, Result<T, RwLockError>)
    recommends
        r.wf(),
        r.read_seq > 0 || r.write_seq > 0,
{
    if r.read_seq == 0 {
        let c = r.write_seq;
        (
            RingView { read_seq: c, ..r },
            Ok(r.slots[((c - 1) % r.capacity as int)]),
        )
    } else if r.read_seq < r.write_seq {
        let c = r.read_seq + 1;
        (
            RingView { read_seq: c, ..r },
            Ok(r.slots[((c - 1) % r.capacity as int)]),
        )
    } else {
        (r, Err(RwLockError::Empty))
    }
}

/// One handle onto a ring buffer of `T` payloads.
///
/// In a shared segment the fields below live behind pointers into the
/// segment; here they are held directly, so that every statement about them
/// is a statement about the bytes both processes compute offsets for with
/// [`crate::layout`].
pub struct MpmcRingBuffer<T> {
    slots: Vec<T>,
    capacity: usize,
    write_seq: usize,
    read_seq: usize,
}

impl<T> View for MpmcRingBuffer<T> {
    type V = RingView<T>;

    closed spec fn view(&self) -> RingView<T> {
        RingView {
            slots: self.slots@,
            capacity: self.capacity as nat,
            write_seq: self.write_seq as nat,
            read_seq: self.read_seq as nat,
        }
    }
}

impl<T> MpmcRingBuffer<T> {
    /// Well-formedness of the handle (see [`RingView::wf`]).
    pub open spec fn wf(&self) -> bool {
        self@.wf()
    }
}

impl<T: Default> MpmcRingBuffer<T> {
    /// Lays out a fresh ring buffer: a zeroed write-sequence counter and
    /// `capacity` slots, each seeded with the payload type's default value.
    ///
    /// The process that creates the underlying segment runs this exactly
    /// once; every other process attaches with [`MpmcRingBuffer::try_into`]
    /// instead of re-initializing.
    pub fn new(capacity: usize) -> (rb: Self)
        requires
            capacity >= 1,
        ensures
            rb.wf(),
            rb@.capacity == capacity,
            rb@.write_seq == 0,
            rb@.read_seq == 0,
    {
        let mut slots: Vec<T> = Vec::new();
        let mut i: usize = 0;
        while i < capacity
            invariant
                i <= capacity,
                slots@.len() == i,
            decreases capacity - i,
        {
            slots.push(T::default());
            i = i + 1;
        }
        MpmcRingBuffer { slots, capacity, write_seq: 0, read_seq: 0 }
    }
}

/// The slot a write that claimed sequence number `seq` targets.
pub fn write_slot_of(seq: usize, capacity: usize) -> (i: usize)
    requires
        capacity >= 1,
    ensures
        i == seq as int % capacity as int,
        i < capacity,
{
    seq % capacity
}

/// The skip-to-latest cursor policy: a fresh cursor jumps to the counter, a
/// cursor behind the counter advances by one, a caught-up cursor reports
/// empty. The returned cursor designates the slot [`read_slot_of`] computes.
pub fn advance_cursor(cursor: usize, write_seq: usize) -> (r: Result<usize, RwLockError>)
    requires
        cursor > 0 || write_seq > 0,
    ensures
        r == if cursor == 0 {
            Ok::<usize, RwLockError>(write_seq)
        } else if cursor < write_seq {
            Ok::<usize, RwLockError>((cursor + 1) as usize)
        } else {
            Err::<usize, RwLockError>(RwLockError::Empty)
        },
        r matches Ok(c) ==> c >= 1 && cursor <= c <= write_seq,
{
    if cursor == 0 {
        Ok(write_seq)
    } else if cursor < write_seq {
        Ok(cursor + 1)
    } else {
        Err(RwLockError::Empty)
    }
}

/// The slot a consumer whose cursor reached `cursor` reads: the one the
/// write numbered `cursor` targeted.
pub fn read_slot_of(cursor: usize, capacity: usize) -> (i: usize)
    requires
        capacity >= 1,
        cursor >= 1,
    ensures
        i == (cursor - 1) as int % capacity as int,
        i < capacity,
{
    (cursor - 1) % capacity
}

impl<T> MpmcRingBuffer<T> {
    /// Claims the next sequence number from the shared counter and
    /// overwrites the selected slot with `value`, whole, under that slot's
    /// exclusive lock.
    pub fn write(&mut self, value: T)
        requires
            old(self).wf(),
            old(self)@.write_seq < usize::MAX,
        ensures
            final(self).wf(),
            final(self)@ == write_spec(old(self)@, value),
    {
        let seq: usize = self.write_seq;
        self.write_seq = seq + 1;
        let index: usize = write_slot_of(seq, self.capacity);
        self.slots.set(index, value);
    }
}

impl<T: Copy> MpmcRingBuffer<T> {
    /// Advances this handle's private cursor by the skip-to-latest policy
    /// and returns the payload of the slot the new cursor designates, or
    /// [`RwLockError::Empty`] once the cursor has caught up with the
    /// counter.
    ///
    /// A handle whose cursor is still fresh may only read once something
    /// has been written (the ring has no notion of "no data yet" in its
    /// slot selection), hence the precondition.
    pub fn read(&mut self) -> (r: Result<T, RwLockError>)
        requires
            old(self).wf(),
            old(self)@.read_seq > 0 || old(self)@.write_seq > 0,
        ensures
            final(self).wf(),
            (final(self)@, r) == read_spec(old(self)@),
    {
        let seq: usize = self.write_seq;
        let cursor: usize = match advance_cursor(self.read_seq, seq) {
            Ok(c) => c,
            Err(e) => {
                return Err(e);
            },
        };
        self.read_seq = cursor;
        let index: usize = read_slot_of(cursor, self.capacity);
        Ok(self.slots[index])
    }

    /// Attaches a second handle to the shared state behind `segment`: the
    /// slot contents, capacity and counter are the ones already there, and
    /// the new handle starts with a fresh private cursor.
    ///
    /// Fails with [`RwLockError::IntoError`] when the region holds no valid
    /// ring buffer (a zero capacity, which a proper initialization can
    /// never have written).
    pub fn try_into(segment: &Self) -> (r: Result<Self, RwLockError>)
        ensures
            match r {
                Ok(rb) => {
                    &&& segment@.capacity >= 1
                    &&& rb@.slots == segment@.slots
                    &&& rb@.capacity == segment@.capacity
                    &&& rb@.write_seq == segment@.write_seq
                    &&& rb@.read_seq == 0
                },
                Err(e) => e == RwLockError::IntoError && segment@.capacity == 0,
            },
    {
        if segment.capacity == 0 {
            return Err(RwLockError::IntoError);
        }
        let mut slots: Vec<T> = Vec::new();
        let mut i: usize = 0;
        while i < segment.slots.len()
            invariant
                i <= segment.slots@.len(),
                slots@.len() == i,
                forall|j: int| 0 <= j < i ==> slots@[j] == segment.slots@[j],
            decreases segment.slots@.len() - i,
        {
            slots.push(segment.slots[i]);
            i = i + 1;
        }
        proof {
            assert(slots@ =~= segment.slots@);
        }
        Ok(
            MpmcRingBuffer {
                slots,
                capacity: segment.capacity,
                write_seq: segment.write_seq,
                read_seq: 0,
            },
        )
    }
}

/// State after a whole run of writes, applied first to last.
pub open spec fn write_all<T>(r: RingView<T>, vs: Seq<T>) -> RingView<T>
    decreases vs.len(),
{
    if vs.len() == 0 {
        r
    } else {
        write_all(write_spec(r, vs[0]), vs.drop_first())
    }
}

/// Sequence monotonicity: in a run of `n` writes starting from counter
/// value `s`, the `i`-th write claims exactly sequence number `s + i` — the
/// numbers handed out are `{s, s + 1, ..., s + n - 1}`, with no duplicates
/// and no gaps — and the counter ends at `s + n`.
pub proof fn lemma_sequence_monotonicity<T>(r: RingView<T>, vs: Seq<T>)
    requires
        r.wf(),
    ensures
        write_all(r, vs).wf(),
        write_all(r, vs).write_seq == r.write_seq + vs.len(),
        write_all(r, vs).capacity == r.capacity,
        write_all(r, vs).read_seq == r.read_seq,
        forall|i: int|
            0 <= i < vs.len() ==> #[trigger] write_all(r, vs.take(i)).write_seq == r.write_seq + i,
        forall|i: int, j: int|
            0 <= i < j < vs.len() ==> #[trigger] write_all(r, vs.take(i)).write_seq != #[trigger] write_all(
                r,
                vs.take(j),
            ).write_seq,
    decreases vs.len(),
{
    if vs.len() > 0 {
        let r1 = write_spec(r, vs[0]);
        lemma_sequence_monotonicity(r1, vs.drop_first());
        assert forall|i: int|
            0 <= i < vs.len() implies #[trigger] write_all(r, vs.take(i)).write_seq == r.write_seq
            + i by {
            if i == 0 {
                assert(vs.take(0).len() == 0);
            } else {
                assert(vs.take(i).len() == i);
                assert(vs.take(i)[0] == vs[0]);
                assert(vs.take(i).drop_first() =~= vs.drop_first().take(i - 1));
                assert(write_all(r, vs.take(i)) == write_all(r1, vs.drop_first().take(i - 1)));
                assert(write_all(r1, vs.drop_first().take(i - 1)).write_seq == r1.write_seq + (i
                    - 1));
            }
        }
    }
}

/// Whole-value integrity, as far as the sequential model states it: after
/// any run of writes, every slot holds either its prior payload or one of
/// the written values, entire — never a mix. (That two overlapping writers
/// cannot interleave within one slot is what the slot's process-shared
/// exclusive lock provides at runtime.)
pub proof fn lemma_slots_hold_written_values<T>(r: RingView<T>, vs: Seq<T>)
    requires
        r.wf(),
    ensures
        forall|j: int|
            0 <= j < r.capacity ==> #[trigger] write_all(r, vs).slots[j] == r.slots[j] || exists|
                i: int,
            | 0 <= i < vs.len() && write_all(r, vs).slots[j] == vs[i],
    decreases vs.len(),
{
    if vs.len() > 0 {
        let r1 = write_spec(r, vs[0]);
        lemma_slots_hold_written_values(r1, vs.drop_first());
        assert forall|j: int|
            0 <= j < r.capacity implies #[trigger] write_all(r, vs).slots[j] == r.slots[j] || exists|
            i: int,
        | 0 <= i < vs.len() && write_all(r, vs).slots[j] == vs[i] by {
            let f = write_all(r, vs).slots[j];
            assert(write_all(r, vs) == write_all(r1, vs.drop_first()));
            if f == r1.slots[j] {
                if j == r.write_seq % r.capacity && f == vs[0] {
                    assert(exists|i: int| 0 <= i < vs.len() && write_all(r, vs).slots[j] == vs[i]);
                }
            } else {
                let i0 = choose|i0: int|
                    0 <= i0 < vs.drop_first().len() && f == vs.drop_first()[i0];
                assert(f == vs[i0 + 1]);
            }
        }
    }
}

/// Consumer skip-to-latest: a consumer whose cursor is fresh, attached
/// after `P >= 1` writes have occurred, gets the value of write number `P`
/// (the latest) on its first read and jumps its cursor to `P`; after one
/// further write, its next read yields exactly that write's value — write
/// number `P + 1` — so none of the first `P` values is ever delivered to it
/// again.
pub proof fn lemma_consumer_skip_to_latest<T>(r: RingView<T>, v: T)
    requires
        r.wf(),
        r.read_seq == 0,
        r.write_seq >= 1,
    ensures
        read_spec(r).1 == Ok::<T, RwLockError>(r.slots[((r.write_seq - 1) % r.capacity as int)]),
        read_spec(r).0.read_seq == r.write_seq,
        read_spec(write_spec(read_spec(r).0, v)).1 == Ok::<T, RwLockError>(v),
{
    let r2 = read_spec(r).0;
    let r3 = write_spec(r2, v);
    assert(r3.slots[(r2.write_seq % r2.capacity) as int] == v);
}

/// Empty condition: a consumer that has just read (so its cursor equals the
/// counter) gets the empty error on a second read with no intervening
/// write, and its state is unchanged.
pub proof fn lemma_empty_after_catch_up<T>(r: RingView<T>)
    requires
        r.wf(),
        r.read_seq == 0,
        r.write_seq >= 1,
    ensures
        read_spec(r).1 is Ok,
        read_spec(read_spec(r).0).1 == Err::<T, RwLockError>(RwLockError::Empty),
        read_spec(read_spec(r).0).0 == read_spec(r).0,
{
}

} // verus!
