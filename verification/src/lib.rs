//! Cross-process data exchange over POSIX shared memory, with the layout
//! arithmetic, synchronization bookkeeping and ring-buffer policy verified.
//!
//! The crate is organised around three shared-memory pieces and two
//! companions:
//!
//! * [`layout`] computes the byte layout that every process attached to a
//!   segment must reproduce independently: alignment padding, the ring
//!   header, and one span per lock-plus-payload slot.
//! * [`sync`] holds the error taxonomy of the process-shared locks and the
//!   small decisions their wrappers make (return-code mapping, absolute
//!   deadlines for timed waits).
//! * [`ringbuffer`] is the multi-producer/multi-consumer slot ring: a shared
//!   write-sequence counter selects a slot per write, and each consumer
//!   follows the counter with a private cursor.
//! * [`bt`] is a small behavior-tree engine over a key/value blackboard.
//! * [`rolling`], [`logger`] and [`formatter`] configure a rolling-file log
//!   sink: rotation schedules, calendar arithmetic for the next rollover,
//!   file pruning, and the log-line format.

use vstd::prelude::*;

pub mod bt;
pub mod errors;
pub mod formatter;
pub mod layout;
pub mod logger;
pub mod ringbuffer;
pub mod rolling;
pub mod sync;

verus! {

/// Pointer width of the target, in bytes: every in-segment structure is
/// aligned to this before use, on both the initializing and the attaching
/// side.
pub const PTR_ALIGN: usize = 8;

} // verus!
