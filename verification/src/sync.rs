//! Decisions made by the process-shared synchronization primitives.
//!
//! The primitives themselves — a mutex and a read/write lock whose control
//! blocks live inside a shared segment — are thin shells around OS calls:
//! each call returns an integer code, `0` for success. What the shells
//! decide is verified here: how a return code maps onto the error taxonomy
//! of [`crate::errors`], and how a relative timeout becomes the absolute
//! deadline a timed lock acquisition hands to the OS. Their byte placement
//! comes from [`crate::layout::lock_span`].

use vstd::prelude::*;

use crate::errors::{MutexLockError, RwLockError};

verus! {

/// How long a timed lock acquisition may wait.
pub enum Timeout {
    /// Wait without a deadline.
    Infinite,
    /// Give up once this much time has passed.
    Val(core::time::Duration),
}

/// Nanoseconds in one second: timestamps below are a second count plus a
/// nanosecond remainder in `[0, NANOS_PER_SEC)`.
pub const NANOS_PER_SEC: u32 = 1_000_000_000;

/// Absolute deadline for a timed lock acquisition: the current time plus
/// the allowed wait, both given as seconds and a sub-second nanosecond
/// remainder, normalized so the nanosecond part stays below one second.
pub fn lock_deadline(now_secs: u64, now_nanos: u32, wait_secs: u64, wait_nanos: u32) -> (r: (
    u64,
    u32,
))
    requires
        now_nanos < NANOS_PER_SEC,
        wait_nanos < NANOS_PER_SEC,
        now_secs + wait_secs + 1 <= u64::MAX,
    ensures
        r.1 < NANOS_PER_SEC,
        r.0 * (NANOS_PER_SEC as int) + r.1 == (now_secs + wait_secs) * (NANOS_PER_SEC as int)
            + now_nanos + wait_nanos,
{
    let secs: u64 = now_secs + wait_secs;
    let nanos: u32 = now_nanos + wait_nanos;
    if nanos >= NANOS_PER_SEC {
        (secs + 1, nanos - NANOS_PER_SEC)
    } else {
        (secs, nanos)
    }
}

/// Outcome of mutex attribute setup or initialization: `0` succeeds, any
/// other code is an initialization error carrying that code.
pub fn mutex_init_result(code: i32) -> (r: Result<(), MutexLockError>)
    ensures
        r == if code == 0 {
            Ok::<(), MutexLockError>(())
        } else {
            Err::<(), MutexLockError>(MutexLockError::InitError(code))
        },
{
    if code == 0 {
        Ok(())
    } else {
        Err(MutexLockError::InitError(code))
    }
}

/// Outcome of a blocking mutex acquisition.
pub fn mutex_lock_result(code: i32) -> (r: Result<(), MutexLockError>)
    ensures
        r == if code == 0 {
            Ok::<(), MutexLockError>(())
        } else {
            Err::<(), MutexLockError>(MutexLockError::LockError(code))
        },
{
    if code == 0 {
        Ok(())
    } else {
        Err(MutexLockError::LockError(code))
    }
}

/// Outcome of a non-blocking mutex acquisition.
pub fn mutex_try_lock_result(code: i32) -> (r: Result<(), MutexLockError>)
    ensures
        r == if code == 0 {
            Ok::<(), MutexLockError>(())
        } else {
            Err::<(), MutexLockError>(MutexLockError::TryLockError(code))
        },
{
    if code == 0 {
        Ok(())
    } else {
        Err(MutexLockError::TryLockError(code))
    }
}

/// Outcome of a timed mutex acquisition.
pub fn mutex_timed_lock_result(code: i32) -> (r: Result<(), MutexLockError>)
    ensures
        r == if code == 0 {
            Ok::<(), MutexLockError>(())
        } else {
            Err::<(), MutexLockError>(MutexLockError::TimeoutError(code))
        },
{
    if code == 0 {
        Ok(())
    } else {
        Err(MutexLockError::TimeoutError(code))
    }
}

/// Outcome of releasing a mutex.
pub fn mutex_unlock_result(code: i32) -> (r: Result<(), MutexLockError>)
    ensures
        r == if code == 0 {
            Ok::<(), MutexLockError>(())
        } else {
            Err::<(), MutexLockError>(MutexLockError::UnlockError(code))
        },
{
    if code == 0 {
        Ok(())
    } else {
        Err(MutexLockError::UnlockError(code))
    }
}

/// Outcome of read/write-lock attribute setup or initialization.
pub fn rwlock_init_result(code: i32) -> (r: Result<(), RwLockError>)
    ensures
        r == if code == 0 {
            Ok::<(), RwLockError>(())
        } else {
            Err::<(), RwLockError>(RwLockError::InitError(code))
        },
{
    if code == 0 {
        Ok(())
    } else {
        Err(RwLockError::InitError(code))
    }
}

/// Outcome of a blocking shared (read) acquisition.
pub fn rwlock_read_result(code: i32) -> (r: Result<(), RwLockError>)
    ensures
        r == if code == 0 {
            Ok::<(), RwLockError>(())
        } else {
            Err::<(), RwLockError>(RwLockError::ReadLockError(code))
        },
{
    if code == 0 {
        Ok(())
    } else {
        Err(RwLockError::ReadLockError(code))
    }
}

/// Outcome of a non-blocking shared (read) acquisition.
pub fn rwlock_try_read_result(code: i32) -> (r: Result<(), RwLockError>)
    ensures
        r == if code == 0 {
            Ok::<(), RwLockError>(())
        } else {
            Err::<(), RwLockError>(RwLockError::TryReadLockError(code))
        },
{
    if code == 0 {
        Ok(())
    } else {
        Err(RwLockError::TryReadLockError(code))
    }
}

/// Outcome of a blocking exclusive (write) acquisition.
pub fn rwlock_write_result(code: i32) -> (r: Result<(), RwLockError>)
    ensures
        r == if code == 0 {
            Ok::<(), RwLockError>(())
        } else {
            Err::<(), RwLockError>(RwLockError::WriteLockError(code))
        },
{
    if code == 0 {
        Ok(())
    } else {
        Err(RwLockError::WriteLockError(code))
    }
}

/// Outcome of a non-blocking exclusive (write) acquisition.
pub fn rwlock_try_write_result(code: i32) -> (r: Result<(), RwLockError>)
    ensures
        r == if code == 0 {
            Ok::<(), RwLockError>(())
        } else {
            Err::<(), RwLockError>(RwLockError::TryWriteLockError(code))
        },
{
    if code == 0 {
        Ok(())
    } else {
        Err(RwLockError::TryWriteLockError(code))
    }
}

/// Outcome of releasing a read/write lock.
pub fn rwlock_unlock_result(code: i32) -> (r: Result<(), RwLockError>)
    ensures
        r == if code == 0 {
            Ok::<(), RwLockError>(())
        } else {
            Err::<(), RwLockError>(RwLockError::WriteUnlockError(code))
        },
{
    if code == 0 {
        Ok(())
    } else {
        Err(RwLockError::WriteUnlockError(code))
    }
}

} // verus!
