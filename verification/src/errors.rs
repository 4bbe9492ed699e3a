//! Error taxonomy of the process-shared synchronization primitives.
//!
//! Every fallible lock operation reports the originating OS return code in
//! its variant; the ring buffer adds two conditions of its own ("empty" and
//! "attach failed due to an invalid pointer") to the read/write-lock errors.

use vstd::prelude::*;

verus! {

/// Failure of an operation on a process-shared mutex, carrying the OS
/// return code that caused it.
#[derive(Debug, Clone, Copy, PartialEq, Eq, Structural)]
pub enum MutexLockError {
    /// Attribute setup or mutex initialization failed.
    InitError(i32),
    /// A blocking lock acquisition failed.
    LockError(i32),
    /// A non-blocking lock acquisition failed (the lock was held, or worse).
    TryLockError(i32),
    /// Releasing the mutex failed.
    UnlockError(i32),
    /// A timed lock acquisition gave up or failed.
    TimeoutError(i32),
}

/// Failure of an operation on a process-shared read/write lock, split by
/// read and write direction, plus the ring buffer's two conditions.
#[derive(Debug, Clone, Copy, PartialEq, Eq, Structural)]
pub enum RwLockError {
    /// Attribute setup or lock initialization failed.
    InitError(i32),
    /// A blocking shared (read) acquisition failed.
    ReadLockError(i32),
    /// A non-blocking shared (read) acquisition failed.
    TryReadLockError(i32),
    /// A blocking exclusive (write) acquisition failed.
    WriteLockError(i32),
    /// A non-blocking exclusive (write) acquisition failed.
    TryWriteLockError(i32),
    /// Releasing a shared (read) hold failed.
    ReadUnlockError(i32),
    /// Releasing an exclusive (write) hold failed.
    WriteUnlockError(i32),
    /// Attaching to an already-initialized region computed an invalid
    /// pointer.
    IntoError,
    /// The consumer's cursor has caught up with the write sequence: nothing
    /// new to read.
    Empty,
}

impl MutexLockError {
    /// The OS return code carried by this error, if any.
    pub fn code(&self) -> (c: i32)
        ensures
            c == self.code_spec(),
    {
        match self {
            MutexLockError::InitError(c) => *c,
            MutexLockError::LockError(c) => *c,
            MutexLockError::TryLockError(c) => *c,
            MutexLockError::UnlockError(c) => *c,
            MutexLockError::TimeoutError(c) => *c,
        }
    }

    /// The OS return code carried by each variant.
    pub open spec fn code_spec(&self) -> i32 {
        match self {
            MutexLockError::InitError(c) => *c,
            MutexLockError::LockError(c) => *c,
            MutexLockError::TryLockError(c) => *c,
            MutexLockError::UnlockError(c) => *c,
            MutexLockError::TimeoutError(c) => *c,
        }
    }
}

impl RwLockError {
    /// The OS return code carried by this error; `0` for the two conditions
    /// that no OS call produced (`IntoError`, `Empty`).
    pub fn code(&self) -> (c: i32)
        ensures
            c == self.code_spec(),
    {
        match self {
            RwLockError::InitError(c) => *c,
            RwLockError::ReadLockError(c) => *c,
            RwLockError::TryReadLockError(c) => *c,
            RwLockError::WriteLockError(c) => *c,
            RwLockError::TryWriteLockError(c) => *c,
            RwLockError::ReadUnlockError(c) => *c,
            RwLockError::WriteUnlockError(c) => *c,
            RwLockError::IntoError => 0,
            RwLockError::Empty => 0,
        }
    }

    /// The OS return code carried by each variant.
    pub open spec fn code_spec(&self) -> i32 {
        match self {
            RwLockError::InitError(c) => *c,
            RwLockError::ReadLockError(c) => *c,
            RwLockError::TryReadLockError(c) => *c,
            RwLockError::WriteLockError(c) => *c,
            RwLockError::TryWriteLockError(c) => *c,
            RwLockError::ReadUnlockError(c) => *c,
            RwLockError::WriteUnlockError(c) => *c,
            RwLockError::IntoError => 0,
            RwLockError::Empty => 0,
        }
    }
}

} // verus!
