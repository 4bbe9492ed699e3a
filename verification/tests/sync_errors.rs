use zenrc::errors::{MutexLockError, RwLockError};
use zenrc::sync::{
    lock_deadline, mutex_init_result, mutex_lock_result, mutex_timed_lock_result,
    mutex_try_lock_result, mutex_unlock_result, rwlock_init_result, rwlock_read_result,
    rwlock_try_read_result, rwlock_try_write_result, rwlock_unlock_result, rwlock_write_result,
};

#[test]
fn zero_means_success() {
    assert_eq!(mutex_init_result(0), Ok(()));
    assert_eq!(mutex_lock_result(0), Ok(()));
    assert_eq!(mutex_try_lock_result(0), Ok(()));
    assert_eq!(mutex_timed_lock_result(0), Ok(()));
    assert_eq!(mutex_unlock_result(0), Ok(()));
    assert_eq!(rwlock_init_result(0), Ok(()));
    assert_eq!(rwlock_read_result(0), Ok(()));
    assert_eq!(rwlock_try_read_result(0), Ok(()));
    assert_eq!(rwlock_write_result(0), Ok(()));
    assert_eq!(rwlock_try_write_result(0), Ok(()));
    assert_eq!(rwlock_unlock_result(0), Ok(()));
}

#[test]
fn nonzero_codes_map_to_their_operation() {
    assert_eq!(mutex_init_result(22), Err(MutexLockError::InitError(22)));
    assert_eq!(mutex_lock_result(35), Err(MutexLockError::LockError(35)));
    assert_eq!(mutex_try_lock_result(16), Err(MutexLockError::TryLockError(16)));
    assert_eq!(mutex_timed_lock_result(110), Err(MutexLockError::TimeoutError(110)));
    assert_eq!(mutex_unlock_result(1), Err(MutexLockError::UnlockError(1)));
    assert_eq!(rwlock_init_result(22), Err(RwLockError::InitError(22)));
    assert_eq!(rwlock_read_result(11), Err(RwLockError::ReadLockError(11)));
    assert_eq!(rwlock_try_read_result(16), Err(RwLockError::TryReadLockError(16)));
    assert_eq!(rwlock_write_result(35), Err(RwLockError::WriteLockError(35)));
    assert_eq!(rwlock_try_write_result(16), Err(RwLockError::TryWriteLockError(16)));
    assert_eq!(rwlock_unlock_result(1), Err(RwLockError::WriteUnlockError(1)));
}

#[test]
fn error_codes_are_carried() {
    assert_eq!(MutexLockError::InitError(7).code(), 7);
    assert_eq!(MutexLockError::TimeoutError(110).code(), 110);
    assert_eq!(RwLockError::WriteLockError(35).code(), 35);
    assert_eq!(RwLockError::Empty.code(), 0);
    assert_eq!(RwLockError::IntoError.code(), 0);
}

#[test]
fn deadline_without_carry() {
    assert_eq!(lock_deadline(100, 500, 3, 250), (103, 750));
}

#[test]
fn deadline_with_nanosecond_carry() {
    assert_eq!(lock_deadline(10, 999_999_999, 0, 1), (11, 0));
    assert_eq!(lock_deadline(10, 600_000_000, 2, 700_000_000), (13, 300_000_000));
}
