use broken::lock::{granted, guarded, shared, store, try_reading, try_writing, BrokenRwLock, LockError};
use std::sync::{Arc, PoisonError, RwLock, TryLockError};

#[test]
fn get_returns_a_copy_of_the_value() {
    let lock = RwLock::new(vec![1, 2, 3]);
    let mut copy = lock.get().unwrap();
    copy.push(4);
    assert_eq!(lock.get(), Ok(vec![1, 2, 3]));
}

#[test]
fn set_replaces_the_value() {
    let lock = RwLock::new(String::from("old"));
    assert_eq!(lock.set(String::from("new")), Ok(()));
    assert_eq!(lock.get(), Ok(String::from("new")));
}

#[test]
fn mutable_gives_access_until_the_guard_is_dropped() {
    let lock = RwLock::new(10);
    {
        let mut guard = lock.mutable().unwrap();
        *guard += 5;
        assert!(lock.try_read().is_err());
    }
    assert_eq!(lock.get(), Ok(15));
    assert_eq!(lock.set(1), Ok(()));
}

#[test]
fn a_lock_held_for_writing_is_not_waited_for() {
    let lock = RwLock::new(10);
    let guard = lock.mutable().unwrap();
    assert_eq!(lock.get(), Err(LockError::WouldBlock));
    assert_eq!(lock.set(3), Err(LockError::WouldBlock));
    assert!(matches!(lock.mutable(), Err(LockError::WouldBlock)));
    drop(guard);
    assert_eq!(lock.get(), Ok(10));
}

#[test]
fn a_lock_held_for_reading_can_be_read_but_not_written() {
    let lock = RwLock::new(10);
    let reader = lock.read().unwrap();
    assert_eq!(lock.get(), Ok(10));
    assert_eq!(lock.set(3), Err(LockError::WouldBlock));
    assert!(matches!(lock.mutable(), Err(LockError::WouldBlock)));
    drop(reader);
    assert_eq!(lock.set(3), Ok(()));
    assert_eq!(lock.get(), Ok(3));
}

#[test]
fn a_pair_written_whole_is_read_whole() {
    let lock = RwLock::new((0u64, 0u64));
    for round in 1..=100u64 {
        lock.set((round, round)).unwrap();
        let (left, right) = lock.get().unwrap();
        assert_eq!(left, round);
        assert_eq!(right, round);
    }
}

#[test]
fn a_poisoned_lock_is_reported_as_such() {
    let taken: Result<u8, TryLockError<u8>> = Err(TryLockError::Poisoned(PoisonError::new(7)));
    assert_eq!(granted(taken), Err(LockError::LockPoisoned));
}

#[test]
fn a_lock_held_elsewhere_is_reported_as_such() {
    let taken: Result<u8, TryLockError<u8>> = Err(TryLockError::WouldBlock);
    assert_eq!(granted(taken), Err(LockError::WouldBlock));
    let lock = RwLock::new(1);
    let guard = lock.write().unwrap();
    assert!(matches!(granted(try_reading(&lock)), Err(LockError::WouldBlock)));
    assert!(matches!(granted(try_writing(&lock)), Err(LockError::WouldBlock)));
    drop(guard);
}

#[test]
fn a_sound_lock_grants_the_guard() {
    let lock = RwLock::new(5);
    let guard = granted(lock.try_write()).unwrap();
    assert_eq!(*guard, 5);
    let taken: Result<&str, TryLockError<&str>> = Ok("guard");
    assert_eq!(granted(taken), Ok("guard"));
}

#[test]
fn the_steps_of_an_access_work_on_their_own() {
    let lock: Arc<RwLock<u32>> = shared(8);
    {
        let reader = granted(try_reading(&lock)).unwrap();
        assert_eq!(*guarded(&reader), 8);
    }
    let writer = granted(try_writing(&lock)).unwrap();
    store(writer, 9);
    assert_eq!(lock.get(), Ok(9));
    assert_eq!(Arc::strong_count(&lock), 1);
}
