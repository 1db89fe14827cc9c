//! Access to a value behind a read-write lock that several threads share.
//!
//! The lock is never waited for. An access is tried once: it succeeds, or
//! it says that the lock is poisoned, or that it is held elsewhere and the
//! access would have had to wait. Whoever wants to wait tries again later.
use vstd::prelude::*;
use std::sync::{Arc, PoisonError, RwLock, RwLockReadGuard, RwLockWriteGuard, TryLockError};

verus! {

/// `std::sync::RwLock`, carried as an opaque value.
#[verifier::external_type_specification]
#[verifier::external_body]
#[verifier::reject_recursive_types(T)]
pub struct ExRwLock<T: ?Sized>(RwLock<T>);

/// `std::sync::RwLockReadGuard`, carried as an opaque value.
#[verifier::external_type_specification]
#[verifier::external_body]
#[verifier::reject_recursive_types(T)]
pub struct ExRwLockReadGuard<'a, T: ?Sized>(RwLockReadGuard<'a, T>);

/// `std::sync::RwLockWriteGuard`, carried as an opaque value.
#[verifier::external_type_specification]
#[verifier::external_body]
#[verifier::reject_recursive_types(T)]
pub struct ExRwLockWriteGuard<'a, T: ?Sized + 'a>(RwLockWriteGuard<'a, T>);

/// `std::sync::PoisonError`, carried as an opaque value.
#[verifier::external_type_specification]
#[verifier::external_body]
#[verifier::reject_recursive_types(T)]
pub struct ExPoisonError<T>(PoisonError<T>);

/// `std::sync::TryLockError`, with its two variants: `Poisoned`, which
/// carries a `PoisonError`, and `WouldBlock`.
#[verifier::external_type_specification]
#[verifier::reject_recursive_types(T)]
pub struct ExTryLockError<T>(TryLockError<T>);

/// Why the shared value could not be reached.
#[derive(Clone, Copy, Debug, PartialEq, Eq, Structural)]
pub enum LockError {
    /// A thread panicked while it held the lock for writing.
    LockPoisoned,
    /// The lock is held elsewhere: the access would have had to wait.
    WouldBlock,
}

/// Calls `RwLock::new`: a lock around `value`. Nothing is claimed of it.
#[verifier::external_body]
fn std_new<T>(value: T) -> RwLock<T> {
    RwLock::new(value)
}

/// Calls `RwLock::try_read`, which does not wait. Nothing is claimed of
/// what it returns.
#[verifier::external_body]
fn std_try_read<'a, T>(lock: &'a RwLock<T>) -> Result<
    RwLockReadGuard<'a, T>,
    TryLockError<RwLockReadGuard<'a, T>>,
> {
    lock.try_read()
}

/// Calls `RwLock::try_write`, which does not wait. Nothing is claimed of
/// what it returns.
#[verifier::external_body]
fn std_try_write<'a, T>(lock: &'a RwLock<T>) -> Result<
    RwLockWriteGuard<'a, T>,
    TryLockError<RwLockWriteGuard<'a, T>>,
> {
    lock.try_write()
}

/// Calls `Deref::deref` of a read guard: the value that the guard protects.
/// Nothing is claimed of it.
#[verifier::external_body]
fn std_deref<'a, 'b, T>(guard: &'a RwLockReadGuard<'b, T>) -> &'a T {
    std::ops::Deref::deref(guard)
}

/// Calls `DerefMut::deref_mut` of a write guard to store `value` in place
/// of the value that the guard protects, and gives the lock up.
#[verifier::external_body]
fn std_store<'a, T>(guard: RwLockWriteGuard<'a, T>, value: T) {
    let mut guard = guard;
    *std::ops::DerefMut::deref_mut(&mut guard) = value;
}

/// A new lock around `value`, behind a handle that can be shared.
pub fn shared<T>(value: T) -> Arc<RwLock<T>> {
    Arc::new(std_new(value))
}

/// Tries once to take `lock` for reading, without waiting.
pub fn try_reading<'a, T>(lock: &'a RwLock<T>) -> Result<
    RwLockReadGuard<'a, T>,
    TryLockError<RwLockReadGuard<'a, T>>,
> {
    std_try_read(lock)
}

/// Tries once to take `lock` for writing, without waiting.
pub fn try_writing<'a, T>(lock: &'a RwLock<T>) -> Result<
    RwLockWriteGuard<'a, T>,
    TryLockError<RwLockWriteGuard<'a, T>>,
> {
    std_try_write(lock)
}

/// The value that a read guard protects.
pub fn guarded<'a, 'b, T>(guard: &'a RwLockReadGuard<'b, T>) -> &'a T {
    std_deref(guard)
}

/// Stores `value` in place of the value that a write guard protects, and
/// gives the lock up.
pub fn store<'a, T>(guard: RwLockWriteGuard<'a, T>, value: T) {
    std_store(guard, value)
}

/// What trying to take a lock comes to: the guard, or why there is none.
pub open spec fn granted_of<G>(taken: Result<G, TryLockError<G>>) -> Result<G, LockError> {
    match taken {
        Ok(guard) => Ok(guard),
        Err(TryLockError::Poisoned(_)) => Err(LockError::LockPoisoned),
        Err(TryLockError::WouldBlock) => Err(LockError::WouldBlock),
    }
}

/// Turns what trying to take a lock returned into the guard, into
/// `LockPoisoned` when the lock was poisoned, or into `WouldBlock` when it
/// is held elsewhere. The guard that a poisoned lock still hands out is
/// dropped, which gives the lock up.
pub fn granted<G>(taken: Result<G, TryLockError<G>>) -> (access: Result<G, LockError>)
    ensures
        access == granted_of(taken),
{
    match taken {
        Ok(guard) => Ok(guard),
        Err(TryLockError::Poisoned(_)) => Err(LockError::LockPoisoned),
        Err(TryLockError::WouldBlock) => Err(LockError::WouldBlock),
    }
}

/// Reading, replacing and borrowing a shared value without spelling out
/// the locking at each place of use.
///
/// No method waits for the lock. Each tries once to take it and fails with
/// `WouldBlock` when it is held elsewhere, also by the calling thread
/// itself, and with `LockPoisoned` when it is poisoned. Which value is
/// behind the lock depends on what the other threads that hold it have
/// done, so no method promises anything about the value itself.
pub trait BrokenRwLock<T> {
    /// A copy of the value as it is at some moment during the call.
    fn get(&self) -> Result<T, LockError>;

    /// Exclusive access to the value, given up when the guard is dropped.
    fn mutable(&self) -> Result<RwLockWriteGuard<'_, T>, LockError>;

    /// Replaces the value as a whole.
    fn set(&self, value: T) -> Result<(), LockError>;
}

impl<T: Clone> BrokenRwLock<T> for RwLock<T> {
    /// Tries once to take the lock for reading. Fails exactly as that try
    /// fails; where it gives a guard, returns a clone of the value that
    /// the guard protects.
    fn get(&self) -> (value: Result<T, LockError>)
        ensures
            exists|taken: Result<RwLockReadGuard<T>, TryLockError<RwLockReadGuard<T>>>|
                #[trigger] call_ensures(try_reading, (self,), taken) && match granted_of(taken) {
                    Ok(guard) => exists|held: &T|
                        #[trigger] call_ensures(guarded, (&guard,), held) && value.is_ok()
                            && cloned(*held, value.unwrap()),
                    Err(refused) => value == Err::<T, LockError>(refused),
                },
    {
        match granted(try_reading(self)) {
            Ok(guard) => {
                let held = guarded(&guard);
                Ok(held.clone())
            },
            Err(refused) => Err(refused),
        }
    }

    /// Tries once to take the lock for writing: the guard, or why that try
    /// gave none.
    fn mutable(&self) -> (access: Result<RwLockWriteGuard<'_, T>, LockError>)
        ensures
            exists|taken: Result<RwLockWriteGuard<T>, TryLockError<RwLockWriteGuard<T>>>|
                #[trigger] call_ensures(try_writing, (self,), taken) && access == granted_of(taken),
    {
        granted(try_writing(self))
    }

    /// Tries once to take the lock for writing. Fails exactly as that try
    /// fails, and `value` is then dropped; where it gives a guard, stores
    /// `value` through the guard and gives the lock up.
    fn set(&self, value: T) -> (done: Result<(), LockError>)
        ensures
            exists|taken: Result<RwLockWriteGuard<T>, TryLockError<RwLockWriteGuard<T>>>|
                #[trigger] call_ensures(try_writing, (self,), taken) && match granted_of(taken) {
                    Ok(guard) => done == Ok::<(), LockError>(()) && call_ensures(
                        store,
                        (guard, value),
                        (),
                    ),
                    Err(refused) => done == Err::<(), LockError>(refused),
                },
    {
        match granted(try_writing(self)) {
            Ok(guard) => {
                store(guard, value);
                Ok(())
            },
            Err(refused) => Err(refused),
        }
    }
}

} // verus!
