//! Access to data behind `std::sync::RwLock`.
//!
//! What a lock holds is shared with other threads, so nothing is promised of the value that
//! a guard shows. Contracts speak of a guard and a value that the calls can answer with.
//!
//! The lock of a [`LockWriter`] is private to this module, and [`overwrite`] is the one function
//! that takes a write lock. So everything that is ever written goes through it, and it records
//! that.

use std::sync::{Arc, RwLock, RwLockReadGuard};
use vstd::prelude::*;

verus! {

#[verifier::external_type_specification]
#[verifier::external_body]
#[verifier::reject_recursive_types(T)]
pub struct ExRwLock<T: ?Sized>(RwLock<T>);

#[verifier::external_type_specification]
#[verifier::external_body]
#[verifier::reject_recursive_types(T)]
pub struct ExRwLockReadGuard<'a, T: ?Sized>(RwLockReadGuard<'a, T>);

/// Calls `std::sync::RwLock::new`. Nothing is promised of the lock.
#[verifier::external_body]
pub(crate) fn new_lock<T>(value: T) -> (r: RwLock<T>) {
    RwLock::new(value)
}

/// Calls `std::sync::RwLock::read`; `None` stands for a poisoned lock. Which of the two comes
/// back depends on other threads, so nothing is promised.
#[verifier::external_body]
pub(crate) fn read_lock<T>(lock: &RwLock<T>) -> (r: Option<RwLockReadGuard<'_, T>>) {
    lock.read().ok()
}

/// Calls `Deref::deref` of a read guard. The value is what other threads left there, so
/// nothing is promised of it.
#[verifier::external_body]
pub(crate) fn guarded<'a, 'b, T>(guard: &'b RwLockReadGuard<'a, T>) -> (r: &'b T) {
    guard
}

/// A write under the lock: the value, and whether it was written. It is not where the lock is
/// poisoned.
pub struct LockWrite<T> {
    pub value: T,
    pub done: bool,
}

/// What a lock holds that was made to hold `initial`, after these writes.
pub open spec fn held_after<T>(initial: T, writes: Seq<LockWrite<T>>) -> T
    decreases writes.len(),
{
    if writes.len() == 0 {
        initial
    } else if writes.last().done {
        writes.last().value
    } else {
        held_after(initial, writes.drop_last())
    }
}

/// The right to write under one lock, with a record of every write, in order. There is one for
/// each lock that is written at all.
#[verifier::reject_recursive_types(T)]
pub struct LockWriter<T> {
    lock: Arc<RwLock<T>>,
    initial: Ghost<T>,
    writes: Ghost<Seq<LockWrite<T>>>,
}

impl<T> LockWriter<T> {
    /// The lock.
    pub closed spec fn lock(&self) -> RwLock<T> {
        *self.lock
    }

    /// What the lock was made to hold.
    pub closed spec fn initial(&self) -> T {
        self.initial@
    }

    /// The writes that were made.
    pub closed spec fn writes(&self) -> Seq<LockWrite<T>> {
        self.writes@
    }

    /// Makes a lock that holds `value`, to be written with this right.
    pub(crate) fn start(value: T) -> (r: Self)
        ensures
            call_ensures(new_lock::<T>, (value,), r.lock()),
            r.initial() == value,
            r.writes() == Seq::<LockWrite<T>>::empty(),
    {
        let ghost initial = value;
        LockWriter {
            lock: Arc::new(new_lock(value)),
            initial: Ghost(initial),
            writes: Ghost(Seq::empty()),
        }
    }

    /// The lock, to be read.
    pub(crate) fn reader(&self) -> (r: Arc<RwLock<T>>)
        ensures
            *r == self.lock(),
    {
        self.lock.clone()
    }
}

/// Calls `std::sync::RwLock::write`, once, and puts `value` in the place of what the guard gives
/// access to; `false` where the lock is poisoned. The thread must not hold the lock already: no
/// caller keeps a guard.
///
/// Trusted: this one value is written, and no other. Whether it is written depends on the
/// threads that held the lock.
#[verifier::external_body]
pub(crate) fn overwrite<T>(writer: &mut LockWriter<T>, value: T) -> (r: bool)
    ensures
        final(writer).lock() == old(writer).lock(),
        final(writer).initial() == old(writer).initial(),
        final(writer).writes() == old(writer).writes().push(LockWrite { value, done: r }),
{
    match writer.lock.write() {
        Ok(mut guard) => {
            *guard = value;
            true
        },
        Err(_) => false,
    }
}

} // verus!
