//! Spin-wait mutual exclusion.
//!
//! The lock keeps the protected value together with an invariant fixed when
//! the lock is made. Acquiring spins until the lock is observed free and then
//! hands out the value with a guard; releasing the guard stores the value back
//! and frees the lock. While a guard is held no other caller can acquire, so
//! the value is only ever touched by its one holder.
use vstd::prelude::*;
use vstd::rwlock::{RwLock, WriteHandle};

verus! {

/// A spin-wait lock around a value of type `T`.
#[verifier::reject_recursive_types(T)]
pub struct Spinlock<T> {
    inner: RwLock<T, spec_fn(T) -> bool>,
}

/// Exclusive access to the value of a [`Spinlock`], until `release`. The
/// lock is freed by `release` only: a guard that is dropped instead keeps it
/// held.
#[verifier::reject_recursive_types(T)]
pub struct SpinlockGuard<'a, T> {
    value: T,
    handle: WriteHandle<'a, T, spec_fn(T) -> bool>,
}

impl<T> Spinlock<T> {
    /// What every value stored in the lock satisfies.
    pub closed spec fn guarded(&self) -> spec_fn(T) -> bool {
        self.inner.pred()
    }

    /// A free lock holding `data`, with no constraint on the values it holds.
    pub fn new(data: T) -> (r: Self)
        ensures
            r.guarded() == (|v: T| true),
    {
        Spinlock { inner: RwLock::new(data, Ghost(|v: T| true)) }
    }

    /// A free lock holding `data`; every value stored in it must satisfy `inv`.
    pub fn with_invariant(data: T, Ghost(inv): Ghost<spec_fn(T) -> bool>) -> (r: Self)
        requires
            inv(data),
        ensures
            r.guarded() == inv,
    {
        Spinlock { inner: RwLock::new(data, Ghost(inv)) }
    }

    /// Spins until the lock is free, takes it, and returns the guard that
    /// holds the protected value.
    pub fn lock(&self) -> (g: SpinlockGuard<'_, T>)
        ensures
            g.guarded() == self.guarded(),
            (self.guarded())(g@),
    {
        let (value, handle) = self.inner.acquire_write();
        SpinlockGuard { value, handle }
    }
}

impl<'a, T> SpinlockGuard<'a, T> {
    /// The value as the holder currently has it.
    pub closed spec fn view(&self) -> T {
        self.value
    }

    /// The invariant of the lock this guard belongs to.
    pub closed spec fn guarded(&self) -> spec_fn(T) -> bool {
        self.handle.rwlock().pred()
    }

    pub fn get(&self) -> (r: &T)
        ensures
            *r == self@,
    {
        &self.value
    }

    pub fn get_mut(&mut self) -> (r: &mut T)
        ensures
            *r == old(self)@,
            final(self)@ == *final(r),
            final(self).guarded() == old(self).guarded(),
    {
        &mut self.value
    }

    /// Stores the value back and frees the lock.
    pub fn release(self)
        requires
            (self.guarded())(self@),
    {
        self.handle.release_write(self.value);
    }
}

} // verus!
