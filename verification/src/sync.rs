//! Locks used by the library.
//!
//! Both locks are built on the verified reader-writer lock of `vstd`. A lock is created
//! with an invariant over the values it may hold: every value taken out of it satisfies
//! the invariant, and every value put back must satisfy it.
use vstd::prelude::*;
use vstd::rwlock::{ReadHandle, WriteHandle};

verus! {

/// A mutual-exclusion lock whose contents always satisfy an invariant.
#[verifier::reject_recursive_types(T)]
pub struct Mutex<T> {
    lock: vstd::rwlock::RwLock<T, spec_fn(T) -> bool>,
}

/// Exclusive access to the contents of a [`Mutex`], handed out by [`Mutex::lock`].
///
/// The value itself is moved out of the lock; [`MutexGuard::unlock`] puts a value back.
#[verifier::reject_recursive_types(T)]
pub struct MutexGuard<'a, T> {
    handle: WriteHandle<'a, T, spec_fn(T) -> bool>,
}

impl<T> Mutex<T> {
    /// The invariant that every value in this lock satisfies.
    pub closed spec fn inv(&self) -> spec_fn(T) -> bool {
        self.lock.pred()
    }

    /// Creates a lock holding `val`; any value may be put into it.
    pub fn new(val: T) -> (m: Self)
        ensures
            forall|v: T| #[trigger] (m.inv())(v),
    {
        Mutex::with_invariant(val, Ghost(|v: T| true))
    }

    /// Creates a lock holding `val`, with invariant `inv`.
    pub fn with_invariant(val: T, Ghost(inv): Ghost<spec_fn(T) -> bool>) -> (m: Self)
        requires
            inv(val),
        ensures
            m.inv() == inv,
    {
        Mutex { lock: vstd::rwlock::RwLock::new(val, Ghost(inv)) }
    }

    /// Waits until the lock is free, then takes its value out.
    pub fn lock(&self) -> (res: (T, MutexGuard<'_, T>))
        ensures
            (self.inv())(res.0),
            res.1.inv() == self.inv(),
    {
        let (val, handle) = self.lock.acquire_write();
        (val, MutexGuard { handle })
    }
}

impl<'a, T> MutexGuard<'a, T> {
    /// The invariant of the lock this guard belongs to.
    pub closed spec fn inv(&self) -> spec_fn(T) -> bool {
        self.handle.rwlock().pred()
    }

    /// Puts `val` back into the lock and releases it.
    pub fn unlock(self, val: T)
        requires
            (self.inv())(val),
    {
        self.handle.release_write(val);
    }
}

/// A reader-writer lock whose contents always satisfy an invariant.
///
/// Any number of readers may look at the value at once; a writer takes it out alone.
#[verifier::reject_recursive_types(T)]
pub struct RwLock<T> {
    lock: vstd::rwlock::RwLock<T, spec_fn(T) -> bool>,
}

/// Shared access to the contents of an [`RwLock`], handed out by [`RwLock::read`].
#[verifier::reject_recursive_types(T)]
pub struct ReadGuard<'a, T> {
    handle: ReadHandle<'a, T, spec_fn(T) -> bool>,
}

/// Exclusive access to the contents of an [`RwLock`], handed out by [`RwLock::write`].
#[verifier::reject_recursive_types(T)]
pub struct WriteGuard<'a, T> {
    handle: WriteHandle<'a, T, spec_fn(T) -> bool>,
}

impl<T> RwLock<T> {
    /// The invariant that every value in this lock satisfies.
    pub closed spec fn inv(&self) -> spec_fn(T) -> bool {
        self.lock.pred()
    }

    /// Creates a lock holding `val`; any value may be put into it.
    pub fn new(val: T) -> (l: Self)
        ensures
            forall|v: T| #[trigger] (l.inv())(v),
    {
        RwLock::with_invariant(val, Ghost(|v: T| true))
    }

    /// Creates a lock holding `val`, with invariant `inv`.
    pub fn with_invariant(val: T, Ghost(inv): Ghost<spec_fn(T) -> bool>) -> (l: Self)
        requires
            inv(val),
        ensures
            l.inv() == inv,
    {
        RwLock { lock: vstd::rwlock::RwLock::new(val, Ghost(inv)) }
    }

    /// Waits until no writer holds the lock, then shares its value.
    pub fn read(&self) -> (g: ReadGuard<'_, T>)
        ensures
            (self.inv())(g.value()),
    {
        ReadGuard { handle: self.lock.acquire_read() }
    }

    /// Waits until the lock is free, then takes its value out.
    pub fn write(&self) -> (res: (T, WriteGuard<'_, T>))
        ensures
            (self.inv())(res.0),
            res.1.inv() == self.inv(),
    {
        let (val, handle) = self.lock.acquire_write();
        (val, WriteGuard { handle })
    }
}

impl<'a, T> ReadGuard<'a, T> {
    /// The value shared by this guard.
    pub closed spec fn value(&self) -> T {
        self.handle.view()
    }

    /// A reference to the shared value.
    pub fn get(&self) -> (r: &T)
        ensures
            *r == self.value(),
    {
        self.handle.borrow()
    }

    /// Releases the shared access.
    pub fn release(self) {
        self.handle.release_read();
    }
}

impl<'a, T> WriteGuard<'a, T> {
    /// The invariant of the lock this guard belongs to.
    pub closed spec fn inv(&self) -> spec_fn(T) -> bool {
        self.handle.rwlock().pred()
    }

    /// Puts `val` back into the lock and releases it.
    pub fn unlock(self, val: T)
        requires
            (self.inv())(val),
    {
        self.handle.release_write(val);
    }
}

} // verus!
