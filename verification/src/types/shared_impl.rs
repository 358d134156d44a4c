//! Signals that keep their value in shared storage.
use vstd::prelude::*;
use crate::sync::Mutex;
use crate::types::Storage;
use crate::signal::try_recv;
use std::sync::mpsc::Receiver;
use std::sync::Arc;

verus! {

/// Defines a signal that contains shared storage.
pub trait SharedSignal<T> {
    /// The storage cell of this signal.
    spec fn cell(&self) -> Storage<T>;

    /// The signal can be sampled: the functions it calls accept what they are given, and
    /// what they compute is allowed in its storage.
    spec fn ready(&self) -> bool;

    /// Obtains the internal storage.
    fn get_storage(&self) -> (s: &Storage<T>)
        ensures
            *s == self.cell();

    /// Samples the signal, updating its storage, and gives the storage.
    fn sample(&self) -> (s: &Storage<T>)
        requires
            self.ready(),
        ensures
            *s == self.cell();
}

/// Common template for shared signal implementations.
#[verifier::reject_recursive_types(T)]
pub struct SharedImpl<T, S, F> {
    /// Where the value of the signal is kept.
    pub storage: Storage<T>,
    /// What the signal takes its values from.
    pub source: S,
    /// How the values are computed.
    pub f: F,
}

impl<T, S, F> SharedImpl<T, S, F> {
    /// Moves the signal behind an `Arc` so that it can be shared.
    pub fn wrap(self) -> (a: Arc<Self>)
        ensures
            *a == self,
    {
        Arc::new(self)
    }
}

impl<T, S, F> std::ops::Deref for SharedImpl<T, S, F> {
    type Target = Storage<T>;

    fn deref(&self) -> (s: &Storage<T>)
        ensures
            *s == self.storage,
    {
        &self.storage
    }
}

impl<T, S> SharedImpl<T, S, ()> {
    /// A signal that contains only storage, holding `initial`.
    pub fn new(initial: T, source: S) -> (s: Self)
        ensures
            s.source == source,
            forall|v: T| #[trigger] (s.storage.inv())(v),
    {
        SharedImpl { storage: Storage::new(initial), source, f: () }
    }
}

impl<T, S> SharedSignal<T> for SharedImpl<T, S, ()> {
    open spec fn cell(&self) -> Storage<T> {
        self.storage
    }

    open spec fn ready(&self) -> bool {
        true
    }

    fn get_storage(&self) -> (s: &Storage<T>) {
        &self.storage
    }

    fn sample(&self) -> (s: &Storage<T>) {
        &self.storage
    }
}

/// A signal that maps a parent shared signal.
impl<T, P: Clone, S, G, F: Fn(P) -> T> SharedSignal<T> for SharedImpl<T, Arc<SharedImpl<P, S, G>>, F>
    where
        SharedImpl<P, S, G>: SharedSignal<P>,
{
    open spec fn cell(&self) -> Storage<T> {
        self.storage
    }

    open spec fn ready(&self) -> bool {
        &&& self.source.ready()
        &&& forall|p: P| #[trigger] self.f.requires((p,))
        &&& forall|p: P, t: T| #[trigger] self.f.ensures((p,), t) ==> (self.storage.inv())(t)
    }

    fn get_storage(&self) -> (s: &Storage<T>) {
        &self.storage
    }

    fn sample(&self) -> (s: &Storage<T>) {
        let p = self.source.sample().get();
        let res = (self.f)(p);
        self.storage.set(res);
        &self.storage
    }
}

/// A signal that folds a channel.
impl<T, S, F: Fn(T, S) -> T> SharedSignal<T> for SharedImpl<T, Mutex<Receiver<S>>, F> {
    open spec fn cell(&self) -> Storage<T> {
        self.storage
    }

    open spec fn ready(&self) -> bool {
        &&& forall|a: T, v: S| #[trigger] self.f.requires((a, v))
        &&& forall|a: T, v: S, t: T|
            (self.storage.inv())(a) && #[trigger] self.f.ensures((a, v), t) ==> (
            self.storage.inv())(t)
    }

    fn get_storage(&self) -> (s: &Storage<T>) {
        &self.storage
    }

    fn sample(&self) -> (s: &Storage<T>) {
        let (rx, guard) = self.source.lock();
        if let Some(first) = try_recv(&rx) {
            let f = &self.f;
            let ghost inv = self.storage.inv();
            let rxr = &rx;
            let step = |old: T| -> (new: T)
                requires
                    forall|a: T, v: S| #[trigger] f.requires((a, v)),
                    forall|a: T, v: S, t: T| inv(a) && #[trigger] f.ensures((a, v), t) ==> inv(t),
                ensures
                    inv(old) ==> inv(new),
            {
                let mut acc = f(old, first);
                let mut n: usize = 0;
                loop
                    invariant
                        forall|a: T, v: S| #[trigger] f.requires((a, v)),
                        forall|a: T, v: S, t: T| inv(a) && #[trigger] f.ensures((a, v), t) ==> inv(t),
                        inv(old) ==> inv(acc),
                    decreases usize::MAX - n,
                {
                    if n == usize::MAX {
                        break;
                    }
                    match try_recv(rxr) {
                        Some(v) => {
                            acc = f(acc, v);
                            n = n + 1;
                        },
                        None => {
                            break;
                        },
                    }
                }
                acc
            };
            self.storage.replace(step);
        }
        guard.unlock(rx);
        &self.storage
    }
}

} // verus!
