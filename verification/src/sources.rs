//! The sources a dynamic signal reads its values from.
//!
//! Reading a source spends a `Permit`, and only sampling a signal makes one, once per
//! sample: a source that reads another one can read it at most once per read of its own.
use vstd::prelude::*;
use std::sync::Arc;
use crate::signal::{
    anything, drain, fold_batch_sample, fold_reachable, fold_sample, fold_values, folds_to, guarded,
    last_of, last_value, latest_sample, law_fold_extend, law_fold_step, lock_rx, Permit, Signal,
};
use crate::sync::Mutex;
use crate::types::Storage;

verus! {

/// Something a dynamic signal reads its values from.
pub trait Source<T>: Send + Sync {
    /// The source can be read: whatever it calls accepts the call.
    spec fn ready(&self) -> bool;

    /// `r` is a value that reading this source can give.
    spec fn produces(&self, r: T) -> bool;

    /// Reads the current value of the source, spending the permit of one read.
    fn pull(&self, permit: Permit) -> (r: T)
        requires
            self.ready(),
        ensures
            self.produces(r);
}

/// A source that calls a closure every time it is read.
pub struct FnSource<F> {
    pub f: F,
}

impl<F> FnSource<F> {
    /// The closure this source calls.
    pub open spec fn func(&self) -> F {
        self.f
    }
}

impl<T, F: Fn() -> T + Send + Sync> Source<T> for FnSource<F> {
    open spec fn ready(&self) -> bool {
        self.f.requires(())
    }

    open spec fn produces(&self, r: T) -> bool {
        self.f.ensures((), r)
    }

    fn pull(&self, permit: Permit) -> (r: T) {
        (self.f)()
    }
}

/// A source that reads another source and applies a function to what it reads.
#[verifier::reject_recursive_types(T)]
pub struct MapSource<T, F> {
    pub parent: Arc<Box<dyn Source<T>>>,
    pub f: F,
}

impl<T, R, F: Fn(T) -> R + Send + Sync> Source<R> for MapSource<T, F> {
    open spec fn ready(&self) -> bool {
        &&& self.parent.ready()
        &&& forall|x: T| self.f.requires((x,))
    }

    open spec fn produces(&self, r: R) -> bool {
        exists|x: T| self.parent.produces(x) && self.f.ensures((x,), r)
    }

    fn pull(&self, permit: Permit) -> (r: R) {
        let x = self.parent.pull(permit);
        (self.f)(x)
    }
}

/// Where a folded signal takes its values from.
#[verifier::reject_recursive_types(T)]
pub enum FoldInput<T> {
    /// A copy of the value of a constant signal.
    Constant(Mutex<T>),
    /// The source of a dynamic signal.
    Dynamic(Arc<Box<dyn Source<T>>>),
}

impl<T: Clone> FoldInput<T> {
    pub open spec fn ready(&self) -> bool {
        match self {
            FoldInput::Constant(_) => true,
            FoldInput::Dynamic(s) => s.ready(),
        }
    }

    pub open spec fn gives(&self, x: T) -> bool {
        match self {
            FoldInput::Constant(m) => exists|v: T| #![trigger (m.inv())(v)] (m.inv())(v) && cloned(v, x),
            FoldInput::Dynamic(s) => s.produces(x),
        }
    }

    pub fn read(&self, permit: Permit) -> (x: T)
        requires
            self.ready(),
        ensures
            self.gives(x),
    {
        match self {
            FoldInput::Constant(m) => {
                let (v, guard) = m.lock();
                let x = v.clone();
                assert(cloned(v, x));
                guard.unlock(v);
                x
            },
            FoldInput::Dynamic(s) => s.pull(permit),
        }
    }
}

/// A source that folds the values of a signal into an accumulator every time it is read.
#[verifier::reject_recursive_types(T)]
#[verifier::reject_recursive_types(A)]
pub struct FoldSource<T, F, A> {
    pub input: FoldInput<T>,
    pub f: F,
    pub storage: Storage<A>,
    pub init: Ghost<A>,
}

impl<T: Clone, F: Fn(A, T) -> A, A: Clone> FoldSource<T, F, A> {
    /// The values this source folds.
    pub open spec fn folded(&self) -> spec_fn(T) -> bool {
        |x: T| self.input.gives(x)
    }
}

impl<T: Clone + Send + Sync, F: Fn(A, T) -> A + Send + Sync, A: Clone + Send + Sync> Source<A> for FoldSource<T, F, A> {
    open spec fn ready(&self) -> bool {
        &&& self.input.ready()
        &&& forall|a: A, x: T| self.f.requires((a, x))
        &&& forall|a: A|
            (self.storage.inv())(a) <==> fold_reachable(self.f, self.init@, self.folded(), a)
    }

    open spec fn produces(&self, r: A) -> bool {
        fold_sample(self.f, self.init@, self.folded(), r)
    }

    fn pull(&self, permit: Permit) -> (r: A) {
        let x = self.input.read(permit);
        let f = &self.f;
        let ghost valid = self.folded();
        let ghost init = self.init@;
        let step = |acc: A| -> (next: A)
            requires
                f.requires((acc, x)),
            ensures
                f.ensures((acc, x), next),
        { f(acc, x) };
        assert forall|v: A, w: A| (self.storage.inv())(v) && step.ensures((v,), w) implies (
        self.storage.inv())(w) by {
            law_fold_step(*f, init, valid, v, x, w);
        }
        let r = self.storage.replace_fetch(step);
        let ghost (prev, a) = choose|prev: A, a: A|
            (self.storage.inv())(prev) && step.ensures((prev,), a) && cloned(a, r);
        assert(fold_reachable(self.f, self.init@, self.folded(), prev));
        assert(f.ensures((prev, x), a));
        assert(self.folded()(x));
        r
    }
}

/// Which layer of a nested signal a switched signal reads.
#[verifier::reject_recursive_types(T)]
pub enum SwitchLayer<T> {
    /// The constant outer signal held this inner source.
    Inner(Arc<Box<dyn Source<T>>>),
    /// The outer source gives a signal to sample on every read.
    Outer(Arc<Box<dyn Source<Signal<T>>>>),
}

/// A source that reads the current inner signal of a nested signal.
#[verifier::reject_recursive_types(T)]
pub struct Switched<T> {
    pub layer: SwitchLayer<T>,
}

impl<T: Clone> Source<T> for Switched<T> {
    open spec fn ready(&self) -> bool {
        match self.layer {
            SwitchLayer::Inner(s) => s.ready(),
            SwitchLayer::Outer(s) => s.ready(),
        }
    }

    open spec fn produces(&self, r: T) -> bool {
        match self.layer {
            SwitchLayer::Inner(s) => s.produces(r),
            SwitchLayer::Outer(s) => exists|sig: Signal<T>|
                #![trigger s.produces(sig)]
                s.produces(sig) && sig.samples(r),
        }
    }

    fn pull(&self, permit: Permit) -> (r: T) {
        match &self.layer {
            SwitchLayer::Inner(s) => s.pull(permit),
            SwitchLayer::Outer(s) => {
                let sig = s.pull(permit);
                let r = sig.sample();
                assert(s.produces(sig) && sig.samples(r));
                r
            },
        }
    }
}

/// A source that reads a shared storage cell, keeping another value alive meanwhile.
#[verifier::reject_recursive_types(T)]
pub struct StorageSource<T, K> {
    pub storage: Arc<Storage<T>>,
    pub keepalive: K,
}

impl<T: Clone + Send + Sync, K: Send + Sync> Source<T> for StorageSource<T, K> {
    open spec fn ready(&self) -> bool {
        true
    }

    open spec fn produces(&self, r: T) -> bool {
        exists|v: T| #![trigger (self.storage.inv())(v)] (self.storage.inv())(v) && cloned(v, r)
    }

    fn pull(&self, permit: Permit) -> (r: T) {
        self.storage.get()
    }
}

/// A source that folds everything waiting in a channel into an accumulator when read.
#[verifier::reject_recursive_types(T)]
#[verifier::reject_recursive_types(V)]
pub struct ChannelFold<T, V, F> {
    pub rx: std::sync::Mutex<std::sync::mpsc::Receiver<V>>,
    pub storage: Storage<T>,
    pub f: F,
    pub init: Ghost<T>,
}

impl<T: Clone + Send + Sync, V: Send, F: Fn(T, V) -> T + Send + Sync> Source<T> for ChannelFold<T, V, F> {
    open spec fn ready(&self) -> bool {
        &&& forall|a: T, v: V| self.f.requires((a, v))
        &&& forall|a: T|
            (self.storage.inv())(a) <==> fold_reachable(self.f, self.init@, anything(), a)
    }

    open spec fn produces(&self, r: T) -> bool {
        fold_batch_sample(self.f, self.init@, r)
    }

    fn pull(&self, permit: Permit) -> (r: T) {
        let rx = lock_rx(&self.rx);
        let vals = drain(guarded(&rx));
        let ghost xs = vals@;
        let f = &self.f;
        let ghost init = self.init@;
        let step = |old: T| -> (new: T)
            requires
                forall|a: T, v: V| f.requires((a, v)),
            ensures
                folds_to(*f, old, xs, new),
        { fold_values(f, old, vals) };
        assert forall|v: T, w: T| (self.storage.inv())(v) && step.ensures((v,), w) implies (
        self.storage.inv())(w) by {
            law_fold_extend(*f, init, anything(), v, xs, w);
        }
        let r = self.storage.replace_fetch(step);
        let ghost (prev, a) = choose|prev: T, a: T|
            (self.storage.inv())(prev) && step.ensures((prev,), a) && cloned(a, r);
        assert(fold_reachable(self.f, self.init@, anything(), prev));
        assert(folds_to(self.f, prev, xs, a));
        r
    }
}

/// A source that keeps the last value that arrived on a channel.
#[verifier::reject_recursive_types(T)]
pub struct ChannelLatest<T> {
    pub rx: std::sync::Mutex<std::sync::mpsc::Receiver<T>>,
    pub storage: Storage<T>,
}

impl<T: Clone + Send + Sync> Source<T> for ChannelLatest<T> {
    open spec fn ready(&self) -> bool {
        forall|a: T| #[trigger] (self.storage.inv())(a)
    }

    open spec fn produces(&self, r: T) -> bool {
        latest_sample(r)
    }

    fn pull(&self, permit: Permit) -> (r: T) {
        let rx = lock_rx(&self.rx);
        let vals = drain(guarded(&rx));
        let ghost xs = vals@;
        let step = |old: T| -> (new: T)
            ensures
                new == last_of(old, xs),
        { last_value(old, vals) };
        let r = self.storage.replace_fetch(step);
        let ghost (prev, a) = choose|prev: T, a: T|
            (self.storage.inv())(prev) && step.ensures((prev,), a) && cloned(a, r);
        assert(a == last_of(prev, xs) && cloned(a, r));
        r
    }
}

} // verus!
