//! Signals are values that discretely change over time.
//!
//! A signal is either a constant, or reads its values from a source: a closure, a
//! storage cell, a channel, or another signal transformed by `map`, `fold` or `switch`.
//! Each source states, through [`Source::produces`], every value that reading it can
//! give; the operations on signals state how those sets of values are related.
use vstd::prelude::*;
use std::sync::Arc;
use crate::sync::Mutex;
use crate::types::Storage;
pub use crate::sources::{
    ChannelFold, ChannelLatest, FnSource, FoldInput, FoldSource, MapSource, Source, StorageSource,
    SwitchLayer, Switched,
};

verus! {

/// The right to read a source once. Only `Signal::sample` makes one, for the single read
/// of the signal's source that each sample does; reading a source spends it.
pub struct Permit {
    once: (),
}

/// The values that are clones of `c`.
pub open spec fn clones_of<T: Clone>(c: T) -> spec_fn(T) -> bool {
    |x: T| cloned(c, x)
}

/// `acc` is what folding `f` over `xs`, from the first element on, makes of `init`.
pub open spec fn folds_to<A, T, F: Fn(A, T) -> A>(f: F, init: A, xs: Seq<T>, acc: A) -> bool
    decreases xs.len(),
{
    if xs.len() == 0 {
        acc == init
    } else {
        exists|prev: A|
            #![trigger f.ensures((prev, xs.last()), acc)]
            folds_to(f, init, xs.drop_last(), prev) && f.ensures((prev, xs.last()), acc)
    }
}

/// `acc` is what folding `f` over some finite sequence of values that satisfy `valid`
/// makes of `init`.
pub open spec fn fold_reachable<A, T, F: Fn(A, T) -> A>(
    f: F,
    init: A,
    valid: spec_fn(T) -> bool,
    acc: A,
) -> bool {
    exists|xs: Seq<T>|
        #![trigger folds_to(f, init, xs, acc)]
        folds_to(f, init, xs, acc) && forall|i: int| 0 <= i < xs.len() ==> valid(#[trigger] xs[i])
}

/// `r` is what a sample of a fold gives: a clone of `f(prev, x)`, where `prev` is a
/// reachable accumulator and `x` a valid value, the one read for this sample.
pub open spec fn fold_sample<A: Clone, T, F: Fn(A, T) -> A>(
    f: F,
    init: A,
    valid: spec_fn(T) -> bool,
    r: A,
) -> bool {
    exists|prev: A, x: T, a: A|
        #![trigger fold_reachable(f, init, valid, prev), f.ensures((prev, x), a)]
        fold_reachable(f, init, valid, prev) && valid(x) && f.ensures((prev, x), a) && cloned(
            a,
            r,
        )
}

/// Folding one more valid value into a reachable accumulator gives a reachable one.
pub proof fn law_fold_step<A, T, F: Fn(A, T) -> A>(
    f: F,
    init: A,
    valid: spec_fn(T) -> bool,
    acc: A,
    x: T,
    next: A,
)
    requires
        fold_reachable(f, init, valid, acc),
        valid(x),
        f.ensures((acc, x), next),
    ensures
        fold_reachable(f, init, valid, next),
{
    let xs = choose|xs: Seq<T>|
        #![trigger folds_to(f, init, xs, acc)]
        folds_to(f, init, xs, acc) && forall|i: int| 0 <= i < xs.len() ==> valid(#[trigger] xs[i]);
    let ys = xs.push(x);
    assert(ys.drop_last() =~= xs);
    assert(ys.last() == x);
    assert(f.ensures((acc, ys.last()), next));
    assert(folds_to(f, init, ys, next));
    assert forall|i: int| 0 <= i < ys.len() implies valid(#[trigger] ys[i]) by {
        if i < xs.len() {
            assert(ys[i] == xs[i]);
        }
    }
}

/// A receiver of a standard channel.
#[verifier::external_type_specification]
#[verifier::external_body]
#[verifier::reject_recursive_types(T)]
pub struct ExReceiver<T>(std::sync::mpsc::Receiver<T>);

/// A standard mutex, which shares a receiver between threads.
#[verifier::external_type_specification]
#[verifier::external_body]
#[verifier::reject_recursive_types(T)]
pub struct ExStdMutex<T: ?Sized>(std::sync::Mutex<T>);

/// The guard of a locked standard mutex.
#[verifier::external_type_specification]
#[verifier::external_body]
#[verifier::reject_recursive_types(T)]
pub struct ExStdMutexGuard<'a, T: ?Sized + 'a>(std::sync::MutexGuard<'a, T>);

/// Puts a receiver behind a standard mutex.
///
/// Calls `std::sync::Mutex::new`; nothing is stated of the result.
#[verifier::external_body]
pub(crate) fn rx_lock<V>(rx: std::sync::mpsc::Receiver<V>) -> std::sync::Mutex<std::sync::mpsc::Receiver<V>> {
    std::sync::Mutex::new(rx)
}

/// Locks a receiver's mutex, waiting for other holders.
///
/// Calls `std::sync::Mutex::lock`; a mutex poisoned by a panic elsewhere is taken over
/// as it is rather than panicking. Nothing is stated of the guard.
#[verifier::external_body]
pub(crate) fn lock_rx<'a, V>(
    m: &'a std::sync::Mutex<std::sync::mpsc::Receiver<V>>,
) -> std::sync::MutexGuard<'a, std::sync::mpsc::Receiver<V>> {
    match m.lock() {
        Ok(g) => g,
        Err(e) => e.into_inner(),
    }
}

/// The receiver behind a guard.
///
/// Calls `Deref::deref` of `std::sync::MutexGuard`; nothing is stated of the result.
#[verifier::external_body]
pub(crate) fn guarded<'a, V>(g: &'a std::sync::MutexGuard<'_, std::sync::mpsc::Receiver<V>>) -> &'a std::sync::mpsc::Receiver<V> {
    &**g
}

/// Takes a value out of a channel without waiting, `None` when there is none now.
///
/// Calls `std::sync::mpsc::Receiver::try_recv`. What it gives depends on the other
/// threads, so nothing is stated about it.
#[verifier::external_body]
pub(crate) fn try_recv<V>(rx: &std::sync::mpsc::Receiver<V>) -> Option<V> {
    match rx.try_recv() {
        Ok(v) => Some(v),
        Err(_) => None,
    }
}

/// Any value at all.
pub open spec fn anything<V>() -> spec_fn(V) -> bool {
    |v: V| true
}

/// `r` is what a sample of a channel fold gives: a clone of what folding `f` over the
/// values just received makes of a reachable accumulator.
pub open spec fn fold_batch_sample<T: Clone, V, F: Fn(T, V) -> T>(f: F, init: T, r: T) -> bool {
    exists|prev: T, xs: Seq<V>, a: T|
        #![trigger fold_reachable(f, init, anything(), prev), folds_to(f, prev, xs, a)]
        fold_reachable(f, init, anything(), prev) && folds_to(f, prev, xs, a) && cloned(a, r)
}

/// Folding a further sequence of valid values into a reachable accumulator gives a
/// reachable one.
pub proof fn law_fold_extend<A, T, F: Fn(A, T) -> A>(
    f: F,
    init: A,
    valid: spec_fn(T) -> bool,
    acc: A,
    xs: Seq<T>,
    next: A,
)
    requires
        fold_reachable(f, init, valid, acc),
        folds_to(f, acc, xs, next),
        forall|i: int| 0 <= i < xs.len() ==> valid(#[trigger] xs[i]),
    ensures
        fold_reachable(f, init, valid, next),
    decreases xs.len(),
{
    if xs.len() > 0 {
        let prev = choose|prev: A|
            #![trigger f.ensures((prev, xs.last()), next)]
            folds_to(f, acc, xs.drop_last(), prev) && f.ensures((prev, xs.last()), next);
        assert forall|i: int| 0 <= i < xs.drop_last().len() implies valid(
            #[trigger] xs.drop_last()[i],
        ) by {
            assert(xs.drop_last()[i] == xs[i]);
        }
        law_fold_extend(f, init, valid, acc, xs.drop_last(), prev);
        assert(valid(xs[xs.len() - 1]));
        law_fold_step(f, init, valid, prev, xs.last(), next);
    }
}

/// Folding `f` over one more value extends the fold.
proof fn lemma_folds_to_push<A, T, F: Fn(A, T) -> A>(
    f: F,
    init: A,
    xs: Seq<T>,
    acc: A,
    x: T,
    next: A,
)
    requires
        folds_to(f, init, xs, acc),
        f.ensures((acc, x), next),
    ensures
        folds_to(f, init, xs.push(x), next),
{
    let ys = xs.push(x);
    assert(ys.drop_last() =~= xs);
    assert(ys.last() == x);
}

/// Folds `f` over `vals`, in order, starting from `acc`.
pub fn fold_values<T, V, F: Fn(T, V) -> T>(f: &F, acc: T, vals: Vec<V>) -> (r: T)
    requires
        forall|a: T, v: V| f.requires((a, v)),
    ensures
        folds_to(*f, acc, vals@, r),
{
    let ghost all = vals@;
    let ghost start = acc;
    assert(all.len() == vals.len());
    let mut vals = vals;
    let mut acc = acc;
    let mut i: usize = 0;
    assert(all.take(0) =~= Seq::<V>::empty());
    while vals.len() > 0
        invariant
            forall|a: T, v: V| f.requires((a, v)),
            0 <= i <= all.len(),
            all.len() <= usize::MAX,
            vals@ == all.skip(i as int),
            folds_to(*f, start, all.take(i as int), acc),
        decreases vals.len(),
    {
        let v = vals.remove(0);
        assert(v == all[i as int]);
        let next = f(acc, v);
        proof {
            lemma_folds_to_push(*f, start, all.take(i as int), acc, v, next);
            assert(all.take(i as int).push(v) =~= all.take(i + 1));
            assert(vals@ =~= all.skip(i + 1));
        }
        acc = next;
        i = i + 1;
    }
    assert(all.take(i as int) =~= all);
    acc
}

/// The last of `vals`, or `acc` when there is none.
pub open spec fn last_of<T>(acc: T, vals: Seq<T>) -> T {
    if vals.len() == 0 {
        acc
    } else {
        vals.last()
    }
}

/// The last of `vals`, or `acc` when there is none.
pub fn last_value<T>(acc: T, vals: Vec<T>) -> (r: T)
    ensures
        r == last_of(acc, vals@),
{
    let mut vals = vals;
    match vals.pop() {
        Some(v) => v,
        None => acc,
    }
}

/// Takes every value waiting in a channel, in the order they were sent.
///
/// What there is depends on the other threads; at most `usize::MAX - 1` values are
/// taken in one call.
pub fn drain<V>(rx: &std::sync::mpsc::Receiver<V>) -> (vals: Vec<V>) {
    let mut vals: Vec<V> = Vec::new();
    while vals.len() < usize::MAX - 1
        decreases usize::MAX - vals.len(),
    {
        match try_recv(rx) {
            Some(v) => vals.push(v),
            None => break,
        }
    }
    vals
}

/// `r` is what a sample of a channel's latest value gives: a clone of the last value just
/// received, or of the stored value when nothing arrived.
pub open spec fn latest_sample<T: Clone>(r: T) -> bool {
    exists|prev: T, xs: Seq<T>| #![trigger last_of(prev, xs)] cloned(last_of(prev, xs), r)
}

/// The content of a signal.
#[verifier::reject_recursive_types(T)]
enum SigValue<T> {
    /// A signal with constant value.
    Constant(T),
    /// A signal that reads its values from a shared source.
    Dynamic(Arc<Box<dyn Source<T>>>),
}

/// Represents a discrete value that changes over time.
///
/// Signals are usually constructed by stream operations and can be read using the
/// `sample` method. They update lazily when someone reads them.
#[verifier::reject_recursive_types(T)]
pub struct Signal<T>(SigValue<T>);

impl<T> Signal<T> {
    #[verifier::type_invariant]
    spec fn readable(self) -> bool {
        match self.0 {
            SigValue::Constant(_) => true,
            SigValue::Dynamic(s) => s.ready(),
        }
    }

    /// The value of a constant signal, `None` for a signal that reads a source.
    pub closed spec fn constant_value(&self) -> Option<T> {
        match self.0 {
            SigValue::Constant(v) => Some(v),
            SigValue::Dynamic(_) => None,
        }
    }

    /// `r` is a value that reading the source of a signal that is not constant can give.
    pub closed spec fn produces(&self, r: T) -> bool {
        match self.0 {
            SigValue::Constant(_) => false,
            SigValue::Dynamic(s) => s.produces(r),
        }
    }

    /// Whether this signal has a constant value.
    pub open spec fn is_constant(&self) -> bool {
        self.constant_value() is Some
    }
}

impl<T: Clone> Signal<T> {
    /// `r` is a value that sampling this signal can give: a clone of the constant, or a
    /// value its source produces.
    pub open spec fn samples(&self, r: T) -> bool {
        match self.constant_value() {
            Some(v) => cloned(v, r),
            None => self.produces(r),
        }
    }

    /// The values that sampling this signal can give, as a predicate.
    pub open spec fn sample_set(&self) -> spec_fn(T) -> bool {
        |x: T| self.samples(x)
    }

    /// Samples the value of the signal.
    ///
    /// This will clone the value stored in a constant signal.
    pub fn sample(&self) -> (r: T)
        ensures
            self.samples(r),
    {
        match &self.0 {
            SigValue::Constant(v) => {
                let r = v.clone();
                assert(cloned(*v, r));
                r
            },
            SigValue::Dynamic(s) => {
                proof {
                    use_type_invariant(self);
                }
                s.pull(Permit { once: () })
            },
        }
    }
}

impl<T: Clone + Send + Sync + 'static> Signal<T> {
    /// Maps a signal with the provided function.
    ///
    /// A constant signal is mapped once, into another constant signal; any other signal
    /// applies the function to each value it reads.
    pub fn map<F, R>(&self, f: F) -> (out: Signal<R>)
        where
            F: Fn(T) -> R + Send + Sync + 'static,
            R: Clone + Send + Sync + 'static,
        requires
            forall|x: T| f.requires((x,)),
        ensures
            out.is_constant() == self.is_constant(),
            self.constant_value() matches Some(v) ==> exists|c: T|
                #![trigger f.ensures((c,), out.constant_value()->0)]
                cloned(v, c) && f.ensures((c,), out.constant_value()->0),
            !self.is_constant() ==> forall|r: R|
                out.samples(r) <==> exists|x: T| self.samples(x) && f.ensures((x,), r),
    {
        proof {
            use_type_invariant(self);
        }
        match &self.0 {
            SigValue::Constant(v) => {
                let c = v.clone();
                let w = f(c);
                let out = Signal(SigValue::Constant(w));
                assert(cloned(*v, c) && f.ensures((c,), out.constant_value()->0));
                out
            },
            SigValue::Dynamic(s) => {
                let src = MapSource { parent: s.clone(), f };
                let ghost gs = src;
                let b: Box<dyn Source<R>> = Box::new(src);
                assert forall|r: R| b.produces(r) == gs.produces(r) by {}
        assert(b.ready() == gs.ready());
                let shared = Arc::new(b);
                let out = Signal(SigValue::Dynamic(shared));
                assert forall|r: R| out.samples(r) <==> exists|x: T| self.samples(x) && f.ensures((x,), r) by {
                    assert(out.samples(r) == gs.produces(r));
                    if out.samples(r) {
                        let x = choose|x: T| gs.parent.produces(x) && gs.f.ensures((x,), r);
                        assert(self.samples(x));
                    }
                }
                out
            },
        }
    }
}

impl<T: Clone + Send + Sync + 'static> Signal<T> {
    /// Folds a signal using the provided function.
    ///
    /// The folding operation will occur every time the signal is sampled: the value read
    /// from this signal is folded into the accumulator, and a clone of the accumulator is
    /// returned. A constant signal is folded from a copy of its value.
    pub fn fold<A, F>(&self, initial: A, f: F) -> (out: Signal<A>)
        where
            F: Fn(A, T) -> A + Send + Sync + 'static,
            A: Clone + Send + Sync + 'static,
        requires
            forall|a: A, x: T| f.requires((a, x)),
        ensures
            !out.is_constant(),
            !self.is_constant() ==> forall|r: A|
                out.samples(r) <==> fold_sample(f, initial, self.sample_set(), r),
            self.constant_value() matches Some(v) ==> exists|c: T|
                #![trigger clones_of(c)]
                cloned(v, c) && forall|r: A|
                    out.samples(r) <==> fold_sample(f, initial, clones_of(c), r),
    {
        proof {
            use_type_invariant(self);
        }
        let ghost init = initial;
        let ghost f0 = f;
        let ghost mut copied: T = arbitrary();
        let input = match &self.0 {
            SigValue::Constant(v) => {
                let c = v.clone();
                assert(cloned(*v, c));
                proof {
                    copied = c;
                }
                FoldInput::Constant(Mutex::with_invariant(c, Ghost(|y: T| y == c)))
            },
            SigValue::Dynamic(s) => FoldInput::Dynamic(s.clone()),
        };
        let ghost valid = |x: T| input.gives(x);
        proof {
            assert(folds_to(f0, init, Seq::<T>::empty(), init));
            assert(fold_reachable(f0, init, valid, init));
        }
        let storage = Storage::with_invariant(initial, Ghost(|a: A| fold_reachable(f0, init, valid, a)));
        let src = FoldSource { input, f, storage, init: Ghost(init) };
        assert(src.folded() =~= valid);
        proof {
            if !self.is_constant() {
                assert(valid =~= self.sample_set());
            } else {
                assert forall|x: T| #[trigger] valid(x) == clones_of(copied)(x) by {
                    if cloned(copied, x) {
                        let m = src.input->Constant_0;
                        assert((m.inv())(copied));
                    }
                }
                assert(valid =~= clones_of(copied));
            }
        }
        let ghost gs = src;
        let b: Box<dyn Source<A>> = Box::new(src);
        assert forall|r: A| b.produces(r) == gs.produces(r) by {}
        assert(b.ready() == gs.ready());
        let shared = Arc::new(b);
        let out = Signal(SigValue::Dynamic(shared));
        proof {
            if !self.is_constant() {
                assert forall|r: A| out.samples(r) <==> fold_sample(f0, init, self.sample_set(), r) by {
                    assert(out.samples(r) == gs.produces(r));
                    assert(gs.f == f0);
                    assert(gs.init@ == init);
                    assert(gs.folded() == self.sample_set());
                }
            }
            if self.is_constant() {
                assert(cloned(self.constant_value()->0, copied));
                assert forall|r: A| out.samples(r) <==> fold_sample(f0, init, clones_of(copied), r) by {
                    assert(out.samples(r) == gs.produces(r));
                    assert(gs.f == f0);
                    assert(gs.init@ == init);
                    assert(gs.folded() == clones_of(copied));
                }
            }
        }
        out
    }
}

impl<T: Clone + Send + Sync + 'static> Signal<Signal<T>> {
    /// Creates a new signal that samples the inner value of a nested signal.
    pub fn switch(&self) -> (out: Signal<T>)
        ensures
            self.constant_value() matches Some(sig) ==> {
                &&& sig.constant_value() matches Some(v) ==> out.constant_value() matches Some(
                    w,
                ) && cloned(v, w)
                &&& !sig.is_constant() ==> !out.is_constant() && forall|r: T|
                    out.samples(r) <==> sig.samples(r)
            },
            !self.is_constant() ==> !out.is_constant() && forall|r: T|
                out.samples(r) <==> exists|sig: Signal<T>|
                    #![trigger self.samples(sig)]
                    self.samples(sig) && sig.samples(r),
    {
        proof {
            use_type_invariant(self);
        }
        match &self.0 {
            SigValue::Constant(sig) => {
                proof {
                    use_type_invariant(sig);
                }
                match &sig.0 {
                    SigValue::Constant(v) => {
                        let w = v.clone();
                        assert(cloned(*v, w));
                        Signal(SigValue::Constant(w))
                    },
                    SigValue::Dynamic(a) => {
                        let src = Switched { layer: SwitchLayer::Inner(a.clone()) };
                        let ghost gs = src;
                        let b: Box<dyn Source<T>> = Box::new(src);
                        assert forall|r: T| b.produces(r) == gs.produces(r) by {}
        assert(b.ready() == gs.ready());
                        let shared = Arc::new(b);
                        let out = Signal(SigValue::Dynamic(shared));
                        assert forall|r: T| out.samples(r) <==> sig.samples(r) by {
                            assert(out.samples(r) == gs.produces(r));
                        }
                        out
                    },
                }
            },
            SigValue::Dynamic(a) => {
                let src = Switched { layer: SwitchLayer::Outer(a.clone()) };
                let ghost gs = src;
                let b: Box<dyn Source<T>> = Box::new(src);
                assert forall|r: T| b.produces(r) == gs.produces(r) by {}
        assert(b.ready() == gs.ready());
                let shared = Arc::new(b);
                let out = Signal(SigValue::Dynamic(shared));
                assert forall|r: T| out.samples(r) <==> exists|sig: Signal<T>|
                    #![trigger self.samples(sig)]
                    self.samples(sig) && sig.samples(r) by {
                    assert(out.samples(r) == gs.produces(r));
                    if out.samples(r) {
                        let sig = choose|sig: Signal<T>| a.produces(sig) && sig.samples(r);
                        assert(self.samples(sig));
                    }
                    if exists|sig: Signal<T>| #![trigger self.samples(sig)] self.samples(sig) && sig.samples(r) {
                        let sig = choose|sig: Signal<T>| self.samples(sig) && sig.samples(r);
                        assert(a.produces(sig));
                    }
                }
                out
            },
        }
    }
}

impl<T: Clone + Send + Sync + 'static> Signal<T> {
    /// Creates a signal that folds the values from a channel.
    ///
    /// When sampled, the resulting signal consumes all the current values on the channel
    /// (using `try_recv`) and folds them using the current signal value as the
    /// initial accumulator state.
    pub fn fold_channel<V, F>(initial: T, rx: std::sync::mpsc::Receiver<V>, f: F) -> (out: Self)
        where
            V: Send + 'static,
            F: Fn(T, V) -> T + Send + Sync + 'static,
        requires
            forall|a: T, v: V| f.requires((a, v)),
        ensures
            !out.is_constant(),
            forall|r: T| out.samples(r) <==> fold_batch_sample(f, initial, r),
    {
        let ghost init = initial;
        proof {
            assert(folds_to(f, init, Seq::<V>::empty(), init));
            assert(fold_reachable(f, init, anything(), init));
        }
        let storage = Storage::with_invariant(initial, Ghost(|a: T| fold_reachable(f, init, anything(), a)));
        let rx = rx_lock(rx);
        let src = ChannelFold { rx, storage, f, init: Ghost(init) };
        let ghost gs = src;
        let b: Box<dyn Source<T>> = Box::new(src);
        assert forall|r: T| b.produces(r) == gs.produces(r) by {}
        assert(b.ready() == gs.ready());
        let shared = Arc::new(b);
        let out = Signal(SigValue::Dynamic(shared));
        assert forall|r: T| out.samples(r) <==> fold_batch_sample(f, initial, r) by {
            assert(out.samples(r) == gs.produces(r));
        }
        out
    }
}

impl<T: Clone + Send + Sync + 'static> Signal<T> {
    /// Stores the last value sent to a channel.
    ///
    /// When sampled, the resulting signal consumes all the current values on the channel
    /// (using `try_recv`) and returns the last value seen.
    pub fn from_channel(initial: T, rx: std::sync::mpsc::Receiver<T>) -> (out: Signal<T>)
        ensures
            !out.is_constant(),
            forall|r: T| out.samples(r) <==> latest_sample(r),
    {
        let storage = Storage::new(initial);
        let src = ChannelLatest { rx: rx_lock(rx), storage };
        let ghost gs = src;
        let b: Box<dyn Source<T>> = Box::new(src);
        assert forall|r: T| b.produces(r) == gs.produces(r) by {}
        assert(b.ready() == gs.ready());
        let shared = Arc::new(b);
        let out = Signal(SigValue::Dynamic(shared));
        assert forall|r: T| out.samples(r) <==> latest_sample(r) by {
            assert(out.samples(r) == gs.produces(r));
        }
        out
    }
}

impl<T: Clone + Send + Sync + 'static> Signal<T> {
    /// Creates a signal from shared storage.
    ///
    /// Sampling it gives a clone of the stored value; `source` is kept alive as long as
    /// the signal is.
    pub fn from_storage<K: Send + Sync + 'static>(storage: Arc<Storage<T>>, source: K) -> (out: Self)
        ensures
            !out.is_constant(),
            forall|r: T|
                out.samples(r) <==> exists|v: T|
                    #![trigger (storage.inv())(v)]
                    (storage.inv())(v) && cloned(v, r),
    {
        let ghost inv = storage.inv();
        let src = StorageSource { storage, keepalive: source };
        let ghost gs = src;
        let b: Box<dyn Source<T>> = Box::new(src);
        assert forall|r: T| b.produces(r) == gs.produces(r) by {}
        assert(b.ready() == gs.ready());
        let shared = Arc::new(b);
        let out = Signal(SigValue::Dynamic(shared));
        assert(gs.storage.inv() == inv);
        assert forall|r: T|
            out.samples(r) <==> exists|v: T|
                #![trigger inv(v)]
                inv(v) && cloned(v, r) by {
            assert(out.samples(r) == gs.produces(r));
        }
        out
    }
}

impl<T: Default> Default for Signal<T> {
    /// Creates a constant signal with T's default value.
    fn default() -> (s: Self)
        ensures
            s.constant_value() matches Some(v) && T::default.ensures((), v),
    {
        Signal::constant(T::default())
    }
}

impl<T> From<T> for Signal<T> {
    /// Creates a constant signal from T.
    fn from(val: T) -> (s: Self) {
        Signal::constant(val)
    }
}

impl<T> vstd::std_specs::convert::FromSpecImpl<T> for Signal<T> {
    open spec fn obeys_from_spec() -> bool {
        true
    }

    open spec fn from_spec(v: T) -> Self {
        Signal::constant_of(v)
    }
}

impl<T> Signal<T> {
    /// The constant signal holding `v`.
    pub closed spec fn constant_of(v: T) -> Self {
        Signal(SigValue::Constant(v))
    }

    /// Creates a signal with constant value.
    ///
    /// The value is assumed to be constant, so changing it while it's stored on the
    /// signal is a logic error and will cause unexpected results.
    pub fn constant(val: T) -> (s: Self)
        ensures
            s.constant_value() == Some(val),
            s == Signal::constant_of(val),
    {
        Signal(SigValue::Constant(val))
    }
}

impl<T> Signal<T> {
    /// Creates a signal that samples its values from an external source.
    ///
    /// The closure is meant to sample a continuous value from the real world,
    /// so the signal value is assumed to be always changing.
    pub fn from_fn<F: Fn() -> T + Send + Sync + 'static>(f: F) -> (s: Self)
        requires
            f.requires(()),
        ensures
            !s.is_constant(),
            forall|r: T| s.produces(r) <==> f.ensures((), r),
    {
        let src = FnSource { f };
        let ghost gs = src;
        let b: Box<dyn Source<T>> = Box::new(src);
        assert forall|r: T| b.produces(r) == gs.produces(r) by {}
        assert(b.ready() == gs.ready());
        let shared = Arc::new(b);
        let out = Signal(SigValue::Dynamic(shared));
        assert forall|r: T| out.produces(r) <==> f.ensures((), r) by {
            assert(out.produces(r) == gs.produces(r));
        }
        out
    }
}

impl<T: Clone> Clone for Signal<T> {
    fn clone(&self) -> (r: Self)
        ensures
            r.is_constant() == self.is_constant(),
            self.constant_value() matches Some(v) ==> cloned(v, r.constant_value()->0),
            !self.is_constant() ==> r == *self,
    {
        match &self.0 {
            SigValue::Constant(v) => {
                let c = v.clone();
                assert(cloned(*v, c));
                Signal(SigValue::Constant(c))
            },
            SigValue::Dynamic(s) => {
                proof {
                    use_type_invariant(self);
                }
                Signal(SigValue::Dynamic(s.clone()))
            },
        }
    }
}

/// A fold starts from its initial value: before any value is folded, the accumulator is
/// the initial value.
pub proof fn law_fold_starts_at_initial<A, T, F: Fn(A, T) -> A>(
    f: F,
    init: A,
    valid: spec_fn(T) -> bool,
)
    ensures
        fold_reachable(f, init, valid, init),
{
    assert(folds_to(f, init, Seq::<T>::empty(), init));
}

/// The signal made from a value is the constant signal of that value.
pub proof fn law_from_is_constant<T>(v: T)
    ensures
        Signal::constant_of(v).constant_value() == Some(v),
{
}

/// Sampling a constant signal gives a clone of its value, and nothing else.
pub proof fn law_constant_samples<T: Clone>(s: Signal<T>, v: T, r: T)
    requires
        s.constant_value() == Some(v),
    ensures
        s.samples(r) <==> cloned(v, r),
{
}

/// Mapping a dynamic signal with `f` and then with `g` gives the values of `g` applied to
/// what `f` gives for a sample of the signal.
pub proof fn law_map_twice<T: Clone, R: Clone, Q: Clone, F: Fn(T) -> R, G: Fn(R) -> Q>(
    s: Signal<T>,
    mapped: Signal<R>,
    twice: Signal<Q>,
    f: F,
    g: G,
)
    requires
        forall|r: R|
            mapped.samples(r) <==> exists|x: T| #[trigger] s.samples(x) && f.ensures((x,), r),
        forall|q: Q|
            twice.samples(q) <==> exists|r: R| #[trigger] mapped.samples(r) && g.ensures((r,), q),
    ensures
        forall|q: Q|
            twice.samples(q) <==> exists|x: T, r: R|
                #![trigger s.samples(x), g.ensures((r,), q)]
                s.samples(x) && f.ensures((x,), r) && g.ensures((r,), q),
{
    assert forall|q: Q|
        twice.samples(q) <==> exists|x: T, r: R|
            #![trigger s.samples(x), g.ensures((r,), q)]
            s.samples(x) && f.ensures((x,), r) && g.ensures((r,), q) by {
        if twice.samples(q) {
            let r = choose|r: R| #[trigger] mapped.samples(r) && g.ensures((r,), q);
            let x = choose|x: T| #[trigger] s.samples(x) && f.ensures((x,), r);
            assert(s.samples(x) && f.ensures((x,), r) && g.ensures((r,), q));
        }
        if exists|x: T, r: R|
            #![trigger s.samples(x), g.ensures((r,), q)]
            s.samples(x) && f.ensures((x,), r) && g.ensures((r,), q) {
            let (x, r) = choose|x: T, r: R|
                #![trigger s.samples(x), g.ensures((r,), q)]
                s.samples(x) && f.ensures((x,), r) && g.ensures((r,), q);
            assert(mapped.samples(r));
        }
    }
}

/// Mapping with a function that gives back its argument leaves the values a signal can
/// give unchanged.
pub proof fn law_map_identity<T: Clone, F: Fn(T) -> T>(
    s: Signal<T>,
    mapped: Signal<T>,
    f: F,
)
    requires
        forall|r: T| mapped.samples(r) <==> exists|x: T| #[trigger] s.samples(x) && f.ensures((x,), r),
        forall|x: T, r: T| f.ensures((x,), r) <==> r == x,
    ensures
        forall|r: T| mapped.samples(r) <==> s.samples(r),
{
    assert forall|r: T| mapped.samples(r) <==> s.samples(r) by {
        if s.samples(r) {
            assert(f.ensures((r,), r));
        }
    }
}

} // verus!
