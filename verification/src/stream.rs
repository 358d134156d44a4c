//! Streams of discrete events, and the sinks that feed them.
//!
//! A stream holds a list of callbacks; every value sent to the stream is handed to each
//! of them. The combinators register a callback on their input that forwards, filters
//! or folds what it receives. Each stream keeps its parent alive, so dropping an
//! intermediate stream does not break a chain.
//!
//! Every stream carries the values it may fire, as a predicate: a sink may fire any
//! value, and each combinator states the values of its output stream in terms of those
//! of its inputs.
use vstd::prelude::*;
use std::sync::Arc;
use maybe_owned::MaybeOwned;
use either::Either;
use crate::helpers::{arc_and_weak, new_channel, post, Gone, Posted, WeakRef};
use crate::signal::{clones_of, fold_reachable, law_fold_step, law_fold_starts_at_initial, Signal};
use crate::sync::Mutex;
use crate::types::{first_of, second_of, ObserveResult, Storage, SumType2};
use crate::types::storage::Stored;
use crate::types::callbacks::{
    check_tag, into_owned, is_tag, owned_from, value_of, value_ref, CallbackBox, Callbacks,
    EventCell, FnCell, ListTag, OtherList, Sent,
};

verus! {

/// `p` holds of `x`.
pub open spec fn holds<T>(p: &spec_fn(T) -> bool, x: T) -> bool {
    (*p)(x)
}

/// `f` accepts every argument.
pub open spec fn accepts_all<T, R, F: Fn(MaybeOwned<'_, T>) -> R>(f: &F) -> bool {
    forall|a: MaybeOwned<'_, T>| #[trigger] (*f).requires((a,))
}

/// `f` accepts every reference.
pub open spec fn accepts_refs<T, R, F: Fn(&T) -> R>(f: &F) -> bool {
    forall|a: &T| #[trigger] (*f).requires((a,))
}

/// `f` accepts every pair of a value and an argument.
pub open spec fn accepts_pairs<A, T, R, F: Fn(A, MaybeOwned<'_, T>) -> R>(f: &F) -> bool {
    forall|a: A, x: MaybeOwned<'_, T>| #[trigger] (*f).requires((a, x))
}

/// `f` accepts every argument together with a sink.
pub open spec fn accepts_with_sink<T, R, F: Fn(MaybeOwned<'_, T>, Sink<R>)>(f: &F) -> bool {
    forall|a: MaybeOwned<'_, T>, s: Sink<R>| #[trigger] (*f).requires((a, s))
}

/// `f` accepts every argument of either stream.
pub open spec fn accepts_sides<T, U, R, F: Fn(Either<MaybeOwned<'_, T>, MaybeOwned<'_, U>>) -> R>(f: &F) -> bool {
    forall|e: Either<MaybeOwned<'_, T>, MaybeOwned<'_, U>>| #[trigger] (*f).requires((e,))
}

/// Every value that satisfies `p` may be fired by `out`.
pub open spec fn feeds<R>(p: &spec_fn(R) -> bool, out: &Callbacks<R>) -> bool {
    forall|r: R| #[trigger] (*p)(r) ==> (out.fires())(r)
}

/// The arguments of a stream whose values satisfy `input`.
pub open spec fn args_of<'a, T>(input: spec_fn(T) -> bool) -> spec_fn(MaybeOwned<'a, T>) -> bool {
    |a: MaybeOwned<'a, T>| input(value_of(a))
}

/// What a callback registered by a combinator did with one value.
#[verifier::reject_recursive_types(T)]
#[verifier::reject_recursive_types(G)]
pub enum Handled<P, T, G> {
    /// It did its work; `P` is the evidence.
    Done(P),
    /// The value came from a list other than the one it listens to, so it was ignored.
    Foreign(OtherList<T>),
    /// The stream or cell it feeds is gone, so it asks to be dropped.
    Gone(Gone<G>),
}

/// The callback kept listening exactly when what it feeds still lives; it ignored a value
/// only when the sending list was not its source, and gave up only when its target was gone.
pub open spec fn handled<P, T, G>(
    r: &(bool, Handled<P, T, G>),
    from: &ListTag<T>,
    src: &ListTag<T>,
    target: &G,
) -> bool {
    &&& r.0 == !(r.1 is Gone)
    &&& r.1 matches Handled::Foreign(o) ==> o.got() == *from && o.expected() == *src
    &&& r.1 matches Handled::Gone(g) ==> g.of() == *target
}

/// The callback stored a clone of the value of `arg` into `cell`.
pub open spec fn stored_clone<T: Clone, G>(r: &(bool, Handled<Stored<T>, T, G>), arg: MaybeOwned<'_, T>, cell: &Storage<T>) -> bool {
    r.1 matches Handled::Done(s) ==> s.cell() == *cell && cloned(value_of(arg), s.value())
}

/// The predicate was asked about the value of `arg`; when it accepted it, the callback
/// stored a clone of that value into `cell`, and otherwise stored nothing.
pub open spec fn held_if_stored<T: Clone, P: Fn(&T) -> bool, G>(
    r: &(bool, Handled<Option<Stored<T>>, T, G>),
    arg: MaybeOwned<'_, T>,
    pred: &P,
    cell: &Storage<T>,
) -> bool {
    r.1 matches Handled::Done(o) ==> exists|b: bool| #![trigger (*pred).ensures((&value_of(arg),), b)] {
        &&& (*pred).ensures((&value_of(arg),), b)
        &&& (o is Some <==> b)
        &&& o matches Some(s) ==> s.cell() == *cell && cloned(value_of(arg), s.value())
    }
}

/// The callback sent `v` through `out`.
pub open spec fn sent_value<P, T, G, R>(r: &(bool, Handled<Sent<R>, T, G>), v: R, out: &Callbacks<R>) -> bool {
    r.1 matches Handled::Done(s) ==> s.value() == v && s.list() == out.identity()
}

/// The callback sent through `out` what `f` gave for `arg`.
pub open spec fn mapped_sent<T, R, F: Fn(MaybeOwned<'_, T>) -> R, G>(
    r: &(bool, Handled<Sent<R>, T, G>),
    arg: MaybeOwned<'_, T>,
    f: &F,
    out: &Callbacks<R>,
) -> bool {
    r.1 matches Handled::Done(s) ==> (*f).ensures((arg,), s.value()) && s.list() == out.identity()
}

/// `f` was called on `arg`; the callback sent through `out` what it gave in `Some`, and
/// nothing when it gave `None`.
pub open spec fn filter_mapped_sent<T, R, F: Fn(MaybeOwned<'_, T>) -> Option<R>, G>(
    r: &(bool, Handled<Option<Sent<R>>, T, G>),
    arg: MaybeOwned<'_, T>,
    f: &F,
    out: &Callbacks<R>,
) -> bool {
    r.1 matches Handled::Done(o) ==> exists|v: Option<R>| #![trigger (*f).ensures((arg,), v)] {
        &&& (*f).ensures((arg,), v)
        &&& v matches Some(x) ==> o matches Some(s) && s.value() == x && s.list() == out.identity()
        &&& v is None ==> o is None
    }
}

/// The predicate was asked about the value of `arg`; when it accepted it, the callback
/// sent that value through `out`, and otherwise sent nothing.
pub open spec fn filtered_sent<T, P: Fn(&T) -> bool, G>(
    r: &(bool, Handled<Option<Sent<T>>, T, G>),
    arg: MaybeOwned<'_, T>,
    pred: &P,
    out: &Callbacks<T>,
) -> bool {
    r.1 matches Handled::Done(o) ==> exists|b: bool| #![trigger (*pred).ensures((&value_of(arg),), b)] {
        &&& (*pred).ensures((&value_of(arg),), b)
        &&& (o is Some <==> b)
        &&& o matches Some(s) ==> s.value() == value_of(arg) && s.list() == out.identity()
    }
}

/// `f` was called on `arg`.
pub open spec fn called_on<T, F: Fn(MaybeOwned<'_, T>)>(f: &F, arg: MaybeOwned<'_, T>) -> bool {
    (*f).ensures((arg,), ())
}

/// `f` was called on `arg` and gave a result whose verdict is `keep`.
pub open spec fn observed<T, O: ObserveResult, F: Fn(MaybeOwned<'_, T>) -> O>(
    f: &F,
    arg: MaybeOwned<'_, T>,
    keep: bool,
) -> bool {
    exists|o: O| #[trigger] (*f).ensures((arg,), o) && keep == o.keeps_callback()
}

/// A result of `f` on `arg` with verdict `keep` is an observation.
proof fn lemma_observed<T, O: ObserveResult, F: Fn(MaybeOwned<'_, T>) -> O>(
    f: &F,
    arg: MaybeOwned<'_, T>,
    o: O,
    keep: bool,
)
    requires
        (*f).ensures((arg,), o),
        keep == o.keeps_callback(),
    ensures
        observed(f, arg, keep),
{
}

/// The callback sent through `out` what `f` gave for `e`.
pub open spec fn sided_sent<T, U, R, F: Fn(Either<MaybeOwned<'_, T>, MaybeOwned<'_, U>>) -> R, V, G>(
    r: &(bool, Handled<Sent<R>, V, G>),
    e: Either<MaybeOwned<'_, T>, MaybeOwned<'_, U>>,
    f: &F,
    out: &Callbacks<R>,
) -> bool {
    r.1 matches Handled::Done(s) ==> (*f).ensures((e,), s.value()) && s.list() == out.identity()
}

/// `f` was called on `arg` with a sink that feeds `out`.
pub open spec fn called_with_sink<T, R, F: Fn(MaybeOwned<'_, T>, Sink<R>)>(
    f: &F,
    arg: MaybeOwned<'_, T>,
    out: &Callbacks<R>,
) -> bool {
    exists|sk: Sink<R>| #[trigger] (*f).ensures((arg, sk), ()) && sk.list() == *out
}

/// A call of `f` on `arg` with a sink that feeds `out` is recorded.
proof fn lemma_called_with_sink<T, R, F: Fn(MaybeOwned<'_, T>, Sink<R>)>(
    f: &F,
    arg: MaybeOwned<'_, T>,
    sk: Sink<R>,
    out: &Callbacks<R>,
)
    requires
        (*f).ensures((arg, sk), ()),
        sk.list() == *out,
    ensures
        called_with_sink(f, arg, out),
{
}

/// The callback wrote into `cell` what `f` made of a previous accumulator and `arg`.
pub open spec fn folded_once<A, T, F: Fn(A, MaybeOwned<'_, T>) -> A, G>(
    r: &(bool, Handled<Stored<A>, T, G>),
    arg: MaybeOwned<'_, T>,
    f: &F,
    cell: &Storage<A>,
) -> bool {
    r.1 matches Handled::Done(s) ==> s.cell() == *cell && exists|old: A| #[trigger] (*f).ensures((old, arg), s.value())
}

/// The callback wrote into `cell` what `f` made of a clone of a previous accumulator and
/// `arg`.
pub open spec fn clone_folded_once<A: Clone, T, F: Fn(A, MaybeOwned<'_, T>) -> A, G>(
    r: &(bool, Handled<Stored<A>, T, G>),
    arg: MaybeOwned<'_, T>,
    f: &F,
    cell: &Storage<A>,
) -> bool {
    r.1 matches Handled::Done(s) ==> s.cell() == *cell && exists|old: A, c: A|
        #![trigger (*f).ensures((c, arg), s.value()), cloned(old, c)]
        cloned(old, c) && (*f).ensures((c, arg), s.value())
}

/// A write of what `f` made of `old` and `x` folded once.
proof fn lemma_folded_once<A, T, F: Fn(A, MaybeOwned<'_, T>) -> A>(f: &F, x: MaybeOwned<'_, T>, old: A, s: Stored<A>)
    requires
        (*f).ensures((old, x), s.value()),
    ensures
        exists|o: A| #[trigger] (*f).ensures((o, x), s.value()),
{
}

/// A write of what `f` made of a clone `c` of `old` and `x` folded once.
proof fn lemma_clone_folded_once<A: Clone, T, F: Fn(A, MaybeOwned<'_, T>) -> A>(
    f: &F,
    x: MaybeOwned<'_, T>,
    old: A,
    c: A,
    s: Stored<A>,
)
    requires
        cloned(old, c),
        (*f).ensures((c, x), s.value()),
    ensures
        exists|o: A, d: A| #![trigger (*f).ensures((d, x), s.value()), cloned(o, d)] cloned(o, d) && (*f).ensures((d, x), s.value()),
{
}

/// For a value of the first variant, the callback sent through `out` the first-variant
/// content of a clone of it (unless the clone was of the other variant); for a value of
/// the second variant it sent nothing.
pub open spec fn first_sent<T: SumType2 + Clone, G>(
    r: &(bool, Handled<Option<Sent<T::Type1>>, T, G>),
    arg: MaybeOwned<'_, T>,
    out: &Callbacks<T::Type1>,
) -> bool {
    r.1 matches Handled::Done(o) ==> {
        &&& o matches Some(s) ==> s.list() == out.identity() && exists|c: T|
            #![trigger first_of(c)]
            cloned(value_of(arg), c) && first_of(c) == Some(s.value())
        &&& o is None ==> first_of(value_of(arg)) is None || exists|c: T|
            #![trigger first_of(c)]
            cloned(value_of(arg), c) && first_of(c) is None
    }
}

/// For a value of the second variant, the callback sent through `out` the second-variant
/// content of a clone of it (unless the clone was of the other variant); for a value of
/// the first variant it sent nothing.
pub open spec fn second_sent<T: SumType2 + Clone, G>(
    r: &(bool, Handled<Option<Sent<T::Type2>>, T, G>),
    arg: MaybeOwned<'_, T>,
    out: &Callbacks<T::Type2>,
) -> bool {
    r.1 matches Handled::Done(o) ==> {
        &&& o matches Some(s) ==> s.list() == out.identity() && exists|c: T|
            #![trigger second_of(c)]
            cloned(value_of(arg), c) && second_of(c) == Some(s.value())
        &&& o is None ==> second_of(value_of(arg)) is None || exists|c: T|
            #![trigger second_of(c)]
            cloned(value_of(arg), c) && second_of(c) is None
    }
}

/// What a split callback did with one value of its source.
#[verifier::reject_recursive_types(A)]
#[verifier::reject_recursive_types(B)]
pub enum SplitDone<A, B> {
    /// The first-variant content went to the first output.
    First(Sent<A>),
    /// The second-variant content went to the second output.
    Second(Sent<B>),
    /// The value was of the first variant but the first output is gone; the second one is
    /// gone too when the evidence of it is given.
    FirstGone(Gone<Callbacks<A>>, Option<Gone<Callbacks<B>>>),
    /// The value was of the second variant but the second output is gone; the first one is
    /// gone too when the evidence of it is given.
    SecondGone(Gone<Callbacks<B>>, Option<Gone<Callbacks<A>>>),
    /// The clone of the value was not of the variant of the value, so nothing was sent.
    Unrouted,
}

/// A split callback handed `arg` sent its first-variant content (from a clone) to the
/// first output or its second-variant content to the second, according to its variant,
/// while that output lives; it asks to be dropped exactly when both outputs are gone.
pub open spec fn split_routed<T: SumType2 + Clone>(
    keep: bool,
    d: SplitDone<T::Type1, T::Type2>,
    arg: MaybeOwned<'_, T>,
    out1: &Callbacks<T::Type1>,
    out2: &Callbacks<T::Type2>,
) -> bool {
    let x = value_of(arg);
    match d {
        SplitDone::First(s) => keep && first_of(x) is Some && s.list() == out1.identity()
            && exists|c: T| #![trigger first_of(c)] cloned(x, c) && first_of(c) == Some(s.value()),
        SplitDone::Second(s) => keep && first_of(x) is None && s.list() == out2.identity()
            && exists|c: T| #![trigger second_of(c)] cloned(x, c) && second_of(c) == Some(s.value()),
        SplitDone::FirstGone(g1, g2) => first_of(x) is Some && g1.of() == *out1 && (keep <==> g2 is None)
            && (g2 matches Some(g) ==> g.of() == *out2),
        SplitDone::SecondGone(g2, g1) => first_of(x) is None && g2.of() == *out2 && (keep <==> g1 is None)
            && (g1 matches Some(g) ==> g.of() == *out1),
        SplitDone::Unrouted => keep && exists|c: T| #![trigger first_of(c)] cloned(x, c) && ((first_of(c) is Some) != (first_of(x) is Some)),
    }
}

/// `x` is what `f` gave for a sample of `sig` and `t`.
pub open spec fn snapped_value<T: Clone, S, R, F: Fn(T, MaybeOwned<'_, S>) -> R>(
    sig: &Signal<T>,
    f: &F,
    t: MaybeOwned<'_, S>,
    x: R,
) -> bool {
    exists|v: T| #![trigger (*f).ensures((v, t), x)] sig.samples(v) && (*f).ensures((v, t), x)
}

/// The callback sent through `out` what `f` gave for a sample of `sig` and `t`.
pub open spec fn snapped_sent<T: Clone, S, R, F: Fn(T, MaybeOwned<'_, S>) -> R, G>(
    r: &(bool, Handled<Sent<R>, S, G>),
    t: MaybeOwned<'_, S>,
    sig: &Signal<T>,
    f: &F,
    out: &Callbacks<R>,
) -> bool {
    r.1 is Done ==> r.1->Done_0.list() == out.identity() && snapped_value(sig, f, t, r.1->Done_0.value())
}

/// Sending what `f` gave for a sample `v` of `sig` and `t` is a snapshot.
proof fn lemma_snapped_sent<T: Clone, S, R, F: Fn(T, MaybeOwned<'_, S>) -> R>(
    sig: &Signal<T>,
    f: &F,
    v: T,
    t: MaybeOwned<'_, S>,
    s: Sent<R>,
    out: &Callbacks<R>,
)
    requires
        sig.samples(v),
        (*f).ensures((v, t), s.value()),
        s.list() == out.identity(),
    ensures
        snapped_sent(&(true, Handled::<Sent<R>, S, Callbacks<R>>::Done(s)), t, sig, f, out),
{
}

/// The value was handed to the sender `tx`.
pub open spec fn posted_to<T>(p: &Posted<T>, tx: &std::sync::mpsc::Sender<T>) -> bool {
    p.channel() == *tx
}

/// Something a stream keeps alive: the stream or streams it reads from.
pub trait KeepAlive: Send + Sync {}

impl<X: Send + Sync> KeepAlive for X {}

/// Boxes a parent to keep it alive.
fn keep<X: Send + Sync + 'static>(x: X) -> Option<Arc<Box<dyn KeepAlive>>> {
    let b: Box<dyn KeepAlive> = Box::new(x);
    Some(Arc::new(b))
}

/// A source of events that feeds the streams connected to it. Any value may be sent.
#[verifier::reject_recursive_types(T)]
pub struct Sink<T> {
    cbs: Arc<Callbacks<T>>,
}

impl<T> Sink<T> {
    #[verifier::type_invariant]
    spec fn open_to_all(self) -> bool {
        forall|x: T| #[trigger] (self.cbs.fires())(x)
    }

    /// The callback list this sink feeds.
    pub closed spec fn list(&self) -> Callbacks<T> {
        *self.cbs
    }

    /// Creates a new sink.
    pub fn new() -> Self {
        Sink { cbs: Arc::new(Callbacks::new()) }
    }

    /// Creates a stream that receives the events sent to this sink: it may fire any value.
    pub fn stream(&self) -> (out: Stream<T>)
        ensures
            forall|x: T| #[trigger] out.may_fire(x),
    {
        proof {
            use_type_invariant(self);
        }
        Stream { cbs: self.cbs.clone(), source: None }
    }

    /// Sends a value into the sink.
    pub fn send(&self, val: T) {
        proof {
            use_type_invariant(self);
        }
        let _ = self.cbs.call_owned(val);
    }

    /// Sends the values of `vals` into the sink, in order.
    pub fn feed(&self, vals: Vec<T>) {
        let mut vals = vals;
        while vals.len() > 0
            decreases vals.len(),
        {
            let v = vals.remove(0);
            self.send(v);
        }
    }
}

impl<T> Default for Sink<T> {
    fn default() -> Self {
        Sink::new()
    }
}

impl<T> Clone for Sink<T> {
    fn clone(&self) -> Self {
        proof {
            use_type_invariant(self);
        }
        Sink { cbs: self.cbs.clone() }
    }
}

/// A stream of discrete events sent over time.
///
/// All the streams returned by the methods below contain an internal reference to their
/// parent, so dropping intermediate streams won't break the chain.
#[verifier::reject_recursive_types(T)]
pub struct Stream<T> {
    cbs: Arc<Callbacks<T>>,
    source: Option<Arc<Box<dyn KeepAlive>>>,
}

impl<T> Stream<T> {
    /// The values this stream may fire.
    pub closed spec fn fires(&self) -> spec_fn(T) -> bool {
        self.cbs.fires()
    }

    /// This stream may fire `x`.
    pub open spec fn may_fire(&self, x: T) -> bool {
        (self.fires())(x)
    }
}

impl<T> Clone for Stream<T> {
    fn clone(&self) -> (s: Self)
        ensures
            s.fires() == self.fires(),
    {
        Stream { cbs: self.cbs.clone(), source: self.source.clone() }
    }
}

/// The list tagged `t` fires the values that satisfy `p`.
pub open spec fn fires_as<T>(t: &ListTag<T>, p: &spec_fn(T) -> bool) -> bool {
    t.fires() == *p
}

/// `r` is what `f` gives, wrapped in `Some`, for an argument whose value satisfies `input`.
pub open spec fn filter_mapped<T, R, F: Fn(MaybeOwned<'_, T>) -> Option<R>>(
    f: F,
    input: spec_fn(T) -> bool,
    r: R,
) -> bool {
    exists|a: MaybeOwned<'_, T>| #[trigger] f.ensures((a,), Some(r)) && input(value_of(a))
}

/// `r` is what `f` gives for an argument whose value satisfies `input`.
pub open spec fn mapped<T, R, F: Fn(MaybeOwned<'_, T>) -> R>(f: F, input: spec_fn(T) -> bool, r: R) -> bool {
    exists|a: MaybeOwned<'_, T>| #[trigger] f.ensures((a,), r) && input(value_of(a))
}

/// `x` satisfies `input` and the predicate accepted it.
pub open spec fn filtered<T, F: Fn(&T) -> bool>(pred: F, input: spec_fn(T) -> bool, x: T) -> bool {
    input(x) && pred.ensures((&x,), true)
}

/// Every value `f` gives in `Some` for an argument of `input` may be fired by `out`.
pub open spec fn filter_map_target<T, R, F: Fn(MaybeOwned<'_, T>) -> Option<R>>(
    out: &Callbacks<R>,
    f: &F,
    input: &spec_fn(T) -> bool,
) -> bool {
    forall|r: R| #[trigger] filter_mapped(*f, *input, r) ==> (out.fires())(r)
}

/// Every value `f` gives for an argument of `input` may be fired by `out`.
pub open spec fn map_target<T, R, F: Fn(MaybeOwned<'_, T>) -> R>(
    out: &Callbacks<R>,
    f: &F,
    input: &spec_fn(T) -> bool,
) -> bool {
    forall|r: R| #[trigger] mapped(*f, *input, r) ==> (out.fires())(r)
}

/// Every value of `input` the predicate accepts may be fired by `out`.
pub open spec fn filter_target<T, F: Fn(&T) -> bool>(
    out: &Callbacks<T>,
    pred: &F,
    input: &spec_fn(T) -> bool,
) -> bool {
    forall|x: T| #[trigger] filtered(*pred, *input, x) ==> (out.fires())(x)
}

/// Every value of `input` may be fired by `out`.
pub open spec fn pass_target<T>(out: &Callbacks<T>, input: &spec_fn(T) -> bool) -> bool {
    forall|x: T| #[trigger] (*input)(x) ==> (out.fires())(x)
}

/// A call of `f` on an argument of `input` gives a filtered-and-mapped value.
proof fn lemma_filter_mapped<T, R, F: Fn(MaybeOwned<'_, T>) -> Option<R>>(
    f: &F,
    input: &spec_fn(T) -> bool,
    a: MaybeOwned<'_, T>,
    r: R,
)
    requires
        (*f).ensures((a,), Some(r)),
        (*input)(value_of(a)),
    ensures
        filter_mapped(*f, *input, r),
{
}

/// A call of `f` on an argument of `input` gives a mapped value.
proof fn lemma_mapped<T, R, F: Fn(MaybeOwned<'_, T>) -> R>(
    f: &F,
    input: &spec_fn(T) -> bool,
    a: MaybeOwned<'_, T>,
    r: R,
)
    requires
        (*f).ensures((a,), r),
        (*input)(value_of(a)),
    ensures
        mapped(*f, *input, r),
{
}

/// A value of `input` the predicate accepted through a reference to it is filtered.
proof fn lemma_filtered<T, F: Fn(&T) -> bool>(pred: &F, input: &spec_fn(T) -> bool, r: &T)
    requires
        (*pred).ensures((r,), true),
        (*input)(*r),
    ensures
        filtered(*pred, *input, *r),
{
}

impl<T: Send + Sync + 'static> Stream<T> {
    /// Creates a stream that never fires.
    pub fn never() -> (out: Self)
        ensures
            forall|x: T| !#[trigger] out.may_fire(x),
    {
        Stream { cbs: Arc::new(Callbacks::with_fires(Ghost(|x: T| false))), source: None }
    }

    /// A stream fed by `cbs` that keeps this one alive.
    fn child<R>(&self, cbs: Arc<Callbacks<R>>) -> (out: Stream<R>)
        ensures
            out.fires() == cbs.fires(),
    {
        Stream { cbs, source: keep(self.clone()) }
    }

    /// The tag of the callback list of this stream.
    fn source_tag(&self) -> (t: Arc<ListTag<T>>)
        ensures
            t.fires() == self.fires(),
    {
        self.cbs.tag()
    }

    /// Filter and map a stream simultaneously.
    ///
    /// The output fires exactly what `f` gives in `Some` for the values of this stream.
    pub fn filter_map<F, R>(&self, f: F) -> (out: Stream<R>)
        where
            F: Fn(MaybeOwned<'_, T>) -> Option<R> + Send + Sync + 'static,
            R: Send + Sync + 'static,
        requires
            forall|arg: MaybeOwned<'_, T>| f.requires((arg,)),
        ensures
            forall|r: R| #[trigger] out.may_fire(r) <==> filter_mapped(f, self.fires(), r),
    {
        let ghost inp = self.fires();
        let ghost g = f;
        let src = self.source_tag();
        let (new_cbs, weak) = arc_and_weak(
            Callbacks::with_fires(Ghost(|r: R| filter_mapped(g, inp, r))),
        );
        let cb = move |arg: MaybeOwned<'_, T>, from: &ListTag<T>| -> (r: (bool, Handled<Option<Sent<R>>, T, Callbacks<R>>))
            requires
                (from.fires())(value_of(arg)),
                fires_as(&*src, &inp),
                accepts_all(&f),
                filter_map_target(&weak.target(), &f, &inp),
            ensures
                handled(&r, from, &*src, &weak.target()),
                filter_mapped_sent(&r, arg, &f, &weak.target()),
        {
            match weak.reach() {
                Ok(out) => match check_tag(from, &*src) {
                    Ok(()) => {
                        let ghost a = arg;
                        let val = f(arg);
                        match val {
                            Some(v) => {
                                proof {
                                    lemma_filter_mapped(&f, &inp, a, v);
                                }
                                let sent = out.send(v);
                                (true, Handled::Done(Some(sent)))
                            },
                            None => (true, Handled::Done(None)),
                        }
                    },
                    Err(o) => (true, Handled::Foreign(o)),
                },
                Err(g) => (false, Handled::Gone(g)),
            }
        };
        self.cbs.push(CallbackBox::new(Box::new(EventCell::new(cb))));
        self.child(new_cbs)
    }

    /// Maps this stream into another stream using the provided function.
    ///
    /// The output fires exactly what `f` gives for the values of this stream.
    pub fn map<F, R>(&self, f: F) -> (out: Stream<R>)
        where
            F: Fn(MaybeOwned<'_, T>) -> R + Send + Sync + 'static,
            R: Send + Sync + 'static,
        requires
            forall|arg: MaybeOwned<'_, T>| f.requires((arg,)),
        ensures
            forall|r: R| #[trigger] out.may_fire(r) <==> mapped(f, self.fires(), r),
    {
        let ghost inp = self.fires();
        let ghost g = f;
        let src = self.source_tag();
        let (new_cbs, weak) = arc_and_weak(Callbacks::with_fires(Ghost(|r: R| mapped(g, inp, r))));
        let cb = move |arg: MaybeOwned<'_, T>, from: &ListTag<T>| -> (r: (bool, Handled<Sent<R>, T, Callbacks<R>>))
            requires
                (from.fires())(value_of(arg)),
                fires_as(&*src, &inp),
                accepts_all(&f),
                map_target(&weak.target(), &f, &inp),
            ensures
                handled(&r, from, &*src, &weak.target()),
                mapped_sent(&r, arg, &f, &weak.target()),
        {
            match weak.reach() {
                Ok(out) => match check_tag(from, &*src) {
                    Ok(()) => {
                        let ghost a = arg;
                        let v = f(arg);
                        proof {
                            lemma_mapped(&f, &inp, a, v);
                        }
                        let sent = out.send(v);
                        (true, Handled::Done(sent))
                    },
                    Err(o) => (true, Handled::Foreign(o)),
                },
                Err(g) => (false, Handled::Gone(g)),
            }
        };
        self.cbs.push(CallbackBox::new(Box::new(EventCell::new(cb))));
        self.child(new_cbs)
    }

    /// Creates a new stream that only contains the values where the predicate is `true`.
    ///
    /// The output fires exactly the values of this stream the predicate accepts.
    pub fn filter<F>(&self, pred: F) -> (out: Self)
        where
            F: Fn(&T) -> bool + Send + Sync + 'static,
        requires
            forall|x: &T| pred.requires((x,)),
        ensures
            forall|x: T| #[trigger] out.may_fire(x) <==> filtered(pred, self.fires(), x),
    {
        let ghost inp = self.fires();
        let ghost p = pred;
        let src = self.source_tag();
        let (new_cbs, weak) = arc_and_weak(Callbacks::with_fires(Ghost(|x: T| filtered(p, inp, x))));
        let cb = move |arg: MaybeOwned<'_, T>, from: &ListTag<T>| -> (r: (bool, Handled<Option<Sent<T>>, T, Callbacks<T>>))
            requires
                (from.fires())(value_of(arg)),
                fires_as(&*src, &inp),
                accepts_refs(&pred),
                filter_target(&weak.target(), &pred, &inp),
            ensures
                handled(&r, from, &*src, &weak.target()),
                filtered_sent(&r, arg, &pred, &weak.target()),
        {
            match weak.reach() {
                Ok(out) => match check_tag(from, &*src) {
                    Ok(()) => {
                        let rf = value_ref(&arg);
                        if pred(rf) {
                            proof {
                                lemma_filtered(&pred, &inp, rf);
                            }
                            let sent = out.send_arg(arg);
                            (true, Handled::Done(Some(sent)))
                        } else {
                            (true, Handled::Done(None))
                        }
                    },
                    Err(o) => (true, Handled::Foreign(o)),
                },
                Err(g) => (false, Handled::Gone(g)),
            }
        };
        self.cbs.push(CallbackBox::new(Box::new(EventCell::new(cb))));
        self.child(new_cbs)
    }
}

/// The side of an argument of `merge_with` comes from a value its stream may fire.
pub open spec fn sided<T, U>(
    e: Either<MaybeOwned<'_, T>, MaybeOwned<'_, U>>,
    in1: spec_fn(T) -> bool,
    in2: spec_fn(U) -> bool,
) -> bool {
    match e {
        Either::Left(a) => in1(value_of(a)),
        Either::Right(b) => in2(value_of(b)),
    }
}

/// `r` is what `f` gives for a value of either stream.
pub open spec fn merged_with<T, U, R, F: Fn(Either<MaybeOwned<'_, T>, MaybeOwned<'_, U>>) -> R>(
    f: F,
    in1: spec_fn(T) -> bool,
    in2: spec_fn(U) -> bool,
    r: R,
) -> bool {
    exists|e: Either<MaybeOwned<'_, T>, MaybeOwned<'_, U>>| #[trigger] f.ensures((e,), r) && sided(e, in1, in2)
}

/// Every value `f` gives for a value of either stream may be fired by `out`.
pub open spec fn merge_with_target<T, U, R, F: Fn(Either<MaybeOwned<'_, T>, MaybeOwned<'_, U>>) -> R>(
    out: &Callbacks<R>,
    f: &F,
    in1: &spec_fn(T) -> bool,
    in2: &spec_fn(U) -> bool,
) -> bool {
    forall|r: R| #[trigger] merged_with(*f, *in1, *in2, r) ==> (out.fires())(r)
}

/// A call of `f` on a value of either stream gives a merged value.
proof fn lemma_merged_with<T, U, R, F: Fn(Either<MaybeOwned<'_, T>, MaybeOwned<'_, U>>) -> R>(
    f: &F,
    in1: &spec_fn(T) -> bool,
    in2: &spec_fn(U) -> bool,
    e: Either<MaybeOwned<'_, T>, MaybeOwned<'_, U>>,
    r: R,
)
    requires
        (*f).ensures((e,), r),
        sided(e, *in1, *in2),
    ensures
        merged_with(*f, *in1, *in2, r),
{
}

impl<T: Send + Sync + 'static> Stream<T> {
    /// Creates a new stream that fires with the events from both streams.
    pub fn merge(&self, other: &Stream<T>) -> (out: Self)
        ensures
            forall|x: T| #[trigger] out.may_fire(x) <==> self.may_fire(x) || other.may_fire(x),
    {
        let ghost in1 = self.fires();
        let ghost in2 = other.fires();
        let src1 = self.source_tag();
        let src2 = other.source_tag();
        let (new_cbs, weak1) = arc_and_weak(Callbacks::with_fires(Ghost(|x: T| in1(x) || in2(x))));
        let weak2 = weak1.duplicate();
        let cb1 = move |arg: MaybeOwned<'_, T>, from: &ListTag<T>| -> (r: (bool, Handled<Sent<T>, T, Callbacks<T>>))
            requires
                (from.fires())(value_of(arg)),
                fires_as(&*src1, &in1),
                pass_target(&weak1.target(), &in1),
            ensures
                handled(&r, from, &*src1, &weak1.target()),
                sent_value::<(), T, Callbacks<T>, T>(&r, value_of(arg), &weak1.target()),
        {
            match weak1.reach() {
                Ok(out) => match check_tag(from, &*src1) {
                    Ok(()) => {
                        let sent = out.send_arg(arg);
                        (true, Handled::Done(sent))
                    },
                    Err(o) => (true, Handled::Foreign(o)),
                },
                Err(g) => (false, Handled::Gone(g)),
            }
        };
        let cb2 = move |arg: MaybeOwned<'_, T>, from: &ListTag<T>| -> (r: (bool, Handled<Sent<T>, T, Callbacks<T>>))
            requires
                (from.fires())(value_of(arg)),
                fires_as(&*src2, &in2),
                pass_target(&weak2.target(), &in2),
            ensures
                handled(&r, from, &*src2, &weak2.target()),
                sent_value::<(), T, Callbacks<T>, T>(&r, value_of(arg), &weak2.target()),
        {
            match weak2.reach() {
                Ok(out) => match check_tag(from, &*src2) {
                    Ok(()) => {
                        let sent = out.send_arg(arg);
                        (true, Handled::Done(sent))
                    },
                    Err(o) => (true, Handled::Foreign(o)),
                },
                Err(g) => (false, Handled::Gone(g)),
            }
        };
        self.cbs.push(CallbackBox::new(Box::new(EventCell::new(cb1))));
        other.cbs.push(CallbackBox::new(Box::new(EventCell::new(cb2))));
        Stream { cbs: new_cbs, source: keep((self.clone(), other.clone())) }
    }

    /// Maps each stream event to `0..N` output values.
    ///
    /// The closure must return its values by sending them through the provided sink.
    /// Multiple values (or none) can be sent to the output stream this way, so the output
    /// may fire any value.
    pub fn map_n<F, R>(&self, f: F) -> (out: Stream<R>)
        where
            F: Fn(MaybeOwned<'_, T>, Sink<R>) + Send + Sync + 'static,
            R: Send + Sync + 'static,
        requires
            forall|arg: MaybeOwned<'_, T>, s: Sink<R>| f.requires((arg, s)),
        ensures
            forall|r: R| #[trigger] out.may_fire(r),
    {
        let (new_cbs, weak) = arc_and_weak(Callbacks::new());
        let cb = move |arg: MaybeOwned<'_, T>, from: &ListTag<T>| -> (r: (bool, Handled<(), T, Callbacks<R>>))
            requires
                accepts_with_sink(&f),
                forall|x: R| #[trigger] (weak.target().fires())(x),
            ensures
                r.0 == !(r.1 is Gone),
                r.1 matches Handled::Gone(g) ==> g.of() == weak.target(),
                r.1 is Done ==> called_with_sink(&f, arg, &weak.target()),
                !(r.1 is Foreign),
        {
            match weak.reach() {
                Ok(out) => {
                    let ghost a = arg;
                    let sk = Sink { cbs: out };
                    let ghost gsk = sk;
                    f(arg, sk);
                    proof {
                        lemma_called_with_sink(&f, a, gsk, &weak.target());
                    }
                    (true, Handled::Done(()))
                },
                Err(g) => (false, Handled::Gone(g)),
            }
        };
        self.cbs.push(CallbackBox::new(Box::new(EventCell::new(cb))));
        self.child(new_cbs)
    }

    /// Reads the values without modifying them.
    ///
    /// This is meant to be used as a debugging tool and not to cause side effects.
    pub fn inspect<F>(self, f: F) -> (out: Self)
        where
            F: Fn(MaybeOwned<'_, T>) + Send + Sync + 'static,
        requires
            forall|arg: MaybeOwned<'_, T>| f.requires((arg,)),
        ensures
            out.fires() == self.fires(),
    {
        let cb = move |arg: MaybeOwned<'_, T>, from: &ListTag<T>| -> (keep: bool)
            requires
                accepts_all(&f),
            ensures
                keep,
                called_on(&f, arg),
        {
            f(arg);
            true
        };
        self.cbs.push(CallbackBox::new(Box::new(FnCell::new(cb))));
        self
    }

    /// Registers an observer; it stays registered while its results say so.
    pub fn observe<F, O>(&self, f: F)
        where
            F: Fn(MaybeOwned<'_, T>) -> O + Send + Sync + 'static,
            O: ObserveResult,
        requires
            forall|arg: MaybeOwned<'_, T>| f.requires((arg,)),
    {
        let cb = move |arg: MaybeOwned<'_, T>, from: &ListTag<T>| -> (keep: bool)
            requires
                accepts_all(&f),
            ensures
                observed(&f, arg, keep),
        {
            let ghost a = arg;
            let o = f(arg);
            let ghost go = o;
            let keep = o.is_callback_alive();
            proof {
                lemma_observed(&f, a, go, keep);
            }
            keep
        };
        self.cbs.push(CallbackBox::new(Box::new(FnCell::new(cb))));
    }

    /// Merges two streams of different types using the provided function.
    ///
    /// The output fires exactly what `f` gives for the values of either stream.
    pub fn merge_with<U, F, R>(&self, other: &Stream<U>, f: F) -> (out: Stream<R>)
        where
            F: Fn(Either<MaybeOwned<'_, T>, MaybeOwned<'_, U>>) -> R + Send + Sync + 'static,
            U: Send + Sync + 'static,
            R: Send + Sync + 'static,
        requires
            forall|e: Either<MaybeOwned<'_, T>, MaybeOwned<'_, U>>| f.requires((e,)),
        ensures
            forall|r: R| #[trigger] out.may_fire(r) <==> merged_with(f, self.fires(), other.fires(), r),
    {
        let ghost in1 = self.fires();
        let ghost in2 = other.fires();
        let ghost g = f;
        let src1 = self.source_tag();
        let src2 = other.source_tag();
        let (new_cbs, weak1) = arc_and_weak(
            Callbacks::with_fires(Ghost(|r: R| merged_with(g, in1, in2, r))),
        );
        let weak2 = weak1.duplicate();
        let f1 = Arc::new(f);
        let f2 = f1.clone();
        let cb1 = move |arg: MaybeOwned<'_, T>, from: &ListTag<T>| -> (r: (bool, Handled<Sent<R>, T, Callbacks<R>>))
            requires
                (from.fires())(value_of(arg)),
                fires_as(&*src1, &in1),
                accepts_sides(&*f1),
                merge_with_target(&weak1.target(), &*f1, &in1, &in2),
            ensures
                handled(&r, from, &*src1, &weak1.target()),
                sided_sent(&r, Either::Left(arg), &*f1, &weak1.target()),
        {
            match weak1.reach() {
                Ok(out) => match check_tag(from, &*src1) {
                    Ok(()) => {
                        let g: &F = &*f1;
                        let e = Either::Left(arg);
                        let ghost ge = e;
                        let v = g(e);
                        proof {
                            lemma_merged_with(g, &in1, &in2, ge, v);
                        }
                        let sent = out.send(v);
                        (true, Handled::Done(sent))
                    },
                    Err(o) => (true, Handled::Foreign(o)),
                },
                Err(g) => (false, Handled::Gone(g)),
            }
        };
        let cb2 = move |arg: MaybeOwned<'_, U>, from: &ListTag<U>| -> (r: (bool, Handled<Sent<R>, U, Callbacks<R>>))
            requires
                (from.fires())(value_of(arg)),
                fires_as(&*src2, &in2),
                accepts_sides(&*f2),
                merge_with_target(&weak2.target(), &*f2, &in1, &in2),
            ensures
                handled(&r, from, &*src2, &weak2.target()),
                sided_sent(&r, Either::Right(arg), &*f2, &weak2.target()),
        {
            match weak2.reach() {
                Ok(out) => match check_tag(from, &*src2) {
                    Ok(()) => {
                        let g: &F = &*f2;
                        let e = Either::Right(arg);
                        let ghost ge = e;
                        let v = g(e);
                        proof {
                            lemma_merged_with(g, &in1, &in2, ge, v);
                        }
                        let sent = out.send(v);
                        (true, Handled::Done(sent))
                    },
                    Err(o) => (true, Handled::Foreign(o)),
                },
                Err(g) => (false, Handled::Gone(g)),
            }
        };
        self.cbs.push(CallbackBox::new(Box::new(EventCell::new(cb1))));
        other.cbs.push(CallbackBox::new(Box::new(EventCell::new(cb2))));
        Stream { cbs: new_cbs, source: keep((self.clone(), other.clone())) }
    }
}

/// Every value `st` may hold is an accumulator that folding `f` over arguments of values
/// of `input` makes of `init`, and every such accumulator may be held.
pub open spec fn folds_into<A, T, F: Fn(A, MaybeOwned<'_, T>) -> A>(
    st: &Storage<A>,
    f: &F,
    init: &A,
    input: &spec_fn(T) -> bool,
) -> bool {
    forall|a: A| #[trigger] (st.inv())(a) <==> fold_reachable(*f, *init, args_of(*input), a)
}

/// Folding one more argument of `input` into a value of a fold's storage gives a value it
/// may hold.
proof fn lemma_folds_into_step<A, T, F: Fn(A, MaybeOwned<'_, T>) -> A>(
    st: &Storage<A>,
    f: &F,
    init: &A,
    input: &spec_fn(T) -> bool,
    v: A,
    x: MaybeOwned<'_, T>,
    w: A,
)
    requires
        folds_into(st, f, init, input),
        (st.inv())(v),
        (*input)(value_of(x)),
        f.ensures((v, x), w),
    ensures
        (st.inv())(w),
{
    law_fold_step(*f, *init, args_of(*input), v, x, w);
}

/// One step of a cloning fold: `b` is what `f` makes of a clone of `a` and a valid argument.
pub open spec fn clone_fold_step<A: Clone, T, F: Fn(A, MaybeOwned<'_, T>) -> A>(
    f: F,
    valid: spec_fn(MaybeOwned<'_, T>) -> bool,
    a: A,
    b: A,
) -> bool {
    exists|c: A, x: MaybeOwned<'_, T>| #![trigger f.ensures((c, x), b)] cloned(a, c) && valid(x) && f.ensures((c, x), b)
}

/// `path` starts at `init`, and each of its values is a cloning fold step from the one before.
pub open spec fn is_clone_fold_chain<A: Clone, T, F: Fn(A, MaybeOwned<'_, T>) -> A>(
    f: F,
    valid: spec_fn(MaybeOwned<'_, T>) -> bool,
    init: A,
    path: Seq<A>,
) -> bool {
    &&& path.len() > 0
    &&& path[0] == init
    &&& forall|i: int| 0 <= i < path.len() - 1 ==> #[trigger] clone_fold_step(f, valid, path[i], path[i + 1])
}

/// `a` is what some finite chain of cloning fold steps makes of `init`.
pub open spec fn clone_fold_reachable<A: Clone, T, F: Fn(A, MaybeOwned<'_, T>) -> A>(
    f: F,
    valid: spec_fn(MaybeOwned<'_, T>) -> bool,
    init: A,
    a: A,
) -> bool {
    exists|path: Seq<A>| #[trigger] is_clone_fold_chain(f, valid, init, path) && path.last() == a
}

/// A cloning fold step from a reachable accumulator reaches its result.
pub proof fn law_clone_fold_step<A: Clone, T, F: Fn(A, MaybeOwned<'_, T>) -> A>(
    f: F,
    valid: spec_fn(MaybeOwned<'_, T>) -> bool,
    init: A,
    a: A,
    b: A,
)
    requires
        clone_fold_reachable(f, valid, init, a),
        clone_fold_step(f, valid, a, b),
    ensures
        clone_fold_reachable(f, valid, init, b),
{
    let path = choose|path: Seq<A>| #[trigger] is_clone_fold_chain(f, valid, init, path) && path.last() == a;
    let next = path.push(b);
    assert forall|i: int| 0 <= i < next.len() - 1 implies #[trigger] clone_fold_step(f, valid, next[i], next[i + 1]) by {
        if i < path.len() - 1 {
            assert(next[i] == path[i] && next[i + 1] == path[i + 1]);
        } else {
            assert(next[i] == a && next[i + 1] == b);
        }
    }
    assert(is_clone_fold_chain(f, valid, init, next));
    assert(next.last() == b);
}

/// A cloning fold starts from its initial value.
pub proof fn law_clone_fold_starts_at_initial<A: Clone, T, F: Fn(A, MaybeOwned<'_, T>) -> A>(
    f: F,
    valid: spec_fn(MaybeOwned<'_, T>) -> bool,
    init: A,
)
    ensures
        clone_fold_reachable(f, valid, init, init),
{
    let path = seq![init];
    assert(is_clone_fold_chain(f, valid, init, path));
    assert(path.last() == init);
}

/// Every value `st` may hold is an accumulator that some cloning fold chain of `f` over
/// arguments of values of `input` makes of `init`, and every such accumulator may be held.
pub open spec fn clone_folds_into<A: Clone, T, F: Fn(A, MaybeOwned<'_, T>) -> A>(
    st: &Storage<A>,
    f: &F,
    init: &A,
    input: &spec_fn(T) -> bool,
) -> bool {
    forall|a: A| #[trigger] (st.inv())(a) <==> clone_fold_reachable(*f, args_of(*input), *init, a)
}

/// Folding an argument of `input` into a clone of a value of a cloning fold's storage
/// gives a value it may hold.
proof fn lemma_clone_folds_into_step<A: Clone, T, F: Fn(A, MaybeOwned<'_, T>) -> A>(
    st: &Storage<A>,
    f: &F,
    init: &A,
    input: &spec_fn(T) -> bool,
    v: A,
    c: A,
    x: MaybeOwned<'_, T>,
    w: A,
)
    requires
        clone_folds_into(st, f, init, input),
        (st.inv())(v),
        cloned(v, c),
        (*input)(value_of(x)),
        f.ensures((c, x), w),
    ensures
        (st.inv())(w),
{
    assert(clone_fold_step(*f, args_of(*input), v, w));
    law_clone_fold_step(*f, args_of(*input), *init, v, w);
}

impl<T: Send + Sync + 'static> Stream<T> {
    /// Accumulates the values sent over this stream.
    ///
    /// The accumulator is taken out of its storage, transformed, and put back, so the
    /// fold itself never clones it. Sampling the signal gives a clone of what folding `f`
    /// over values this stream fired made of `initial`.
    pub fn fold<A, F>(&self, initial: A, f: F) -> (out: Signal<A>)
        where
            F: Fn(A, MaybeOwned<'_, T>) -> A + Send + Sync + 'static,
            A: Clone + Send + Sync + 'static,
        requires
            forall|a: A, arg: MaybeOwned<'_, T>| f.requires((a, arg)),
        ensures
            !out.is_constant(),
            forall|r: A|
                out.samples(r) <==> exists|a: A|
                    #![trigger fold_reachable(f, initial, args_of(self.fires()), a)]
                    fold_reachable(f, initial, args_of(self.fires()), a) && cloned(a, r),
    {
        let ghost init = initial;
        let ghost g = f;
        let ghost inp = self.fires();
        let ghost inv = |a: A| fold_reachable(g, init, args_of(inp), a);
        proof {
            law_fold_starts_at_initial(g, init, args_of(inp));
        }
        let src = self.source_tag();
        let (storage, weak) = arc_and_weak(Storage::with_invariant(initial, Ghost(inv)));
        let cb = move |arg: MaybeOwned<'_, T>, from: &ListTag<T>| -> (r: (bool, Handled<Stored<A>, T, Storage<A>>))
            requires
                (from.fires())(value_of(arg)),
                fires_as(&*src, &inp),
                accepts_pairs(&f),
                folds_into(&weak.target(), &f, &init, &inp),
            ensures
                handled(&r, from, &*src, &weak.target()),
                folded_once(&r, arg, &f, &weak.target()),
        {
            match weak.reach() {
                Ok(st) => match check_tag(from, &*src) {
                    Ok(()) => {
                        let fr = &f;
                        let ghost x = arg;
                        let step = move |old: A| -> (new: A)
                            requires
                                accepts_pairs(fr),
                            ensures
                                fr.ensures((old, x), new),
                        { fr(old, arg) };
                        assert forall|v: A, w: A| (st.inv())(v) && step.ensures((v,), w) implies (st.inv())(w) by {
                            lemma_folds_into_step(&*st, fr, &init, &inp, v, x, w);
                        }
                        let stored = st.replace(step);
                        proof {
                            let old = choose|old: A| #![trigger step.ensures((old,), stored.value())] (st.inv())(old) && step.ensures((old,), stored.value());
                            lemma_folded_once(fr, x, old, stored);
                        }
                        (true, Handled::Done(stored))
                    },
                    Err(o) => (true, Handled::Foreign(o)),
                },
                Err(g) => (false, Handled::Gone(g)),
            }
        };
        self.cbs.push(CallbackBox::new(Box::new(EventCell::new(cb))));
        let out = Signal::from_storage(storage, self.clone());
        assert forall|r: A|
            out.samples(r) <==> exists|a: A|
                #![trigger fold_reachable(f, initial, args_of(self.fires()), a)]
                fold_reachable(f, initial, args_of(self.fires()), a) && cloned(a, r) by {
            if out.samples(r) {
                let v = choose|v: A| #![trigger (storage.inv())(v)] (storage.inv())(v) && cloned(v, r);
                assert(fold_reachable(f, initial, args_of(self.fires()), v));
            }
            if exists|a: A|
                #![trigger fold_reachable(f, initial, args_of(self.fires()), a)]
                fold_reachable(f, initial, args_of(self.fires()), a) && cloned(a, r) {
                let a = choose|a: A|
                    #![trigger fold_reachable(f, initial, args_of(self.fires()), a)]
                    fold_reachable(f, initial, args_of(self.fires()), a) && cloned(a, r);
                assert((storage.inv())(a));
            }
        }
        out
    }

    /// Folds the stream, giving the closure a clone of the accumulator.
    ///
    /// Readers of the signal are not blocked while the closure runs. Sampling the signal
    /// gives a clone of what a chain of folds, each applying `f` to a clone of the
    /// accumulator and a value this stream fired, made of `initial`.
    pub fn fold_clone<A, F>(&self, initial: A, f: F) -> (out: Signal<A>)
        where
            F: Fn(A, MaybeOwned<'_, T>) -> A + Send + Sync + 'static,
            A: Clone + Send + Sync + 'static,
        requires
            forall|a: A, arg: MaybeOwned<'_, T>| f.requires((a, arg)),
        ensures
            !out.is_constant(),
            forall|r: A|
                out.samples(r) <==> exists|a: A|
                    #![trigger clone_fold_reachable(f, args_of(self.fires()), initial, a)]
                    clone_fold_reachable(f, args_of(self.fires()), initial, a) && cloned(a, r),
    {
        let ghost init = initial;
        let ghost g = f;
        let ghost inp = self.fires();
        let ghost inv = |a: A| clone_fold_reachable(g, args_of(inp), init, a);
        proof {
            law_clone_fold_starts_at_initial(g, args_of(inp), init);
        }
        let src = self.source_tag();
        let (storage, weak) = arc_and_weak(Storage::with_invariant(initial, Ghost(inv)));
        let cb = move |arg: MaybeOwned<'_, T>, from: &ListTag<T>| -> (r: (bool, Handled<Stored<A>, T, Storage<A>>))
            requires
                (from.fires())(value_of(arg)),
                fires_as(&*src, &inp),
                accepts_pairs(&f),
                clone_folds_into(&weak.target(), &f, &init, &inp),
            ensures
                handled(&r, from, &*src, &weak.target()),
                clone_folded_once(&r, arg, &f, &weak.target()),
        {
            match weak.reach() {
                Ok(st) => match check_tag(from, &*src) {
                    Ok(()) => {
                        let fr = &f;
                        let ghost x = arg;
                        let step = move |c: A| -> (new: A)
                            requires
                                accepts_pairs(fr),
                            ensures
                                fr.ensures((c, x), new),
                        { fr(c, arg) };
                        assert forall|v: A, c: A, w: A|
                            (st.inv())(v) && cloned(v, c) && step.ensures((c,), w) implies (st.inv())(w) by {
                            lemma_clone_folds_into_step(&*st, fr, &init, &inp, v, c, x, w);
                        }
                        let stored = st.replace_clone(step);
                        proof {
                            let (old, c) = choose|old: A, c: A|
                                #![trigger step.ensures((c,), stored.value()), cloned(old, c)]
                                (st.inv())(old) && cloned(old, c) && step.ensures((c,), stored.value());
                            lemma_clone_folded_once(fr, x, old, c, stored);
                        }
                        (true, Handled::Done(stored))
                    },
                    Err(o) => (true, Handled::Foreign(o)),
                },
                Err(g) => (false, Handled::Gone(g)),
            }
        };
        self.cbs.push(CallbackBox::new(Box::new(EventCell::new(cb))));
        let out = Signal::from_storage(storage, self.clone());
        assert forall|r: A|
            out.samples(r) <==> exists|a: A|
                #![trigger clone_fold_reachable(f, args_of(self.fires()), initial, a)]
                clone_fold_reachable(f, args_of(self.fires()), initial, a) && cloned(a, r) by {
            if out.samples(r) {
                let v = choose|v: A| #![trigger (storage.inv())(v)] (storage.inv())(v) && cloned(v, r);
                assert(clone_fold_reachable(f, args_of(self.fires()), initial, v));
            }
            if exists|a: A|
                #![trigger clone_fold_reachable(f, args_of(self.fires()), initial, a)]
                clone_fold_reachable(f, args_of(self.fires()), initial, a) && cloned(a, r) {
                let a = choose|a: A|
                    #![trigger clone_fold_reachable(f, args_of(self.fires()), initial, a)]
                    clone_fold_reachable(f, args_of(self.fires()), initial, a) && cloned(a, r);
                assert((storage.inv())(a));
            }
        }
        out
    }
}

/// One of the two output streams of a split.
pub enum SplitSide {
    /// The stream of first-variant values.
    First,
    /// The stream of second-variant values.
    Second,
}

/// What a split callback does with one value.
pub struct SplitStep {
    /// The output stream the value is sent to, if any.
    pub deliver: Option<SplitSide>,
    /// Whether the callback stays registered on the input stream.
    pub keep: bool,
}

/// Decides where a split sends a value of the sum type, and whether it keeps listening.
///
/// The value goes to the output stream of its variant when that stream is still alive;
/// the callback is dropped only once both output streams are gone.
pub fn split_step(is_first: bool, first_alive: bool, second_alive: bool) -> (s: SplitStep)
    ensures
        s.deliver == (if is_first && first_alive {
            Some(SplitSide::First)
        } else if !is_first && second_alive {
            Some(SplitSide::Second)
        } else {
            None::<SplitSide>
        }),
        s.keep == (first_alive || second_alive),
{
    if is_first {
        if first_alive {
            SplitStep { deliver: Some(SplitSide::First), keep: true }
        } else {
            SplitStep { deliver: None, keep: second_alive }
        }
    } else {
        if second_alive {
            SplitStep { deliver: Some(SplitSide::Second), keep: true }
        } else {
            SplitStep { deliver: None, keep: first_alive }
        }
    }
}

/// `v` may be held by `hold`: the initial value, or a clone of a value the stream fired.
pub open spec fn held_value<T: Clone>(input: spec_fn(T) -> bool, initial: T, v: T) -> bool {
    ||| v == initial
    ||| exists|x: T| #![trigger input(x), cloned(x, v)] input(x) && cloned(x, v)
}

/// `v` may be held by `hold_if`: the initial value, or a clone of a value the stream fired
/// and the predicate accepted.
pub open spec fn held<T: Clone, P: Fn(&T) -> bool>(pred: P, input: spec_fn(T) -> bool, initial: T, v: T) -> bool {
    ||| v == initial
    ||| exists|x: T| #![trigger pred.ensures((&x,), true)] input(x) && pred.ensures((&x,), true) && cloned(x, v)
}

/// Every value `st` may hold is one `hold` may hold, and every such value may be held.
pub open spec fn holds_value_into<T: Clone>(st: &Storage<T>, input: &spec_fn(T) -> bool, initial: &T) -> bool {
    forall|v: T| #[trigger] (st.inv())(v) <==> held_value(*input, *initial, v)
}

/// Every value `st` may hold is one `hold_if` may hold, and every such value may be held.
pub open spec fn holds_into<T: Clone, P: Fn(&T) -> bool>(
    st: &Storage<T>,
    pred: &P,
    input: &spec_fn(T) -> bool,
    initial: &T,
) -> bool {
    forall|v: T| #[trigger] (st.inv())(v) <==> held(*pred, *input, *initial, v)
}

/// Taking ownership of an argument of `input` gives a value `hold` may hold.
proof fn lemma_holds_value_step<T: Clone>(
    st: &Storage<T>,
    input: &spec_fn(T) -> bool,
    initial: &T,
    arg: MaybeOwned<'_, T>,
    v: T,
)
    requires
        holds_value_into(st, input, initial),
        (*input)(value_of(arg)),
        owned_from(arg, v),
    ensures
        (st.inv())(v),
{
    let x = value_of(arg);
    assert(cloned(x, v));
    assert(held_value(*input, *initial, v));
}

/// Taking ownership of an argument of `input` the predicate accepted gives a value
/// `hold_if` may hold.
proof fn lemma_holds_into_step<T: Clone, P: Fn(&T) -> bool>(
    st: &Storage<T>,
    pred: &P,
    input: &spec_fn(T) -> bool,
    initial: &T,
    arg: MaybeOwned<'_, T>,
    r: &T,
    v: T,
)
    requires
        holds_into(st, pred, input, initial),
        *r == value_of(arg),
        (*input)(value_of(arg)),
        pred.ensures((r,), true),
        owned_from(arg, v),
    ensures
        (st.inv())(v),
{
    let x = value_of(arg);
    assert((*pred).ensures((&x,), true));
    assert(cloned(x, v));
    assert(held(*pred, *input, *initial, v));
}

impl<T: Clone + Send + Sync + 'static> Stream<T> {
    /// Creates a Signal that holds the last value sent to this stream.
    ///
    /// Sampling it gives a clone of `initial` or of (a clone of) a value this stream fired.
    pub fn hold(&self, initial: T) -> (out: Signal<T>)
        ensures
            !out.is_constant(),
            forall|r: T|
                out.samples(r) <==> exists|v: T|
                    #![trigger held_value(self.fires(), initial, v)]
                    held_value(self.fires(), initial, v) && cloned(v, r),
    {
        let ghost init = initial;
        let ghost inp = self.fires();
        let ghost inv = |v: T| held_value(inp, init, v);
        let src = self.source_tag();
        let (storage, weak) = arc_and_weak(Storage::with_invariant(initial, Ghost(inv)));
        let cb = move |arg: MaybeOwned<'_, T>, from: &ListTag<T>| -> (r: (bool, Handled<Stored<T>, T, Storage<T>>))
            requires
                (from.fires())(value_of(arg)),
                fires_as(&*src, &inp),
                holds_value_into(&weak.target(), &inp, &init),
            ensures
                handled(&r, from, &*src, &weak.target()),
                stored_clone(&r, arg, &weak.target()),
        {
            match weak.reach() {
                Ok(st) => match check_tag(from, &*src) {
                    Ok(()) => {
                        let ghost a = arg;
                        let v = into_owned(arg);
                        proof {
                            lemma_holds_value_step(&*st, &inp, &init, a, v);
                        }
                        let stored = st.set(v);
                        (true, Handled::Done(stored))
                    },
                    Err(o) => (true, Handled::Foreign(o)),
                },
                Err(g) => (false, Handled::Gone(g)),
            }
        };
        self.cbs.push(CallbackBox::new(Box::new(EventCell::new(cb))));
        let out = Signal::from_storage(storage, self.clone());
        assert forall|r: T|
            out.samples(r) <==> exists|v: T|
                #![trigger held_value(self.fires(), initial, v)]
                held_value(self.fires(), initial, v) && cloned(v, r) by {
            if out.samples(r) {
                let v = choose|v: T| #![trigger (storage.inv())(v)] (storage.inv())(v) && cloned(v, r);
                assert(held_value(self.fires(), initial, v));
            }
            if exists|v: T| #![trigger held_value(self.fires(), initial, v)] held_value(self.fires(), initial, v) && cloned(v, r) {
                let v = choose|v: T| #![trigger held_value(self.fires(), initial, v)] held_value(self.fires(), initial, v) && cloned(v, r);
                assert((storage.inv())(v));
            }
        }
        out
    }

    /// Holds the last value in this stream where the predicate is `true`.
    ///
    /// Sampling it gives a clone of `initial`, or of (a clone of) a value this stream
    /// fired and the predicate accepted.
    pub fn hold_if<F>(&self, initial: T, pred: F) -> (out: Signal<T>)
        where
            F: Fn(&T) -> bool + Send + Sync + 'static,
        requires
            forall|x: &T| pred.requires((x,)),
        ensures
            !out.is_constant(),
            forall|r: T|
                out.samples(r) <==> exists|v: T|
                    #![trigger held(pred, self.fires(), initial, v)]
                    held(pred, self.fires(), initial, v) && cloned(v, r),
    {
        let ghost init = initial;
        let ghost p = pred;
        let ghost inp = self.fires();
        let ghost inv = |v: T| held(p, inp, init, v);
        let src = self.source_tag();
        let (storage, weak) = arc_and_weak(Storage::with_invariant(initial, Ghost(inv)));
        let cb = move |arg: MaybeOwned<'_, T>, from: &ListTag<T>| -> (r: (bool, Handled<Option<Stored<T>>, T, Storage<T>>))
            requires
                (from.fires())(value_of(arg)),
                fires_as(&*src, &inp),
                accepts_refs(&pred),
                holds_into(&weak.target(), &pred, &inp, &init),
            ensures
                handled(&r, from, &*src, &weak.target()),
                held_if_stored(&r, arg, &pred, &weak.target()),
        {
            match weak.reach() {
                Ok(st) => match check_tag(from, &*src) {
                    Ok(()) => {
                        let rf = value_ref(&arg);
                        let accepted = pred(rf);
                        if accepted {
                            let ghost a = arg;
                            let v = into_owned(arg);
                            proof {
                                lemma_holds_into_step(&*st, &pred, &inp, &init, a, rf, v);
                            }
                            let stored = st.set(v);
                            (true, Handled::Done(Some(stored)))
                        } else {
                            (true, Handled::Done(None))
                        }
                    },
                    Err(o) => (true, Handled::Foreign(o)),
                },
                Err(g) => (false, Handled::Gone(g)),
            }
        };
        self.cbs.push(CallbackBox::new(Box::new(EventCell::new(cb))));
        let out = Signal::from_storage(storage, self.clone());
        assert forall|r: T|
            out.samples(r) <==> exists|v: T|
                #![trigger held(pred, self.fires(), initial, v)]
                held(pred, self.fires(), initial, v) && cloned(v, r) by {
            if out.samples(r) {
                let v = choose|v: T| #![trigger (storage.inv())(v)] (storage.inv())(v) && cloned(v, r);
                assert(held(pred, self.fires(), initial, v));
            }
            if exists|v: T| #![trigger held(pred, self.fires(), initial, v)] held(pred, self.fires(), initial, v) && cloned(v, r) {
                let v = choose|v: T| #![trigger held(pred, self.fires(), initial, v)] held(pred, self.fires(), initial, v) && cloned(v, r);
                assert((storage.inv())(v));
            }
        }
        out
    }

    /// Creates a channel and sends the stream events through it.
    ///
    /// The callback stays registered while the receiver exists.
    pub fn channel(&self) -> std::sync::mpsc::Receiver<T> {
        let (tx, rx) = new_channel();
        let cb = move |arg: MaybeOwned<'_, T>, from: &ListTag<T>| -> (r: (bool, Posted<T>))
            ensures
                cloned(value_of(arg), r.1.value()),
                posted_to(&r.1, &tx),
                r.0 == r.1.was_accepted(),
        {
            let ghost a = arg;
            let posted = post(&tx, into_owned(arg));
            (posted.accepted(), posted)
        };
        self.cbs.push(CallbackBox::new(Box::new(EventCell::new(cb))));
        rx
    }
}

/// `y` is the content of the first variant of a clone of a value of `input`.
pub open spec fn first_part<T: SumType2 + Clone>(input: spec_fn(T) -> bool, y: T::Type1) -> bool {
    exists|x: T, c: T| #![trigger input(x), first_of(c)] input(x) && cloned(x, c) && first_of(c) == Some(y)
}

/// `z` is the content of the second variant of a clone of a value of `input`.
pub open spec fn second_part<T: SumType2 + Clone>(input: spec_fn(T) -> bool, z: T::Type2) -> bool {
    exists|x: T, c: T| #![trigger input(x), second_of(c)] input(x) && cloned(x, c) && second_of(c) == Some(z)
}

/// Every first part of a value of `input` may be fired by `out`.
pub open spec fn first_target<T: SumType2 + Clone>(out: &Callbacks<T::Type1>, input: &spec_fn(T) -> bool) -> bool {
    forall|y: T::Type1| #[trigger] first_part(*input, y) ==> (out.fires())(y)
}

/// Every second part of a value of `input` may be fired by `out`.
pub open spec fn second_target<T: SumType2 + Clone>(out: &Callbacks<T::Type2>, input: &spec_fn(T) -> bool) -> bool {
    forall|z: T::Type2| #[trigger] second_part(*input, z) ==> (out.fires())(z)
}

/// The first part of a clone of a value of `input` is a first part.
proof fn lemma_first_part<T: SumType2 + Clone>(input: &spec_fn(T) -> bool, x: T, c: T, y: T::Type1)
    requires
        (*input)(x),
        cloned(x, c),
        first_of(c) == Some(y),
    ensures
        first_part(*input, y),
{
}

/// The second part of a clone of a value of `input` is a second part.
proof fn lemma_second_part<T: SumType2 + Clone>(input: &spec_fn(T) -> bool, x: T, c: T, z: T::Type2)
    requires
        (*input)(x),
        cloned(x, c),
        second_of(c) == Some(z),
    ensures
        second_part(*input, z),
{
}

impl<T: Clone + Send + Sync + 'static> Stream<Option<T>> {
    /// Filters a stream of `Option`, returning the unwrapped `Some` values.
    pub fn filter_some(&self) -> (out: Stream<T>)
        ensures
            forall|y: T| #[trigger] out.may_fire(y) <==> first_part(self.fires(), y),
    {
        self.filter_first()
    }
}

impl<T: SumType2 + Clone + Send + Sync + 'static> Stream<T> where
    T::Type1: Send + Sync + 'static,
    T::Type2: Send + Sync + 'static,
 {
    /// Creates a stream with only the first element of a sum type.
    ///
    /// The output fires exactly the first-variant contents of values of this stream.
    pub fn filter_first(&self) -> (out: Stream<T::Type1>)
        ensures
            forall|y: T::Type1| #[trigger] out.may_fire(y) <==> first_part(self.fires(), y),
    {
        let ghost inp = self.fires();
        let src = self.source_tag();
        let (new_cbs, weak) = arc_and_weak(Callbacks::with_fires(Ghost(|y: T::Type1| first_part(inp, y))));
        let cb = move |res: MaybeOwned<'_, T>, from: &ListTag<T>| -> (r: (bool, Handled<Option<Sent<T::Type1>>, T, Callbacks<T::Type1>>))
            requires
                (from.fires())(value_of(res)),
                fires_as(&*src, &inp),
                first_target(&weak.target(), &inp),
            ensures
                handled(&r, from, &*src, &weak.target()),
                first_sent(&r, res, &weak.target()),
        {
            match weak.reach() {
                Ok(out) => match check_tag(from, &*src) {
                    Ok(()) => {
                        if value_ref(&res).is_type1() {
                            let ghost x = value_of(res);
                            let c = into_owned(res);
                            let ghost gc = c;
                            match c.into_type1() {
                                Some(v) => {
                                    proof {
                                        lemma_first_part(&inp, x, gc, v);
                                    }
                                    let sent = out.send(v);
                                    (true, Handled::Done(Some(sent)))
                                },
                                None => (true, Handled::Done(None)),
                            }
                        } else {
                            (true, Handled::Done(None))
                        }
                    },
                    Err(o) => (true, Handled::Foreign(o)),
                },
                Err(g) => (false, Handled::Gone(g)),
            }
        };
        self.cbs.push(CallbackBox::new(Box::new(EventCell::new(cb))));
        self.child(new_cbs)
    }

    /// Creates a stream with only the second element of a sum type.
    ///
    /// The output fires exactly the second-variant contents of values of this stream.
    pub fn filter_second(&self) -> (out: Stream<T::Type2>)
        ensures
            forall|z: T::Type2| #[trigger] out.may_fire(z) <==> second_part(self.fires(), z),
    {
        let ghost inp = self.fires();
        let src = self.source_tag();
        let (new_cbs, weak) = arc_and_weak(Callbacks::with_fires(Ghost(|z: T::Type2| second_part(inp, z))));
        let cb = move |res: MaybeOwned<'_, T>, from: &ListTag<T>| -> (r: (bool, Handled<Option<Sent<T::Type2>>, T, Callbacks<T::Type2>>))
            requires
                (from.fires())(value_of(res)),
                fires_as(&*src, &inp),
                second_target(&weak.target(), &inp),
            ensures
                handled(&r, from, &*src, &weak.target()),
                second_sent(&r, res, &weak.target()),
        {
            match weak.reach() {
                Ok(out) => match check_tag(from, &*src) {
                    Ok(()) => {
                        if value_ref(&res).is_type2() {
                            let ghost x = value_of(res);
                            let c = into_owned(res);
                            let ghost gc = c;
                            match c.into_type2() {
                                Some(v) => {
                                    proof {
                                        lemma_second_part(&inp, x, gc, v);
                                    }
                                    let sent = out.send(v);
                                    (true, Handled::Done(Some(sent)))
                                },
                                None => (true, Handled::Done(None)),
                            }
                        } else {
                            (true, Handled::Done(None))
                        }
                    },
                    Err(o) => (true, Handled::Foreign(o)),
                },
                Err(g) => (false, Handled::Gone(g)),
            }
        };
        self.cbs.push(CallbackBox::new(Box::new(EventCell::new(cb))));
        self.child(new_cbs)
    }

    /// Splits a two element sum type stream into two streams with the unwrapped values.
    ///
    /// The first output fires exactly the first-variant contents of values of this stream,
    /// the second the second-variant ones. Each value goes to the output stream of its
    /// variant while that stream lives; the input is listened to until both outputs are gone.
    pub fn split(&self) -> (outs: (Stream<T::Type1>, Stream<T::Type2>))
        ensures
            forall|y: T::Type1| #[trigger] outs.0.may_fire(y) <==> first_part(self.fires(), y),
            forall|z: T::Type2| #[trigger] outs.1.may_fire(z) <==> second_part(self.fires(), z),
    {
        let ghost inp = self.fires();
        let src = self.source_tag();
        let (cbs_1, weak_1) = arc_and_weak(Callbacks::with_fires(Ghost(|y: T::Type1| first_part(inp, y))));
        let (cbs_2, weak_2) = arc_and_weak(Callbacks::with_fires(Ghost(|z: T::Type2| second_part(inp, z))));
        let cb = move |result: MaybeOwned<'_, T>, from: &ListTag<T>| -> (r: (bool, Result<SplitDone<T::Type1, T::Type2>, OtherList<T>>))
            requires
                (from.fires())(value_of(result)),
                fires_as(&*src, &inp),
                first_target(&weak_1.target(), &inp),
                second_target(&weak_2.target(), &inp),
            ensures
                r.1 matches Err(o) ==> r.0 && o.got() == *from && o.expected() == *src,
                r.1 matches Ok(d) ==> split_routed(r.0, d, result, &weak_1.target(), &weak_2.target()),
        {
            match check_tag(from, &*src) {
                Err(o) => (true, Err(o)),
                Ok(()) => {
                    let ghost x = value_of(result);
                    if value_ref(&result).is_type1() {
                        match weak_1.reach() {
                            Ok(out) => {
                                let c = into_owned(result);
                                let ghost gc = c;
                                match c.into_type1() {
                                    Some(v) => {
                                        proof {
                                            lemma_first_part(&inp, x, gc, v);
                                        }
                                        let sent = out.send(v);
                                        (true, Ok(SplitDone::First(sent)))
                                    },
                                    None => {
                                        assert(cloned(x, gc) && ((first_of(gc) is Some) != (first_of(x) is Some)));
                                        (true, Ok(SplitDone::Unrouted))
                                    },
                                }
                            },
                            Err(g1) => match weak_2.reach() {
                                Ok(_) => (true, Ok(SplitDone::FirstGone(g1, None))),
                                Err(g2) => (false, Ok(SplitDone::FirstGone(g1, Some(g2)))),
                            },
                        }
                    } else {
                        match weak_2.reach() {
                            Ok(out) => {
                                let c = into_owned(result);
                                let ghost gc = c;
                                match c.into_type2() {
                                    Some(v) => {
                                        proof {
                                            lemma_second_part(&inp, x, gc, v);
                                        }
                                        let sent = out.send(v);
                                        (true, Ok(SplitDone::Second(sent)))
                                    },
                                    None => {
                                        assert(cloned(x, gc) && ((first_of(gc) is Some) != (first_of(x) is Some)));
                                        (true, Ok(SplitDone::Unrouted))
                                    },
                                }
                            },
                            Err(g2) => match weak_1.reach() {
                                Ok(_) => (true, Ok(SplitDone::SecondGone(g2, None))),
                                Err(g1) => (false, Ok(SplitDone::SecondGone(g2, Some(g1)))),
                            },
                        }
                    }
                },
            }
        };
        self.cbs.push(CallbackBox::new(Box::new(EventCell::new(cb))));
        let source = keep(self.clone());
        let stream_1 = Stream { cbs: cbs_1, source: source.clone() };
        let stream_2 = Stream { cbs: cbs_2, source };
        (stream_1, stream_2)
    }
}

/// `x` may be fired by some stream of `input`.
pub open spec fn switched<T>(input: spec_fn(Stream<T>) -> bool, x: T) -> bool {
    exists|s: Stream<T>| #![trigger input(s), s.may_fire(x)] input(s) && s.may_fire(x)
}

/// Every value a stream of `input` may fire may be fired by `out`.
pub open spec fn switch_target<T>(out: &Callbacks<T>, input: &spec_fn(Stream<T>) -> bool) -> bool {
    forall|x: T| #[trigger] switched(*input, x) ==> (out.fires())(x)
}

/// A stream of `input` feeds what it fires into the output of a switch.
proof fn lemma_switch_feeds<T>(out: &Callbacks<T>, input: &spec_fn(Stream<T>) -> bool, s: Stream<T>)
    requires
        switch_target(out, input),
        (*input)(s),
    ensures
        pass_target(out, &s.fires()),
{
    assert forall|x: T| #[trigger] (s.fires())(x) implies (out.fires())(x) by {
        assert(s.may_fire(x));
        assert(switched(*input, x));
    }
}

impl<T: Send + Sync + 'static> Stream<Stream<T>> {
    /// Listens to the events from the last stream sent to a nested stream.
    ///
    /// The output fires exactly values that the streams of this stream may fire. Every
    /// stream sent gets a number one above the last; a forwarding callback registered on
    /// an earlier stream drops itself once a later one has arrived.
    pub fn switch(&self) -> (out: Stream<T>)
        ensures
            forall|x: T| #[trigger] out.may_fire(x) <==> switched(self.fires(), x),
    {
        let ghost inp = self.fires();
        let src = self.source_tag();
        let (new_cbs, weak) = arc_and_weak(Callbacks::with_fires(Ghost(|x: T| switched(inp, x))));
        let id = Arc::new(Mutex::new(0u64));
        let cb = move |stream: MaybeOwned<'_, Stream<T>>, from: &ListTag<Stream<T>>| -> (keep: bool)
            requires
                (from.fires())(value_of(stream)),
                fires_as(&*src, &inp),
                forall|v: u64| #[trigger] (id.inv())(v),
                switch_target(&weak.target(), &inp),
        {
            if weak.upgrade().is_none() {
                return false;
            }
            if !is_tag(from, &*src) {
                return true;
            }
            let inner_stream = value_ref(&stream);
            let ghost s = *inner_stream;
            let ghost sf = s.fires();
            let inner_src = inner_stream.source_tag();
            let cbs_w = weak.duplicate();
            proof {
                lemma_switch_feeds(&weak.target(), &inp, s);
            }
            let cur_id = id.clone();
            let (last, guard) = id.lock();
            let my_id = last.wrapping_add(1);
            guard.unlock(my_id);
            let inner = move |arg: MaybeOwned<'_, T>, from: &ListTag<T>| -> (keep: bool)
                requires
                    (from.fires())(value_of(arg)),
                    fires_as(&*inner_src, &sf),
                    forall|v: u64| #[trigger] (cur_id.inv())(v),
                    pass_target(&cbs_w.target(), &sf),
            {
                let (now, guard) = cur_id.lock();
                guard.unlock(now);
                if my_id != now {
                    return false;
                }
                match cbs_w.upgrade() {
                    Some(out) => {
                        if is_tag(from, &*inner_src) {
                            let _ = out.call(arg);
                        }
                        true
                    },
                    None => false,
                }
            };
            inner_stream.cbs.push(CallbackBox::new(Box::new(FnCell::new(inner))));
            true
        };
        self.cbs.push(CallbackBox::new(Box::new(FnCell::new(cb))));
        self.child(new_cbs)
    }
}

/// `r` is what `f` gives for a value `samples` admits and an argument of `input`.
pub open spec fn snapped<T, S, R, F: Fn(T, MaybeOwned<'_, S>) -> R>(
    samples: spec_fn(T) -> bool,
    f: F,
    input: spec_fn(S) -> bool,
    r: R,
) -> bool {
    exists|v: T, a: MaybeOwned<'_, S>| #[trigger] f.ensures((v, a), r) && samples(v) && input(value_of(a))
}

/// Every value `f` gives for a sample of `sig` and an argument of `input` may be fired by
/// `out`.
pub open spec fn snapshot_target<T: Clone, S, R, F: Fn(T, MaybeOwned<'_, S>) -> R>(
    out: &Callbacks<R>,
    sig: &Signal<T>,
    f: &F,
    input: &spec_fn(S) -> bool,
) -> bool {
    forall|r: R| #[trigger] snapped(sig.sample_set(), *f, *input, r) ==> (out.fires())(r)
}

/// A call of `f` on a sample and an argument of `input` gives a snapped value.
proof fn lemma_snapped<T: Clone, S, R, F: Fn(T, MaybeOwned<'_, S>) -> R>(
    sig: &Signal<T>,
    f: &F,
    input: &spec_fn(S) -> bool,
    v: T,
    a: MaybeOwned<'_, S>,
    r: R,
)
    requires
        (*f).ensures((v, a), r),
        sig.samples(v),
        (*input)(value_of(a)),
    ensures
        snapped(sig.sample_set(), *f, *input, r),
{
    assert((sig.sample_set())(v));
}

impl<T: Clone + Send + Sync + 'static> Signal<T> {
    /// Samples the value of this signal every time the trigger stream fires.
    ///
    /// The output fires exactly what `f` gives for a sample of this signal and a value the
    /// trigger fired. A constant signal is sampled from a copy of its value.
    pub fn snapshot<S, F, R>(&self, trigger: &Stream<S>, f: F) -> (out: Stream<R>)
        where
            F: Fn(T, MaybeOwned<'_, S>) -> R + Send + Sync + 'static,
            S: Send + Sync + 'static,
            R: Send + Sync + 'static,
        requires
            forall|v: T, arg: MaybeOwned<'_, S>| f.requires((v, arg)),
        ensures
            !self.is_constant() ==> forall|r: R|
                #[trigger] out.may_fire(r) <==> snapped(self.sample_set(), f, trigger.fires(), r),
            self.constant_value() matches Some(v) ==> exists|c: T|
                #![trigger clones_of(c)]
                cloned(v, c) && forall|r: R|
                    #[trigger] out.may_fire(r) <==> snapped(clones_of(c), f, trigger.fires(), r),
    {
        let sig = self.clone();
        let ghost sg = sig;
        let ghost g = f;
        let ghost inp = trigger.fires();
        let src = trigger.source_tag();
        let (new_cbs, weak) = arc_and_weak(
            Callbacks::with_fires(Ghost(|r: R| snapped(sg.sample_set(), g, inp, r))),
        );
        let cb = move |t: MaybeOwned<'_, S>, from: &ListTag<S>| -> (r: (bool, Handled<Sent<R>, S, Callbacks<R>>))
            requires
                (from.fires())(value_of(t)),
                fires_as(&*src, &inp),
                accepts_pairs(&f),
                snapshot_target(&weak.target(), &sig, &f, &inp),
            ensures
                handled(&r, from, &*src, &weak.target()),
                snapped_sent(&r, t, &sig, &f, &weak.target()),
        {
            match weak.reach() {
                Ok(out) => match check_tag(from, &*src) {
                    Ok(()) => {
                        let v = sig.sample();
                        let ghost a = t;
                        let x = f(v, t);
                        proof {
                            lemma_snapped(&sig, &f, &inp, v, a, x);
                        }
                        let sent = out.send(x);
                        proof {
                            lemma_snapped_sent(&sig, &f, v, a, sent, &weak.target());
                        }
                        (true, Handled::Done(sent))
                    },
                    Err(o) => (true, Handled::Foreign(o)),
                },
                Err(g) => (false, Handled::Gone(g)),
            }
        };
        trigger.cbs.push(CallbackBox::new(Box::new(EventCell::new(cb))));
        let out = trigger.child(new_cbs);
        proof {
            if !self.is_constant() {
                assert(sg == *self);
            } else {
                let c = sg.constant_value()->0;
                assert(sg.sample_set() =~= clones_of(c));
                assert(cloned(self.constant_value()->0, c));
            }
        }
        out
    }
}

/// What `hold` does with a value does not depend on the form it arrives in: when its
/// callback did its work for `x` handed over owned, and for `x` handed over by reference,
/// it stored a clone of `x` into the hold's cell both times.
pub proof fn law_hold_stores_either_form<T: Clone, G>(
    x: T,
    owned: (bool, Handled<Stored<T>, T, G>),
    borrowed: (bool, Handled<Stored<T>, T, G>),
    cell: Storage<T>,
)
    requires
        stored_clone(&owned, MaybeOwned::Owned(x), &cell),
        stored_clone(&borrowed, MaybeOwned::Borrowed(&x), &cell),
        owned.1 is Done,
        borrowed.1 is Done,
    ensures
        cloned(x, owned.1->Done_0.value()) && owned.1->Done_0.cell() == cell,
        cloned(x, borrowed.1->Done_0.value()) && borrowed.1->Done_0.cell() == cell,
{
}

/// A callback that keeps listening has either done its work or seen a value from a list
/// other than its source; one that stops has evidence that what it feeds is gone.
pub proof fn law_handled_outcomes<P, T, G>(r: (bool, Handled<P, T, G>), from: ListTag<T>, src: ListTag<T>, target: G)
    requires
        handled(&r, &from, &src, &target),
    ensures
        r.0 ==> (r.1 is Done || (r.1 matches Handled::Foreign(o) && o.got() == from && o.expected() == src)),
        !r.0 ==> (r.1 matches Handled::Gone(g) && g.of() == target),
{
}

/// What `merge` does with a value does not depend on the form it arrives in: owned or
/// borrowed, the value itself is sent through the merged stream.
pub proof fn law_merge_forwards_either_form<T, G>(
    x: T,
    owned: (bool, Handled<Sent<T>, T, G>),
    borrowed: (bool, Handled<Sent<T>, T, G>),
    out: Callbacks<T>,
)
    requires
        sent_value::<(), T, G, T>(&owned, value_of(MaybeOwned::Owned(x)), &out),
        sent_value::<(), T, G, T>(&borrowed, value_of(MaybeOwned::Borrowed(&x)), &out),
        owned.1 is Done,
        borrowed.1 is Done,
    ensures
        owned.1->Done_0.value() == x && owned.1->Done_0.list() == out.identity(),
        borrowed.1->Done_0.value() == x && borrowed.1->Done_0.list() == out.identity(),
{
}

/// A split sends each value of the first variant to the first output and each value of
/// the second variant to the second, the content of a clone of it, whatever form it
/// arrives in; a value never reaches the output of the other variant.
pub proof fn law_split_routes_by_variant<T: SumType2 + Clone>(
    keep: bool,
    d: SplitDone<T::Type1, T::Type2>,
    arg: MaybeOwned<'_, T>,
    out1: Callbacks<T::Type1>,
    out2: Callbacks<T::Type2>,
)
    requires
        split_routed(keep, d, arg, &out1, &out2),
    ensures
        first_of(value_of(arg)) is Some ==> !(d is Second) && !(d is SecondGone),
        first_of(value_of(arg)) is None ==> !(d is First) && !(d is FirstGone),
        d matches SplitDone::First(s) ==> s.list() == out1.identity() && exists|c: T|
            #![trigger first_of(c)]
            cloned(value_of(arg), c) && first_of(c) == Some(s.value()),
        d matches SplitDone::Second(s) ==> s.list() == out2.identity() && exists|c: T|
            #![trigger second_of(c)]
            cloned(value_of(arg), c) && second_of(c) == Some(s.value()),
        !keep ==> (d matches SplitDone::FirstGone(g1, Some(g2)) && g1.of() == out1 && g2.of() == out2)
            || (d matches SplitDone::SecondGone(g2, Some(g1)) && g1.of() == out1 && g2.of() == out2),
{
}

} // verus!
