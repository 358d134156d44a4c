//! Callback cells and how a value is dispatched to a list of them.
use vstd::prelude::*;
use maybe_owned::MaybeOwned;
use std::marker::PhantomData;
use std::sync::Arc;
use crate::sync::{Mutex, ReadGuard, RwLock};

verus! {

/// The argument type `MaybeOwned` of the `maybe_owned` crate: an owned value or a
/// reference to one.
///
/// Its two variants, `Owned` and `Borrowed`, are public, and Verus reads them as the crate
/// declares them; verified code builds them and calls none of its methods.
#[verifier::external_type_specification]
pub struct ExMaybeOwned<'a, T: 'a>(maybe_owned::MaybeOwned<'a, T>);

/// The value an argument stands for, owned or borrowed.
pub open spec fn value_of<T>(arg: MaybeOwned<'_, T>) -> T {
    match arg {
        MaybeOwned::Owned(v) => v,
        MaybeOwned::Borrowed(r) => *r,
    }
}

/// `v` is what taking ownership of `arg` gives: the owned value itself, or a clone of
/// the borrowed one.
pub open spec fn owned_from<T: Clone>(arg: MaybeOwned<'_, T>, v: T) -> bool {
    match arg {
        MaybeOwned::Owned(x) => v == x,
        MaybeOwned::Borrowed(r) => cloned(*r, v),
    }
}

/// A reference to the value of an argument.
pub fn value_ref<'b, T>(arg: &'b MaybeOwned<'_, T>) -> (r: &'b T)
    ensures
        *r == value_of(*arg),
{
    match arg {
        MaybeOwned::Owned(v) => v,
        MaybeOwned::Borrowed(r) => *r,
    }
}

/// Takes ownership of an argument, cloning it when it is borrowed.
pub fn into_owned<T: Clone>(arg: MaybeOwned<'_, T>) -> (v: T)
    ensures
        owned_from(arg, v),
{
    match arg {
        MaybeOwned::Owned(x) => x,
        MaybeOwned::Borrowed(r) => {
            let v = r.clone();
            assert(cloned(*r, v));
            v
        },
    }
}

/// The identity of a callback list, with the values the list may fire. Each tag holds a
/// lock of its own, so tags made apart are never known to be equal.
#[verifier::reject_recursive_types(T)]
pub struct ListTag<T> {
    seal: Mutex<()>,
    fires: Ghost<spec_fn(T) -> bool>,
}

impl<T> ListTag<T> {
    /// The values the list may fire.
    pub closed spec fn fires(&self) -> spec_fn(T) -> bool {
        self.fires@
    }
}

/// Whether two references designate the same list tag.
///
/// Calls `std::ptr::eq`: equal addresses designate one and the same tag, so when it gives
/// `true` the two are the same value. Nothing is claimed when it gives `false`.
#[verifier::external_body]
fn same_tag<T>(a: &ListTag<T>, b: &ListTag<T>) -> (r: bool)
    ensures
        r ==> a == b,
{
    std::ptr::eq(a, b)
}

/// Whether `from` is the tag `expected`; when it is, the two fire the same values.
pub fn is_tag<T>(from: &ListTag<T>, expected: &ListTag<T>) -> (r: bool)
    ensures
        r ==> from.fires() == expected.fires(),
{
    same_tag(from, expected)
}

/// Evidence that a tag is not the expected one: only `check_tag` makes it, when the
/// two tags are distinct.
#[verifier::reject_recursive_types(T)]
pub struct OtherList<T> {
    got: Ghost<ListTag<T>>,
    expected: Ghost<ListTag<T>>,
}

impl<T> OtherList<T> {
    /// The tag that was checked.
    pub closed spec fn got(&self) -> ListTag<T> {
        self.got@
    }

    /// The tag it was checked against.
    pub closed spec fn expected(&self) -> ListTag<T> {
        self.expected@
    }
}

/// Checks that `from` is the tag `expected`; when it is, the two fire the same values,
/// and when it is not, the result is evidence of that.
pub fn check_tag<T>(from: &ListTag<T>, expected: &ListTag<T>) -> (r: Result<(), OtherList<T>>)
    ensures
        r is Ok ==> from.fires() == expected.fires(),
        r matches Err(o) ==> o.got() == *from && o.expected() == *expected,
{
    if same_tag(from, expected) {
        Ok(())
    } else {
        Err(OtherList { got: Ghost(*from), expected: Ghost(*expected) })
    }
}

/// Evidence that a value was sent through a callback list: only the list's own `send`
/// methods make it, after dispatching the value to the list's callbacks.
#[verifier::reject_recursive_types(T)]
pub struct Sent<T> {
    value: Ghost<T>,
    list: Ghost<ListTag<T>>,
}

impl<T> Sent<T> {
    /// The value that was sent.
    pub closed spec fn value(&self) -> T {
        self.value@
    }

    /// The identity of the list it was sent through.
    pub closed spec fn list(&self) -> ListTag<T> {
        self.list@
    }
}

/// A stream callback: it receives each value sent to a stream, together with the list
/// that sends it, and says whether it wants to keep receiving values.
pub trait Callback<T>: Send + Sync {
    /// Calling the callback with `arg`, sent by `from`, can give `alive`.
    spec fn gives(&self, arg: MaybeOwned<'_, T>, from: ListTag<T>, alive: bool) -> bool;

    /// The callback can stop being alive.
    spec fn can_die(&self) -> bool;

    /// Hands `arg`, one of the values `from` may fire, to the callback; the result says
    /// whether it stays alive.
    fn call(&self, arg: MaybeOwned<'_, T>, from: &ListTag<T>) -> (alive: bool)
        requires
            (from.fires())(value_of(arg)),
        ensures
            self.gives(arg, *from, alive);

    /// Whether the callback is still alive.
    fn is_alive(&self) -> (alive: bool)
        ensures
            !alive ==> self.can_die();
}

/// `f` can return `false` for some argument.
pub open spec fn may_fail<T, F: Fn(MaybeOwned<'_, T>, &ListTag<T>) -> bool>(f: F) -> bool {
    exists|arg: MaybeOwned<'_, T>, from: &ListTag<T>| #[trigger] f.ensures((arg, from), false)
}

/// `f` accepts every value a list may fire, together with that list.
pub open spec fn accepts_fired<T, F: Fn(MaybeOwned<'_, T>, &ListTag<T>) -> bool>(f: F) -> bool {
    forall|arg: MaybeOwned<'_, T>, from: &ListTag<T>|
        (from.fires())(value_of(arg)) ==> #[trigger] f.requires((arg, from))
}

/// Function that becomes uncallable after it returns false.
///
/// Callbacks take a `MaybeOwned<T>` argument so the caller can choose at runtime
/// whether to send a reference or an owned value; they also get the list that sends it.
#[verifier::reject_recursive_types(T)]
pub struct FnCell<T, F: Fn(MaybeOwned<'_, T>, &ListTag<T>) -> bool> {
    f: F,
    alive: Mutex<bool>,
    marker: PhantomData<T>,
}

impl<T, F: Fn(MaybeOwned<'_, T>, &ListTag<T>) -> bool> FnCell<T, F> {
    /// The stored function.
    pub closed spec fn func(&self) -> F {
        self.f
    }

    /// The stored function can return `false` for some argument, so the cell can die.
    pub open spec fn can_fail(&self) -> bool {
        may_fail(self.func())
    }

    /// The stored function accepts every value a list may fire, and the cell is marked
    /// dead only if its function can return `false`.
    #[verifier::type_invariant]
    spec fn callable(self) -> bool {
        &&& accepts_fired(self.f)
        &&& forall|v: bool| #[trigger] (self.alive.inv())(v) <==> (v || self.can_fail())
    }

    /// Creates a new `FnCell` from the supplied closure.
    pub fn new(f: F) -> (c: Self)
        requires
            accepts_fired(f),
        ensures
            c.func() == f,
    {
        let ghost g = f;
        let alive = Mutex::with_invariant(
            true,
            Ghost(|v: bool| v || may_fail(g)),
        );
        FnCell { f, alive, marker: PhantomData }
    }

    /// Calls the stored function and updates its callable status.
    ///
    /// A dead cell is not called and gives `false`; a live one gives what the
    /// function returns, and dies when that is `false`.
    pub fn call(&self, arg: MaybeOwned<'_, T>, from: &ListTag<T>) -> (alive: bool)
        requires
            (from.fires())(value_of(arg)),
        ensures
            outcome(*self, arg, *from, alive),
    {
        proof {
            use_type_invariant(self);
        }
        assert(self.f.requires((arg, from)));
        if self.is_alive() {
            let is_alive = (self.f)(arg, from);
            if !is_alive {
                assert(self.func().ensures((arg, from), false));
                let (_, guard) = self.alive.lock();
                guard.unlock(false);
            }
            is_alive
        } else {
            false
        }
    }

    /// Checks if this function can still be called.
    ///
    /// A cell is dead only after its function returned `false`, so a cell whose function
    /// never returns `false` is always alive.
    pub fn is_alive(&self) -> (alive: bool)
        ensures
            !alive ==> self.can_fail(),
    {
        proof {
            use_type_invariant(self);
        }
        let (v, guard) = self.alive.lock();
        guard.unlock(v);
        v
    }
}

/// Whether the cell's function gave `alive` for `arg` sent by `from`: `true` only if the
/// function returned `true` for it, `false` only if the function can return `false`.
pub open spec fn outcome<T, F: Fn(MaybeOwned<'_, T>, &ListTag<T>) -> bool>(
    cell: FnCell<T, F>,
    arg: MaybeOwned<'_, T>,
    from: ListTag<T>,
    alive: bool,
) -> bool {
    &&& alive ==> cell.func().ensures((arg, &from), true)
    &&& !alive ==> cell.can_fail()
}

impl<T: Send + Sync, F: Fn(MaybeOwned<'_, T>, &ListTag<T>) -> bool + Send + Sync> Callback<T> for FnCell<T, F> {
    open spec fn gives(&self, arg: MaybeOwned<'_, T>, from: ListTag<T>, alive: bool) -> bool {
        outcome(*self, arg, from, alive)
    }

    open spec fn can_die(&self) -> bool {
        self.can_fail()
    }

    fn call(&self, arg: MaybeOwned<'_, T>, from: &ListTag<T>) -> (alive: bool) {
        FnCell::call(self, arg, from)
    }

    fn is_alive(&self) -> (alive: bool) {
        FnCell::is_alive(self)
    }
}

/// `f` can give `false` for some argument.
pub open spec fn may_stop<T, P, F: Fn(MaybeOwned<'_, T>, &ListTag<T>) -> (bool, P)>(f: F) -> bool {
    exists|arg: MaybeOwned<'_, T>, from: &ListTag<T>, p: P| #[trigger] f.ensures((arg, from), (false, p))
}

/// `f` accepts every value a list may fire, together with that list.
pub open spec fn handles_fired<T, P, F: Fn(MaybeOwned<'_, T>, &ListTag<T>) -> (bool, P)>(f: F) -> bool {
    forall|arg: MaybeOwned<'_, T>, from: &ListTag<T>|
        (from.fires())(value_of(arg)) ==> #[trigger] f.requires((arg, from))
}

/// A callback cell whose function also gives evidence of what it did with each value;
/// like `FnCell`, it becomes uncallable after its function says it is done.
#[verifier::reject_recursive_types(T)]
#[verifier::reject_recursive_types(P)]
pub struct EventCell<T, P, F: Fn(MaybeOwned<'_, T>, &ListTag<T>) -> (bool, P)> {
    f: F,
    alive: Mutex<bool>,
    marker: PhantomData<(T, P)>,
}

impl<T, P, F: Fn(MaybeOwned<'_, T>, &ListTag<T>) -> (bool, P)> EventCell<T, P, F> {
    /// The stored function.
    pub closed spec fn func(&self) -> F {
        self.f
    }

    /// The stored function can say it is done, so the cell can die.
    pub open spec fn can_fail(&self) -> bool {
        may_stop(self.func())
    }

    /// The stored function accepts every value a list may fire, and the cell is marked
    /// dead only if its function can say it is done.
    #[verifier::type_invariant]
    spec fn callable(self) -> bool {
        &&& handles_fired(self.f)
        &&& forall|v: bool| #[trigger] (self.alive.inv())(v) <==> (v || self.can_fail())
    }

    /// Creates a new cell from the supplied closure.
    pub fn new(f: F) -> (c: Self)
        requires
            handles_fired(f),
        ensures
            c.func() == f,
    {
        let ghost g = f;
        let alive = Mutex::with_invariant(true, Ghost(|v: bool| v || may_stop(g)));
        EventCell { f, alive, marker: PhantomData }
    }

    /// Calls the stored function unless the cell is dead, and updates its status.
    pub fn call(&self, arg: MaybeOwned<'_, T>, from: &ListTag<T>) -> (alive: bool)
        requires
            (from.fires())(value_of(arg)),
        ensures
            alive ==> exists|p: P| #[trigger] self.func().ensures((arg, from), (true, p)),
            !alive ==> self.can_fail(),
    {
        proof {
            use_type_invariant(self);
        }
        assert(self.f.requires((arg, from)));
        if self.is_alive() {
            let (is_alive, evidence) = (self.f)(arg, from);
            if !is_alive {
                assert(self.func().ensures((arg, from), (false, evidence)));
                let (_, guard) = self.alive.lock();
                guard.unlock(false);
            } else {
                assert(self.func().ensures((arg, from), (true, evidence)));
            }
            is_alive
        } else {
            false
        }
    }

    /// Checks if this cell can still be called.
    pub fn is_alive(&self) -> (alive: bool)
        ensures
            !alive ==> self.can_fail(),
    {
        proof {
            use_type_invariant(self);
        }
        let (v, guard) = self.alive.lock();
        guard.unlock(v);
        v
    }
}

impl<
    T: Send + Sync,
    P: Send + Sync,
    F: Fn(MaybeOwned<'_, T>, &ListTag<T>) -> (bool, P) + Send + Sync,
> Callback<T> for EventCell<T, P, F> {
    open spec fn gives(&self, arg: MaybeOwned<'_, T>, from: ListTag<T>, alive: bool) -> bool {
        &&& alive ==> exists|p: P| #[trigger] self.func().ensures((arg, &from), (true, p))
        &&& !alive ==> self.can_fail()
    }

    open spec fn can_die(&self) -> bool {
        self.can_fail()
    }

    fn call(&self, arg: MaybeOwned<'_, T>, from: &ListTag<T>) -> (alive: bool) {
        EventCell::call(self, arg, from)
    }

    fn is_alive(&self) -> (alive: bool) {
        EventCell::is_alive(self)
    }
}

/// A boxed callback of any type, as a callback list holds them.
#[verifier::reject_recursive_types(T)]
pub struct CallbackBox<T> {
    cb: Box<dyn Callback<T>>,
}

impl<T> CallbackBox<T> {
    /// Boxes a callback.
    pub fn new(cb: Box<dyn Callback<T>>) -> Self {
        CallbackBox { cb }
    }
}

impl<T> Callback<T> for CallbackBox<T> {
    closed spec fn gives(&self, arg: MaybeOwned<'_, T>, from: ListTag<T>, alive: bool) -> bool {
        self.cb.gives(arg, from, alive)
    }

    closed spec fn can_die(&self) -> bool {
        self.cb.can_die()
    }

    fn call(&self, arg: MaybeOwned<'_, T>, from: &ListTag<T>) -> (alive: bool) {
        self.cb.call(arg, from)
    }

    fn is_alive(&self) -> (alive: bool) {
        self.cb.is_alive()
    }
}

/// What sending an owned value from `from` to the callbacks `fs` gave: each callback was
/// called, in order, the last one with the value itself and the others with a reference
/// to it; `outcomes` holds what each one gave, and `all_alive` whether all of them stayed
/// alive.
pub open spec fn dispatched_owned<T, C: Callback<T>>(
    fs: Seq<C>,
    arg: T,
    from: ListTag<T>,
    all_alive: bool,
    outcomes: Seq<bool>,
) -> bool {
    &&& outcomes.len() == fs.len()
    &&& forall|i: int|
        0 <= i < fs.len() - 1 ==> (#[trigger] fs[i]).gives(MaybeOwned::Borrowed(&arg), from, outcomes[i])
    &&& fs.len() > 0 ==> fs[fs.len() - 1].gives(MaybeOwned::Owned(arg), from, outcomes[fs.len() - 1])
    &&& all_alive == forall|i: int| 0 <= i < fs.len() ==> #[trigger] outcomes[i]
}

/// What sending a reference from `from` to the callbacks `fs` gave: each callback was
/// called, in order, with the reference; `outcomes` holds what each one gave, and
/// `all_alive` whether all of them stayed alive.
pub open spec fn dispatched_ref<T, C: Callback<T>>(
    fs: Seq<C>,
    arg: &T,
    from: ListTag<T>,
    all_alive: bool,
    outcomes: Seq<bool>,
) -> bool {
    &&& outcomes.len() == fs.len()
    &&& forall|i: int|
        0 <= i < fs.len() ==> (#[trigger] fs[i]).gives(MaybeOwned::Borrowed(arg), from, outcomes[i])
    &&& all_alive == forall|i: int| 0 <= i < fs.len() ==> #[trigger] outcomes[i]
}

/// Sends an owned value, one of those `from` may fire, to a list of callbacks.
///
/// This sends a reference to the first N-1 callbacks, and the owned value to the last.
/// Every callback is called, in order, whatever the earlier ones returned. The result
/// holds whether all of them are still alive, and what each one gave.
pub fn call_owned<T, C: Callback<T>>(fs: &Vec<C>, arg: T, from: &ListTag<T>) -> (res: (bool, Vec<bool>))
    requires
        (from.fires())(arg),
    ensures
        dispatched_owned(fs@, arg, *from, res.0, res.1@),
{
    let n = fs.len();
    let mut all_alive = true;
    let mut outcomes: Vec<bool> = Vec::new();
    let mut i: usize = 0;
    while i + 1 < n
        invariant
            n == fs.len(),
            (from.fires())(arg),
            i < n || n == 0,
            i <= n,
            outcomes.len() == i,
            forall|k: int|
                0 <= k < i ==> (#[trigger] fs[k]).gives(MaybeOwned::Borrowed(&arg), *from, outcomes[k]),
            all_alive == forall|k: int| 0 <= k < i ==> #[trigger] outcomes[k],
        decreases n - i,
    {
        let alive = fs[i].call(MaybeOwned::Borrowed(&arg), from);
        let ghost prev = outcomes@;
        let ghost was_alive = all_alive;
        outcomes.push(alive);
        proof {
            assert forall|k: int| 0 <= k < i implies outcomes[k] == prev[k] by {}
            assert(outcomes[i as int] == alive);
            if !was_alive {
                let k = choose|k: int| 0 <= k < i && !#[trigger] prev[k];
                assert(!outcomes[k]);
            }
        }
        all_alive = all_alive && alive;
        i = i + 1;
    }
    if n > 0 {
        assert(i == n - 1);
        let alive = fs[n - 1].call(MaybeOwned::Owned(arg), from);
        let ghost prev = outcomes@;
        let ghost was_alive = all_alive;
        outcomes.push(alive);
        proof {
            assert forall|k: int| 0 <= k < i implies outcomes[k] == prev[k] by {}
            assert(outcomes[i as int] == alive);
            if !was_alive {
                let k = choose|k: int| 0 <= k < i && !#[trigger] prev[k];
                assert(!outcomes[k]);
            } else if alive {
                assert forall|k: int| 0 <= k < n implies #[trigger] outcomes[k] by {
                    if k < i {
                        assert(prev[k]);
                    }
                }
            }
        }
        all_alive = all_alive && alive;
    }
    assert(outcomes.len() == n);
    (all_alive, outcomes)
}

/// Sends a value by reference, one of those `from` may fire, to every callback of a list.
///
/// Every callback is called, in order, whatever the earlier ones returned. The result
/// holds whether all of them are still alive, and what each one gave.
pub fn call_ref<T, C: Callback<T>>(fs: &Vec<C>, arg: &T, from: &ListTag<T>) -> (res: (bool, Vec<bool>))
    requires
        (from.fires())(*arg),
    ensures
        dispatched_ref(fs@, arg, *from, res.0, res.1@),
{
    let n = fs.len();
    let mut all_alive = true;
    let mut outcomes: Vec<bool> = Vec::new();
    let mut i: usize = 0;
    while i < n
        invariant
            n == fs.len(),
            (from.fires())(*arg),
            i <= n,
            outcomes.len() == i,
            forall|k: int|
                0 <= k < i ==> (#[trigger] fs[k]).gives(MaybeOwned::Borrowed(arg), *from, outcomes[k]),
            all_alive == forall|k: int| 0 <= k < i ==> #[trigger] outcomes[k],
        decreases n - i,
    {
        let alive = fs[i].call(MaybeOwned::Borrowed(arg), from);
        let ghost prev = outcomes@;
        let ghost was_alive = all_alive;
        outcomes.push(alive);
        proof {
            assert forall|k: int| 0 <= k < i implies outcomes[k] == prev[k] by {}
            assert(outcomes[i as int] == alive);
            if !was_alive {
                let k = choose|k: int| 0 <= k < i && !#[trigger] prev[k];
                assert(!outcomes[k]);
            }
        }
        all_alive = all_alive && alive;
        i = i + 1;
    }
    (all_alive, outcomes)
}

/// A collection of callbacks.
///
/// The list carries, in its tag, the values it may fire: only those are sent through it. Values are
/// dispatched to the callbacks under a shared lock, so a callback may send into the same
/// list again. Dead callbacks are not called; they are removed from the list when a new
/// callback is added.
#[verifier::reject_recursive_types(T)]
pub struct Callbacks<T> {
    fs: RwLock<Vec<CallbackBox<T>>>,
    tag: Arc<ListTag<T>>,
}

impl<T> Callbacks<T> {
    #[verifier::type_invariant]
    spec fn wf(self) -> bool {
        forall|v: Vec<CallbackBox<T>>| #[trigger] (self.fs.inv())(v)
    }

    /// The values this list may fire.
    pub closed spec fn fires(&self) -> spec_fn(T) -> bool {
        self.tag.fires()
    }

    /// The identity of this list.
    pub closed spec fn identity(&self) -> ListTag<T> {
        *self.tag
    }

    /// The tag of this list.
    pub fn tag(&self) -> (t: Arc<ListTag<T>>)
        ensures
            t.fires() == self.fires(),
            *t == self.identity(),
    {
        self.tag.clone()
    }

    /// Creates an empty callback list that may fire any value.
    pub fn new() -> (c: Self)
        ensures
            forall|x: T| #[trigger] (c.fires())(x),
    {
        Callbacks::with_fires(Ghost(|x: T| true))
    }

    /// Creates an empty callback list that may fire the values that satisfy `fires`.
    pub fn with_fires(Ghost(fires): Ghost<spec_fn(T) -> bool>) -> (c: Self)
        ensures
            c.fires() == fires,
    {
        Callbacks { fs: RwLock::new(Vec::new()), tag: Arc::new(ListTag { seal: Mutex::new(()), fires: Ghost(fires) }) }
    }

    /// Adds a new callback to the list, after removing the dead ones.
    pub fn push(&self, cb: CallbackBox<T>) {
        proof {
            use_type_invariant(self);
        }
        let (mut old, guard) = self.fs.write();
        let mut kept: Vec<CallbackBox<T>> = Vec::new();
        while old.len() > 0
            decreases old.len(),
        {
            let c = old.remove(0);
            if c.is_alive() {
                kept.push(c);
            }
        }
        kept.push(cb);
        guard.unlock(kept);
    }

    /// Shares the list.
    pub fn list(&self) -> ReadGuard<'_, Vec<CallbackBox<T>>> {
        self.fs.read()
    }

    /// Sends an owned value.
    ///
    /// This sends a ref to the first N-1 callbacks, and the owned value to the last. The
    /// result holds whether all callbacks stayed alive, and what each one gave.
    pub fn call_owned(&self, arg: T) -> (res: (bool, Vec<bool>))
        requires
            (self.fires())(arg),
        ensures
            exists|fs: Seq<CallbackBox<T>>|
                #[trigger] dispatched_owned(fs, arg, self.identity(), res.0, res.1@),
    {
        let g = self.list();
        let ghost fs = g.value()@;
        let res = call_owned(g.get(), arg, &self.tag);
        g.release();
        assert(dispatched_owned(fs, arg, self.identity(), res.0, res.1@));
        res
    }

    /// Sends a value by reference. The result holds whether all callbacks stayed alive,
    /// and what each one gave.
    pub fn call_ref(&self, arg: &T) -> (res: (bool, Vec<bool>))
        requires
            (self.fires())(*arg),
        ensures
            exists|fs: Seq<CallbackBox<T>>|
                #[trigger] dispatched_ref(fs, arg, self.identity(), res.0, res.1@),
    {
        let g = self.list();
        let ghost fs = g.value()@;
        let res = call_ref(g.get(), arg, &self.tag);
        g.release();
        assert(dispatched_ref(fs, arg, self.identity(), res.0, res.1@));
        res
    }

    /// Sends an owned value to the callbacks, as `call_owned` does, and gives evidence
    /// of it.
    pub fn send(&self, arg: T) -> (s: Sent<T>)
        requires
            (self.fires())(arg),
        ensures
            s.value() == arg,
            s.list() == self.identity(),
    {
        let ghost v = arg;
        let _ = self.call_owned(arg);
        Sent { value: Ghost(v), list: Ghost(self.identity()) }
    }

    /// Sends a value, owned or borrowed, as `call` does, and gives evidence of it.
    pub fn send_arg(&self, arg: MaybeOwned<'_, T>) -> (s: Sent<T>)
        requires
            (self.fires())(value_of(arg)),
        ensures
            s.value() == value_of(arg),
            s.list() == self.identity(),
    {
        let ghost v = value_of(arg);
        let _ = self.call(arg);
        Sent { value: Ghost(v), list: Ghost(self.identity()) }
    }

    /// Sends a value, owned or borrowed, as `call_owned` or `call_ref` does.
    pub fn call(&self, arg: MaybeOwned<'_, T>) -> (res: (bool, Vec<bool>))
        requires
            (self.fires())(value_of(arg)),
        ensures
            arg matches MaybeOwned::Owned(v) ==> exists|fs: Seq<CallbackBox<T>>|
                #[trigger] dispatched_owned(fs, v, self.identity(), res.0, res.1@),
            arg matches MaybeOwned::Borrowed(r) ==> exists|fs: Seq<CallbackBox<T>>|
                #[trigger] dispatched_ref(fs, r, self.identity(), res.0, res.1@),
    {
        match arg {
            MaybeOwned::Owned(v) => self.call_owned(v),
            MaybeOwned::Borrowed(r) => self.call_ref(r),
        }
    }
}

} // verus!
