//! Storage cell used by signals.
use vstd::prelude::*;
use crate::sync::Mutex;

verus! {

/// Evidence that a value was written into a storage cell: only the cell's own writing
/// methods make it.
#[verifier::reject_recursive_types(T)]
pub struct Stored<T> {
    value: Ghost<T>,
    cell: Ghost<Storage<T>>,
}

impl<T> Stored<T> {
    /// The value written.
    pub closed spec fn value(&self) -> T {
        self.value@
    }

    /// The cell written to.
    pub closed spec fn cell(&self) -> Storage<T> {
        self.cell@
    }

}

/// Storage cell for shared signal values.
///
/// The cell is created with an invariant; every value it ever holds satisfies it, so
/// every value read back satisfies it too.
#[verifier::reject_recursive_types(T)]
pub struct Storage<T> {
    val: Mutex<T>,
}

impl<T> Storage<T> {
    /// The invariant of the stored values.
    pub closed spec fn inv(&self) -> spec_fn(T) -> bool {
        self.val.inv()
    }

    /// Creates a storage with an initial value; any value may be stored in it.
    pub fn new(val: T) -> (s: Self)
        ensures
            forall|v: T| #[trigger] (s.inv())(v),
    {
        Storage::with_invariant(val, Ghost(|v: T| true))
    }

    /// Creates a storage with an initial value and the invariant its values keep.
    pub fn with_invariant(val: T, Ghost(inv): Ghost<spec_fn(T) -> bool>) -> (s: Self)
        requires
            inv(val),
        ensures
            s.inv() == inv,
    {
        Storage { val: Mutex::with_invariant(val, Ghost(inv)) }
    }

    /// Gets the value by cloning.
    pub fn get(&self) -> (r: T)
        where
            T: Clone,
        ensures
            exists|v: T| (self.inv())(v) && cloned(v, r),
    {
        let (v, guard) = self.val.lock();
        let r = v.clone();
        assert(cloned(v, r));
        guard.unlock(v);
        r
    }

    /// Sets the value.
    pub fn set(&self, val: T) -> (s: Stored<T>)
        requires
            (self.inv())(val),
        ensures
            s.value() == val,
            s.cell() == *self,
    {
        let ghost v = val;
        let (old, guard) = self.val.lock();
        guard.unlock(val);
        Stored { value: Ghost(v), cell: Ghost(*self) }
    }

    /// Maps the stored value in place.
    pub fn replace<F>(&self, f: F) -> (s: Stored<T>)
        where
            F: FnOnce(T) -> T,
        requires
            forall|v: T| (self.inv())(v) ==> f.requires((v,)),
            forall|v: T, w: T| (self.inv())(v) && f.ensures((v,), w) ==> (self.inv())(w),
        ensures
            s.cell() == *self,
            exists|old: T| #![trigger f.ensures((old,), s.value())] (self.inv())(old) && f.ensures((old,), s.value()),
    {
        let (old, guard) = self.val.lock();
        let ghost o = old;
        let new = f(old);
        let ghost n = new;
        guard.unlock(new);
        let s = Stored { value: Ghost(n), cell: Ghost(*self) };
        assert((self.inv())(o) && f.ensures((o,), s.value()));
        s
    }

    /// Same as `replace` but it also returns the new value.
    pub fn replace_fetch<F>(&self, f: F) -> (r: T)
        where
            F: FnOnce(T) -> T,
            T: Clone,
        requires
            forall|v: T| (self.inv())(v) ==> f.requires((v,)),
            forall|v: T, w: T| (self.inv())(v) && f.ensures((v,), w) ==> (self.inv())(w),
        ensures
            exists|v: T, w: T| (self.inv())(v) && f.ensures((v,), w) && cloned(w, r),
    {
        let (old, guard) = self.val.lock();
        let new = f(old);
        let r = new.clone();
        guard.unlock(new);
        r
    }

    /// A `replace` version with cloning: the function is given a clone of the value.
    pub fn replace_clone<F>(&self, f: F) -> (s: Stored<T>)
        where
            F: FnOnce(T) -> T,
            T: Clone,
        requires
            forall|v: T, c: T| (self.inv())(v) && cloned(v, c) ==> f.requires((c,)),
            forall|v: T, c: T, w: T|
                (self.inv())(v) && cloned(v, c) && f.ensures((c,), w) ==> (self.inv())(w),
        ensures
            s.cell() == *self,
            exists|old: T, c: T|
                #![trigger f.ensures((c,), s.value()), cloned(old, c)]
                (self.inv())(old) && cloned(old, c) && f.ensures((c,), s.value()),
    {
        let (old, guard) = self.val.lock();
        let c = old.clone();
        assert(cloned(old, c));
        let ghost o = old;
        let ghost gc = c;
        let new = f(c);
        let ghost n = new;
        guard.unlock(new);
        let s = Stored { value: Ghost(n), cell: Ghost(*self) };
        assert((self.inv())(o) && cloned(o, gc) && f.ensures((gc,), s.value()));
        s
    }
}

} // verus!
