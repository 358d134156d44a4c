//! Weak references to shared values, and the sending end of a channel.
use vstd::prelude::*;
use std::sync::Arc;

verus! {

/// A `std::sync::Weak`, held whole: the std type has an allocator parameter that
/// verified code cannot declare.
#[verifier::external_body]
#[verifier::reject_recursive_types(T)]
struct WeakCell<T> {
    w: std::sync::Weak<T>,
}

/// A weak reference to a value held by an `Arc`, together with the value it was made from.
#[verifier::reject_recursive_types(T)]
pub struct WeakRef<T> {
    w: WeakCell<T>,
    target: Ghost<T>,
}

/// Makes a weak reference to the value behind `rc`.
///
/// Calls `std::sync::Arc::downgrade`; nothing is stated of the result here, `WeakRef`
/// records what it points to.
#[verifier::external_body]
fn downgrade_cell<T>(rc: &Arc<T>) -> WeakCell<T> {
    WeakCell { w: Arc::downgrade(rc) }
}

/// Upgrades a weak reference.
///
/// Calls `std::sync::Weak::upgrade`: while some `Arc` to the value lives, it gives an
/// `Arc` to that same value, else `None`. The contract claims only that what it gives
/// is the value the reference was made from.
#[verifier::external_body]
fn upgrade_ref<T>(w: &WeakRef<T>) -> (r: Option<Arc<T>>)
    ensures
        r matches Some(a) ==> *a == w.target@,
{
    w.w.w.upgrade()
}

/// Copies a weak reference.
///
/// Calls `Clone::clone` of `std::sync::Weak`, which points to the same value.
#[verifier::external_body]
fn clone_cell<T>(w: &WeakCell<T>) -> WeakCell<T> {
    WeakCell { w: w.w.clone() }
}

/// The value behind an `Arc`.
spec fn arc_target<T>(rc: &Arc<T>) -> T {
    **rc
}

/// Evidence that the value a weak reference was made from is gone: only `WeakRef::reach`
/// makes it, when the upgrade fails.
#[verifier::reject_recursive_types(T)]
pub struct Gone<T> {
    of: Ghost<T>,
}

impl<T> Gone<T> {
    /// The value that is gone.
    pub closed spec fn of(&self) -> T {
        self.of@
    }
}

impl<T> WeakRef<T> {
    /// The value this reference was made from.
    pub closed spec fn target(&self) -> T {
        self.target@
    }

    /// Makes a weak reference to the value behind `rc`.
    pub fn downgrade(rc: &Arc<T>) -> (w: Self)
        ensures
            w.target() == **rc,
    {
        WeakRef { w: downgrade_cell(rc), target: Ghost(arc_target(rc)) }
    }

    /// Gives the value while someone still holds it, else `None`.
    pub fn upgrade(&self) -> (r: Option<Arc<T>>)
        ensures
            r matches Some(a) ==> *a == self.target(),
    {
        upgrade_ref(self)
    }

    /// Gives the value while someone still holds it, else evidence that it is gone.
    pub fn reach(&self) -> (r: Result<Arc<T>, Gone<T>>)
        ensures
            r matches Ok(a) ==> *a == self.target(),
            r matches Err(g) ==> g.of() == self.target(),
    {
        match upgrade_ref(self) {
            Some(a) => Ok(a),
            None => Err(Gone { of: Ghost(self.target@) }),
        }
    }

    /// Another weak reference to the same value.
    pub fn duplicate(&self) -> (w: Self)
        ensures
            w.target() == self.target(),
    {
        let ghost t = self.target@;
        WeakRef { w: clone_cell(&self.w), target: Ghost(t) }
    }
}

/// Puts `val` behind an `Arc` and also returns a weak reference to it.
pub fn arc_and_weak<T>(val: T) -> (res: (Arc<T>, WeakRef<T>))
    ensures
        *res.0 == val,
        res.1.target() == val,
{
    let rc = Arc::new(val);
    let weak = WeakRef::downgrade(&rc);
    (rc, weak)
}

/// A sender of a standard channel.
#[verifier::external_type_specification]
#[verifier::external_body]
#[verifier::reject_recursive_types(T)]
pub struct ExSender<T>(std::sync::mpsc::Sender<T>);

/// Creates a channel.
///
/// Calls `std::sync::mpsc::channel`; nothing is stated of the pair it gives.
#[verifier::external_body]
pub(crate) fn new_channel<T>() -> (std::sync::mpsc::Sender<T>, std::sync::mpsc::Receiver<T>) {
    std::sync::mpsc::channel()
}

/// Sends a value into a channel; `false` when the receiver is gone.
///
/// Calls `std::sync::mpsc::Sender::send`. Whether the receiver still exists depends on
/// other threads, so nothing is stated of the result.
#[verifier::external_body]
fn send_to<T>(tx: &std::sync::mpsc::Sender<T>, val: T) -> bool {
    tx.send(val).is_ok()
}

/// Evidence that a value was handed to a channel: only `post` makes it.
#[verifier::reject_recursive_types(T)]
pub struct Posted<T> {
    value: Ghost<T>,
    channel: Ghost<std::sync::mpsc::Sender<T>>,
    accepted: bool,
}

impl<T> Posted<T> {
    /// The value handed to the channel.
    pub closed spec fn value(&self) -> T {
        self.value@
    }

    /// The sender it was handed to.
    pub closed spec fn channel(&self) -> std::sync::mpsc::Sender<T> {
        self.channel@
    }

    /// Whether the channel took it (its receiver still existed).
    pub closed spec fn was_accepted(&self) -> bool {
        self.accepted
    }

    /// Whether the channel took it.
    pub fn accepted(&self) -> (b: bool)
        ensures
            b == self.was_accepted(),
    {
        self.accepted
    }
}

/// Hands a value to a channel, and gives evidence of it.
pub fn post<T>(tx: &std::sync::mpsc::Sender<T>, val: T) -> (p: Posted<T>)
    ensures
        p.value() == val,
        p.channel() == *tx,
{
    let ghost v = val;
    let accepted = send_to(tx, val);
    Posted { value: Ghost(v), channel: Ghost(*tx), accepted }
}

} // verus!
