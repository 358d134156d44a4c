//! The state of a future that waits for the next value of a stream.
//!
//! The future itself, which registers a stream observer and keeps the task's waker,
//! lives with the streams; the transitions of its state are decided here.
use vstd::prelude::*;

verus! {

/// The state of a stream future.
pub enum FutureValue<T> {
    /// No value has arrived yet.
    Pending,
    /// A value arrived and was not read yet.
    Ready(T),
    /// The value was handed out by `poll`.
    Finished,
}

/// What a poll of the future gives.
pub enum PollOutcome<T> {
    /// The value that arrived.
    Ready(T),
    /// No value yet: the caller keeps the waker and waits.
    Pending,
}

impl<T> FutureValue<T> {
    /// The state and the outcome of polling a future in this state (not finished).
    pub open spec fn polled(self) -> (FutureValue<T>, PollOutcome<T>) {
        match self {
            FutureValue::Ready(v) => (FutureValue::Finished, PollOutcome::Ready(v)),
            _ => (FutureValue::Pending, PollOutcome::Pending),
        }
    }

    /// The state after reloading a future in this state.
    pub open spec fn reloaded(self) -> FutureValue<T> {
        match self {
            FutureValue::Finished => FutureValue::Pending,
            _ => self,
        }
    }

    /// A future that waits for its first value.
    pub fn new() -> (s: Self)
        ensures
            s is Pending,
    {
        FutureValue::Pending
    }

    /// A value arrives from the stream; it replaces whatever state there was.
    pub fn deliver(&mut self, val: T)
        ensures
            *final(self) == FutureValue::Ready(val),
    {
        *self = FutureValue::Ready(val);
    }

    /// Polls the future: a value that arrived is handed out once and the future is
    /// finished; otherwise it stays pending.
    ///
    /// Polling a finished future is an error, so it is not allowed.
    pub fn poll(&mut self) -> (out: PollOutcome<T>)
        requires
            !(*old(self) is Finished),
        ensures
            (*final(self), out) == old(self).polled(),
    {
        let mut taken = FutureValue::Pending;
        std::mem::swap(self, &mut taken);
        match taken {
            FutureValue::Ready(value) => {
                *self = FutureValue::Finished;
                PollOutcome::Ready(value)
            },
            _ => PollOutcome::Pending,
        }
    }

    /// Restarts a finished future so it can wait for another value.
    ///
    /// Returns whether it was restarted, in which case the caller registers a new
    /// observer. A pending (or ready but unread) future is left as it is.
    pub fn reload(&mut self) -> (restarted: bool)
        ensures
            restarted == (*old(self) is Finished),
            *final(self) == old(self).reloaded(),
    {
        if let FutureValue::Finished = self {
            *self = FutureValue::Pending;
            true
        } else {
            false
        }
    }
}

/// A value that arrives is handed out by the next poll, exactly once: the future is then
/// finished, and a reload makes it wait for the next value.
pub proof fn law_value_polled_once<T>(s: FutureValue<T>, v: T)
    ensures
        FutureValue::Ready(v).polled() == (FutureValue::<T>::Finished, PollOutcome::Ready(v)),
        FutureValue::Ready(v).polled().0.reloaded() is Pending,
{
}

/// Polling a future that has no value leaves it waiting, and reloading a future that is
/// not finished changes nothing.
pub proof fn law_pending_stays_pending<T>(s: FutureValue<T>)
    ensures
        FutureValue::<T>::Pending.polled() == (FutureValue::<T>::Pending, PollOutcome::<T>::Pending),
        !(s is Finished) ==> s.reloaded() == s,
{
}

} // verus!
