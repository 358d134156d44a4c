//! Miscellaneous types used by the library.
use vstd::prelude::*;

pub use either::Either;
pub use maybe_owned::MaybeOwned;

pub mod callbacks;
pub mod shared_impl;
pub mod storage;
pub use storage::Storage;

verus! {

/// The sum type `Either` of the `either` crate.
///
/// Its two variants, `Left` and `Right`, are public, and Verus reads them as the crate
/// declares them; verified code matches on them and calls none of its methods.
#[verifier::external_type_specification]
pub struct ExEither<L, R>(either::Either<L, R>);

/// Generic sum type of two elements.
///
/// It's used to provide generics over the `Option`/`Result`/`Either` types.
pub trait SumType2: Sized {
    /// Type of the first variant.
    type Type1;
    /// Type of the second variant.
    type Type2;

    /// Whether the value is of the first variant.
    spec fn holds_first(&self) -> bool;

    /// The content of the first variant (meaningful when `holds_first`).
    spec fn first_value(&self) -> Self::Type1;

    /// The content of the second variant (meaningful when not `holds_first`).
    spec fn second_value(&self) -> Self::Type2;

    /// Creates a value using the first variant.
    fn from_type1(val: Self::Type1) -> (r: Self)
        ensures
            r.holds_first(),
            r.first_value() == val;

    /// Creates a value using the second variant.
    fn from_type2(val: Self::Type2) -> (r: Self)
        ensures
            !r.holds_first(),
            r.second_value() == val;

    /// Checks if the value is of the first variant.
    fn is_type1(&self) -> (b: bool)
        ensures
            b == self.holds_first();

    /// Checks if the value is of the second variant.
    fn is_type2(&self) -> (b: bool)
        ensures
            b == !self.holds_first();

    /// Attempts to extract the value contained on the first variant.
    fn into_type1(self) -> (r: Option<Self::Type1>)
        ensures
            r == (if self.holds_first() { Some(self.first_value()) } else { None::<Self::Type1> });

    /// Attempts to extract the value contained on the second variant.
    fn into_type2(self) -> (r: Option<Self::Type2>)
        ensures
            r == (if self.holds_first() { None::<Self::Type2> } else { Some(self.second_value()) });
}

/// The content of the first variant, if the value is of it.
pub open spec fn first_of<S: SumType2>(s: S) -> Option<S::Type1> {
    if s.holds_first() {
        Some(s.first_value())
    } else {
        None
    }
}

/// The content of the second variant, if the value is of it.
pub open spec fn second_of<S: SumType2>(s: S) -> Option<S::Type2> {
    if s.holds_first() {
        None
    } else {
        Some(s.second_value())
    }
}

/// A value of a sum type holds exactly one of its two variants.
pub proof fn law_one_variant<S: SumType2>(s: S)
    ensures
        first_of(s) is Some <==> second_of(s) is None,
{
}

/// What `from_type1` makes gives its value back from `into_type1`, and nothing from
/// `into_type2`; likewise for `from_type2`.
pub proof fn law_round_trip<S: SumType2>(s: S, v1: S::Type1, v2: S::Type2)
    ensures
        s.holds_first() && s.first_value() == v1 ==> first_of(s) == Some(v1) && second_of(s)
            is None,
        !s.holds_first() && s.second_value() == v2 ==> second_of(s) == Some(v2) && first_of(s)
            is None,
{
}

impl<T> SumType2 for Option<T> {
    type Type1 = T;
    type Type2 = ();

    open spec fn holds_first(&self) -> bool {
        self is Some
    }

    open spec fn first_value(&self) -> T {
        self->0
    }

    open spec fn second_value(&self) -> () {
        ()
    }

    fn from_type1(val: T) -> (r: Self) {
        Some(val)
    }

    fn from_type2(val: ()) -> (r: Self) {
        None
    }

    fn is_type1(&self) -> (b: bool) {
        self.is_some()
    }

    fn is_type2(&self) -> (b: bool) {
        self.is_none()
    }

    fn into_type1(self) -> (r: Option<T>) {
        self
    }

    fn into_type2(self) -> (r: Option<()>) {
        match self {
            Some(_) => None,
            None => Some(()),
        }
    }
}

impl<T, E> SumType2 for Result<T, E> {
    type Type1 = T;
    type Type2 = E;

    open spec fn holds_first(&self) -> bool {
        self is Ok
    }

    open spec fn first_value(&self) -> T {
        self->Ok_0
    }

    open spec fn second_value(&self) -> E {
        self->Err_0
    }

    fn from_type1(val: T) -> (r: Self) {
        Ok(val)
    }

    fn from_type2(val: E) -> (r: Self) {
        Err(val)
    }

    fn is_type1(&self) -> (b: bool) {
        self.is_ok()
    }

    fn is_type2(&self) -> (b: bool) {
        self.is_err()
    }

    fn into_type1(self) -> (r: Option<T>) {
        match self {
            Ok(v) => Some(v),
            Err(_) => None,
        }
    }

    fn into_type2(self) -> (r: Option<E>) {
        match self {
            Ok(_) => None,
            Err(e) => Some(e),
        }
    }
}

impl<L, R> SumType2 for Either<L, R> {
    type Type1 = L;
    type Type2 = R;

    open spec fn holds_first(&self) -> bool {
        self is Left
    }

    open spec fn first_value(&self) -> L {
        match self {
            Either::Left(l) => *l,
            Either::Right(_) => arbitrary(),
        }
    }

    open spec fn second_value(&self) -> R {
        match self {
            Either::Left(_) => arbitrary(),
            Either::Right(r) => *r,
        }
    }

    fn from_type1(val: L) -> (r: Self) {
        Either::Left(val)
    }

    fn from_type2(val: R) -> (r: Self) {
        Either::Right(val)
    }

    fn is_type1(&self) -> (b: bool) {
        match self {
            Either::Left(_) => true,
            Either::Right(_) => false,
        }
    }

    fn is_type2(&self) -> (b: bool) {
        match self {
            Either::Left(_) => false,
            Either::Right(_) => true,
        }
    }

    fn into_type1(self) -> (r: Option<L>) {
        match self {
            Either::Left(l) => Some(l),
            Either::Right(_) => None,
        }
    }

    fn into_type2(self) -> (r: Option<R>) {
        match self {
            Either::Left(_) => None,
            Either::Right(r) => Some(r),
        }
    }
}

/// Determines if a stream observer should be kept or dropped.
pub trait ObserveResult: Sized {
    /// Whether the callback that returned this value stays registered.
    spec fn keeps_callback(&self) -> bool;

    /// If it returns `true` the callback is kept, otherwise it's dropped.
    fn is_callback_alive(self) -> (b: bool)
        ensures
            b == self.keeps_callback();
}

impl ObserveResult for () {
    /// No return value: never dropped.
    open spec fn keeps_callback(&self) -> bool {
        true
    }

    fn is_callback_alive(self) -> (b: bool) {
        true
    }
}

impl ObserveResult for bool {
    /// `bool` return value: dropped when it's `false`.
    open spec fn keeps_callback(&self) -> bool {
        *self
    }

    fn is_callback_alive(self) -> (b: bool) {
        self
    }
}

impl<T> ObserveResult for Option<T> {
    /// `Option` return value: dropped when it's `None`.
    open spec fn keeps_callback(&self) -> bool {
        self is Some
    }

    fn is_callback_alive(self) -> (b: bool) {
        self.is_some()
    }
}

impl<T, E> ObserveResult for Result<T, E> {
    /// `Result` return value: dropped when it's `Err`.
    open spec fn keeps_callback(&self) -> bool {
        self is Ok
    }

    fn is_callback_alive(self) -> (b: bool) {
        self.is_ok()
    }
}

} // verus!
