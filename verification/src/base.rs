//! The traits that tie Rust's numeric types to the conversion of
//! [`Number`](crate::number::Number)s, and the trait that a cast is made through.

use vstd::prelude::*;
use crate::kinds::TypeDescriptor;
use crate::number::Number;

verus! {

/// A type whose values are numbers of one numeric type.
pub trait Numeric: Copy + Sized {
    /// The numeric type.
    spec fn descriptor() -> TypeDescriptor;

    /// The number that a value stands for.
    spec fn number(self) -> Number;

    /// The number that a value stands for is of the type.
    proof fn lemma_number_type(self)
        ensures
            self.number().desc == Self::descriptor(),
    ;

    /// Two values that stand for the same number are the same value.
    proof fn lemma_number_is_one_to_one(a: Self, b: Self)
        requires
            a.number() == b.number(),
        ensures
            a == b,
    ;

    fn describe() -> (d: TypeDescriptor)
        ensures
            d == Self::descriptor(),
            d.wf(),
    ;

    fn to_number(self) -> (n: Number)
        ensures
            n == self.number(),
            n.wf(),
            n.desc == Self::descriptor(),
    ;

    fn from_number(n: Number) -> (v: Self)
        requires
            n.wf(),
            n.desc == Self::descriptor(),
        ensures
            v.number() == n,
    ;
}

/// A numeric type that holds zero: a primitive integer or floating-point type.
pub trait Primitive: Numeric {
    proof fn lemma_holds_zero()
        ensures
            !Self::descriptor().nonzero,
    ;
}

/// Casts `self` to the type `T`. [`Cast::cast`](crate::casts::Cast::cast) goes
/// through this trait; implement it to cast to a type of your own.
pub trait CastImpl<T>: Sized {
    /// What a cast that is not exact reports.
    type Error;

    /// Whether `r` is what the cast of `self` gives.
    spec fn cast_gives(self, r: Result<T, Self::Error>) -> bool;

    /// Casts `self` to `T`: `Ok` with the equal value of `T` where there is
    /// one, `Err` otherwise.
    fn cast_impl(self) -> (r: Result<T, Self::Error>)
        ensures
            self.cast_gives(r),
    ;
}

} // verus!
