//! Casting by method: [`Cast::cast`] makes the cast, and the policies turn its
//! result into one value.
//!
//! * [`Lossy::lossy`] takes what a truncating cast gives, where that is a
//!   value of the target type.
//! * [`Closest::closest`] takes the nearest value of the target type.
//! * [`AssumedLossless::assumed_lossless`] and [`Lossless::lossless`] take the
//!   exact value, which the caller has shown to exist.
//! * [`Bitwise::bitwise`] keeps the bit pattern in place of the value.

use vstd::prelude::*;
use crate::base::{CastImpl, Numeric, Primitive};
use crate::convert::{
    bitwise,
    bitwise_value,
    classify,
    closest,
    closest_value,
    outcome,
    raw_value,
    same_size,
    Outcome,
};
use crate::errors::LossyCastError;
use crate::laws::{lemma_raw_of_exact, lemma_static_lossless_is_exact};
use crate::lossless::static_lossless;

verus! {

impl<A: Numeric, B: Primitive> CastImpl<B> for A {
    type Error = LossyCastError<A, B>;

    /// `Ok` holds the value of `B` that equals `self`; `Err` holds `self` and
    /// what a truncating cast gives, where no value of `B` equals `self`.
    open spec fn cast_gives(self, r: Result<B, LossyCastError<A, B>>) -> bool {
        match r {
            Ok(v) => outcome(self.number(), B::descriptor()) == Outcome::Exact(v.number()),
            Err(e) => e.from == self && outcome(self.number(), B::descriptor()) == (
            Outcome::Lossy { from: self.number(), to: e.to.number() }),
        }
    }

    fn cast_impl(self) -> (r: Result<B, LossyCastError<A, B>>) {
        proof {
            B::lemma_holds_zero();
        }
        let from = self.to_number();
        let to = B::describe();
        match classify(from, to) {
            Outcome::Exact(n) => Ok(B::from_number(n)),
            Outcome::Lossy { from: _, to: n } => Err(
                LossyCastError { from: self, to: B::from_number(n) },
            ),
            Outcome::Unrepresentable { from: _ } => Err(
                LossyCastError { from: self, to: B::from_number(closest(from, to)) },
            ),
        }
    }
}

/// Casts by method, with the target type as a type argument.
pub trait Cast: Sized {
    /// Casts `self` to `T`: `Ok` with the equal value of `T` where there is
    /// one, `Err` otherwise.
    fn cast<T>(self) -> (r: Result<T, Self::Error>) where Self: CastImpl<T>
        ensures
            self.cast_gives(r),
    {
        self.cast_impl()
    }
}

impl<A: Numeric> Cast for A {

}

/// Takes what a truncating cast gives. A failed cast between two types that
/// exclude zero has no such value where the truncated value is zero; the
/// caller shows that there is one.
pub trait Lossy<T>: Sized {
    /// Whether a truncating cast gave a value of the target type.
    spec fn has_lossy(self) -> bool;

    spec fn lossy_value(self) -> T;

    fn lossy(self) -> (r: T)
        requires
            self.has_lossy(),
        ensures
            r == self.lossy_value(),
    ;
}

impl<CastFrom, CastTo> Lossy<CastTo> for LossyCastError<CastFrom, CastTo> {
    open spec fn has_lossy(self) -> bool {
        true
    }

    open spec fn lossy_value(self) -> CastTo {
        self.to
    }

    fn lossy(self) -> (r: CastTo) {
        self.to
    }
}

impl<T, E: Lossy<T>> Lossy<T> for Result<T, E> {
    open spec fn has_lossy(self) -> bool {
        match self {
            Ok(_) => true,
            Err(e) => e.has_lossy(),
        }
    }

    open spec fn lossy_value(self) -> T {
        match self {
            Ok(v) => v,
            Err(e) => e.lossy_value(),
        }
    }

    fn lossy(self) -> (r: T) {
        match self {
            Ok(v) => v,
            Err(e) => e.lossy(),
        }
    }
}

/// Takes the value of the target type that is nearest to the value that was cast.
pub trait Closest<T>: Sized {
    /// Whether `r` is the nearest value.
    spec fn closest_is(self, r: T) -> bool;

    fn closest(self) -> (r: T)
        ensures
            self.closest_is(r),
    ;
}

impl<A: Numeric, B: Primitive> Closest<B> for LossyCastError<A, B> {
    open spec fn closest_is(self, r: B) -> bool {
        r.number() == closest_value(self.from.number(), B::descriptor())
    }

    fn closest(self) -> (r: B) {
        B::from_number(closest(self.from.to_number(), B::describe()))
    }
}

impl<T, E: Closest<T>> Closest<T> for Result<T, E> {
    open spec fn closest_is(self, r: T) -> bool {
        match self {
            Ok(v) => r == v,
            Err(e) => e.closest_is(r),
        }
    }

    fn closest(self) -> (r: T) {
        match self {
            Ok(v) => v,
            Err(e) => e.closest(),
        }
    }
}

/// Takes the exact value of a cast that the caller knows to be exact.
pub trait AssumedLossless<T>: Sized {
    /// Whether the cast was exact.
    spec fn was_lossless(self) -> bool;

    spec fn lossless_value(self) -> T;

    fn assumed_lossless(self) -> (r: T)
        requires
            self.was_lossless(),
        ensures
            r == self.lossless_value(),
    ;
}

impl<T, E: Lossy<T>> AssumedLossless<T> for Result<T, E> {
    open spec fn was_lossless(self) -> bool {
        self is Ok
    }

    open spec fn lossless_value(self) -> T {
        self->Ok_0
    }

    fn assumed_lossless(self) -> (r: T) {
        match self {
            Ok(v) => v,
            Err(e) => e.lossy(),
        }
    }
}

/// Takes the value of a cast between types of which the first fits the second
/// (see [`static_lossless`](crate::lossless::static_lossless)), so that no
/// value can be lost.
pub trait Lossless<T>: Sized {
    /// Whether the cast was exact.
    spec fn is_lossless(self) -> bool;

    spec fn exact_value(self) -> T;

    fn lossless(self) -> (r: T)
        requires
            self.is_lossless(),
        ensures
            r == self.exact_value(),
    ;
}

impl<A: Numeric, B: Primitive> Lossless<B> for Result<B, LossyCastError<A, B>> {
    open spec fn is_lossless(self) -> bool {
        self is Ok
    }

    open spec fn exact_value(self) -> B {
        self->Ok_0
    }

    fn lossless(self) -> (r: B) {
        match self {
            Ok(v) => v,
            Err(e) => e.to,
        }
    }
}

/// Keeps the bit pattern of the value that was cast in place of its value.
pub trait Bitwise<T>: Sized {
    /// Whether the source and the target type are equally wide.
    spec fn sizes_agree(self) -> bool;

    /// Whether `r` has the bit pattern of the source value.
    spec fn bitwise_is(self, r: T) -> bool;

    fn bitwise(self) -> (r: T)
        requires
            self.sizes_agree(),
        ensures
            self.bitwise_is(r),
    ;
}

impl<A: Primitive, B: Primitive> Bitwise<B> for Result<B, LossyCastError<A, B>> {
    open spec fn sizes_agree(self) -> bool {
        same_size(A::descriptor(), B::descriptor())
    }

    /// The source value is `from` in an `Err`; for an `Ok` it is what the cast back
    /// to the source type gives.
    open spec fn bitwise_is(self, r: B) -> bool {
        match self {
            Ok(v) => match outcome(v.number(), A::descriptor()) {
                Outcome::Exact(n) => r.number() == bitwise_value(n, B::descriptor()),
                Outcome::Lossy { from, to } => r.number() == bitwise_value(to, B::descriptor()),
                Outcome::Unrepresentable { from } => false,
            },
            Err(e) => r.number() == bitwise_value(e.from.number(), B::descriptor()),
        }
    }

    fn bitwise(self) -> (r: B) {
        proof {
            A::lemma_holds_zero();
            B::lemma_holds_zero();
        }
        let source = match self {
            Ok(v) => match classify(v.to_number(), A::describe()) {
                Outcome::Exact(n) => n,
                Outcome::Lossy { from: _, to: n } => n,
                Outcome::Unrepresentable { from: n } => n,
            },
            Err(e) => e.from.to_number(),
        };
        B::from_number(bitwise(source, B::describe()))
    }
}

/// Casts between types of which the first fits the second, so that the cast
/// cannot lose anything; the caller shows that the types are such.
pub trait LosslessCast: Numeric {
    /// Casts `self` to `T`, exactly.
    fn lossless_cast<T: Numeric>(self) -> (r: T)
        requires
            static_lossless(Self::descriptor(), T::descriptor()),
        ensures
            outcome(self.number(), T::descriptor()) == Outcome::Exact(r.number()),
    {
        let from = self.to_number();
        let to = T::describe();
        proof {
            lemma_static_lossless_is_exact(from, to);
        }
        match classify(from, to) {
            Outcome::Exact(n) => T::from_number(n),
            _ => T::from_number(closest(from, to)),
        }
    }
}

impl<A: Numeric> LosslessCast for A {

}

/// Casts as a truncating cast between primitive types does.
pub trait LossyCast: Numeric {
    /// Casts `self` to `T`: the equal value of `T` where there is one, else
    /// what a truncating cast gives.
    fn lossy_cast<T: Primitive>(self) -> (r: T)
        ensures
            raw_value(self.number(), T::descriptor()) == Some(r.number()),
    {
        let from = self.to_number();
        let to = T::describe();
        proof {
            T::lemma_holds_zero();
            if outcome(from, to) is Exact {
                lemma_raw_of_exact(from, to);
            }
        }
        match classify(from, to) {
            Outcome::Exact(n) => T::from_number(n),
            Outcome::Lossy { from: _, to: n } => T::from_number(n),
            Outcome::Unrepresentable { from: _ } => T::from_number(closest(from, to)),
        }
    }
}

impl<A: Numeric> LossyCast for A {

}

/// Casts to the nearest value of the target type.
pub trait SaturatingCast: Numeric {
    /// Casts `self` to `T`: the value of `T` that is nearest to `self`.
    fn saturating_cast<T: Numeric>(self) -> (r: T)
        ensures
            r.number() == closest_value(self.number(), T::descriptor()),
    {
        T::from_number(closest(self.to_number(), T::describe()))
    }
}

impl<A: Numeric> SaturatingCast for A {

}

} // verus!
