//! Integer types without zero.
//!
//! [`NonZero<T>`] holds a value of the primitive integer type `T` that is not
//! zero. A cast from a primitive type to such a type reports its failure
//! without a lossy value. A cast from one such type to another reports the
//! lossy value too, unless that would be zero.

use vstd::prelude::*;
use crate::base::{CastImpl, Numeric, Primitive};
use crate::casts::{AssumedLossless, Bitwise, Closest, Lossless, Lossy};
use crate::convert::{
    bitwise,
    bitwise_value,
    classify,
    closest,
    closest_value,
    outcome,
    same_size,
    Outcome,
};
use crate::errors::{FailedCastError, LossyCastError, NonZeroCastError};
use crate::kinds::TypeDescriptor;
use crate::number::Number;

verus! {

/// A primitive integer type.
pub trait Integer: Primitive {
    proof fn lemma_is_integer()
        ensures
            Self::descriptor().is_integer(),
    ;
}

impl Integer for u8 {
    proof fn lemma_is_integer() {
    }
}

impl Integer for u16 {
    proof fn lemma_is_integer() {
    }
}

impl Integer for u32 {
    proof fn lemma_is_integer() {
    }
}

impl Integer for u64 {
    proof fn lemma_is_integer() {
    }
}

impl Integer for u128 {
    proof fn lemma_is_integer() {
    }
}

impl Integer for usize {
    proof fn lemma_is_integer() {
    }
}

impl Integer for i8 {
    proof fn lemma_is_integer() {
    }
}

impl Integer for i16 {
    proof fn lemma_is_integer() {
    }
}

impl Integer for i32 {
    proof fn lemma_is_integer() {
    }
}

impl Integer for i64 {
    proof fn lemma_is_integer() {
    }
}

impl Integer for i128 {
    proof fn lemma_is_integer() {
    }
}

impl Integer for isize {
    proof fn lemma_is_integer() {
    }
}

/// A value of the integer type `T` that is not zero.
#[derive(Debug, PartialEq, Eq)]
pub struct NonZero<T: Integer> {
    value: T,
}

impl<T: Integer> Clone for NonZero<T> {
    fn clone(&self) -> (r: Self)
        ensures
            r == *self,
    {
        *self
    }
}

impl<T: Integer> Copy for NonZero<T> {

}

impl<T: Integer> NonZero<T> {
    /// The value, as one of `T`.
    pub closed spec fn inner(self) -> T {
        self.value
    }

    #[verifier::type_invariant]
    spec fn is_not_zero(self) -> bool {
        self.value.number().value() != 0
    }

    /// `value` as a non-zero value; `None` for zero.
    pub fn new(value: T) -> (r: Option<Self>)
        ensures
            r is Some <==> value.number().value() != 0,
            r matches Some(n) ==> n.inner() == value,
    {
        let n = value.to_number();
        proof {
            T::lemma_is_integer();
        }
        match n.repr {
            crate::number::Repr::Integer { negative, magnitude } => if magnitude != 0 {
                Some(NonZero { value })
            } else {
                None
            },
            crate::number::Repr::Bits(_) => None,
        }
    }

    /// The value, as one of `T`.
    pub fn get(self) -> (v: T)
        ensures
            v == self.inner(),
            v.number().value() != 0,
    {
        proof {
            use_type_invariant(&self);
        }
        self.value
    }
}

impl<T: Integer> Numeric for NonZero<T> {
    open spec fn descriptor() -> TypeDescriptor {
        TypeDescriptor { kind: T::descriptor().kind, nonzero: true }
    }

    open spec fn number(self) -> Number {
        Number { desc: Self::descriptor(), repr: self.inner().number().repr }
    }

    proof fn lemma_number_type(self) {
    }

    proof fn lemma_number_is_one_to_one(a: Self, b: Self) {
        a.inner().lemma_number_type();
        b.inner().lemma_number_type();
        T::lemma_number_is_one_to_one(a.inner(), b.inner());
    }

    fn describe() -> (d: TypeDescriptor) {
        proof {
            T::lemma_is_integer();
        }
        TypeDescriptor { kind: T::describe().kind, nonzero: true }
    }

    fn to_number(self) -> (n: Number) {
        proof {
            use_type_invariant(&self);
            T::lemma_is_integer();
            T::lemma_holds_zero();
        }
        let inner = self.value.to_number();
        Number { desc: TypeDescriptor { kind: inner.desc.kind, nonzero: true }, repr: inner.repr }
    }

    fn from_number(n: Number) -> (v: Self) {
        proof {
            T::lemma_is_integer();
            T::lemma_holds_zero();
        }
        let value = T::from_number(Number { desc: T::describe(), repr: n.repr });
        NonZero { value }
    }
}

impl<A: Primitive, T: Integer> CastImpl<NonZero<T>> for A {
    type Error = FailedCastError<A, NonZero<T>>;

    /// `Ok` holds the non-zero value that equals `self`; `Err` holds `self`,
    /// where there is none.
    open spec fn cast_gives(self, r: Result<NonZero<T>, FailedCastError<A, NonZero<T>>>) -> bool {
        match r {
            Ok(v) => outcome(self.number(), NonZero::<T>::descriptor()) == Outcome::Exact(
                v.number(),
            ),
            Err(e) => e.source() == self && !(outcome(self.number(), NonZero::<T>::descriptor())
                is Exact),
        }
    }

    fn cast_impl(self) -> (r: Result<NonZero<T>, FailedCastError<A, NonZero<T>>>) {
        match classify(self.to_number(), NonZero::<T>::describe()) {
            Outcome::Exact(n) => Ok(NonZero::<T>::from_number(n)),
            _ => Err(FailedCastError::new(self)),
        }
    }
}

impl<A: Integer, T: Integer> CastImpl<NonZero<T>> for NonZero<A> {
    type Error = NonZeroCastError<NonZero<A>, NonZero<T>>;

    /// `Ok` holds the value of the target that equals `self`. Where there is
    /// none, `Err` holds `self`, and with it what a truncating cast gives
    /// unless that is zero.
    open spec fn cast_gives(
        self,
        r: Result<NonZero<T>, NonZeroCastError<NonZero<A>, NonZero<T>>>,
    ) -> bool {
        match r {
            Ok(v) => outcome(self.number(), NonZero::<T>::descriptor()) == Outcome::Exact(
                v.number(),
            ),
            Err(NonZeroCastError::Lossy(e)) => e.from == self && outcome(
                self.number(),
                NonZero::<T>::descriptor(),
            ) == (Outcome::Lossy { from: self.number(), to: e.to.number() }),
            Err(NonZeroCastError::Failed(e)) => e.source() == self && outcome(
                self.number(),
                NonZero::<T>::descriptor(),
            ) == (Outcome::Unrepresentable { from: self.number() }),
        }
    }

    fn cast_impl(self) -> (r: Result<NonZero<T>, NonZeroCastError<NonZero<A>, NonZero<T>>>) {
        match classify(self.to_number(), NonZero::<T>::describe()) {
            Outcome::Exact(n) => Ok(NonZero::<T>::from_number(n)),
            Outcome::Lossy { from: _, to: n } => Err(
                NonZeroCastError::Lossy(
                    LossyCastError { from: self, to: NonZero::<T>::from_number(n) },
                ),
            ),
            Outcome::Unrepresentable { from: _ } => Err(
                NonZeroCastError::Failed(FailedCastError::new(self)),
            ),
        }
    }
}

impl<A: Numeric, T: Integer> Closest<NonZero<T>> for FailedCastError<A, NonZero<T>> {
    open spec fn closest_is(self, r: NonZero<T>) -> bool {
        r.number() == closest_value(self.source().number(), NonZero::<T>::descriptor())
    }

    fn closest(self) -> (r: NonZero<T>) {
        NonZero::<T>::from_number(
            closest(self.into_source().to_number(), NonZero::<T>::describe()),
        )
    }
}

impl<A: Integer, T: Integer> Closest<NonZero<T>> for NonZeroCastError<NonZero<A>, NonZero<T>> {
    open spec fn closest_is(self, r: NonZero<T>) -> bool {
        r.number() == closest_value(self.source().number(), NonZero::<T>::descriptor())
    }

    fn closest(self) -> (r: NonZero<T>) {
        NonZero::<T>::from_number(
            closest(self.into_source().to_number(), NonZero::<T>::describe()),
        )
    }
}

impl<A: Integer, T: Integer> Lossy<NonZero<T>> for NonZeroCastError<NonZero<A>, NonZero<T>> {
    /// There is a lossy value unless a truncating cast gave zero.
    open spec fn has_lossy(self) -> bool {
        self is Lossy
    }

    open spec fn lossy_value(self) -> NonZero<T> {
        self->Lossy_0.to
    }

    fn lossy(self) -> (r: NonZero<T>) {
        match self {
            NonZeroCastError::Lossy(e) => e.to,
            NonZeroCastError::Failed(e) => e.closest(),
        }
    }
}

impl<A: Primitive, T: Integer> AssumedLossless<NonZero<T>> for Result<
    NonZero<T>,
    FailedCastError<A, NonZero<T>>,
> {
    open spec fn was_lossless(self) -> bool {
        self is Ok
    }

    open spec fn lossless_value(self) -> NonZero<T> {
        self->Ok_0
    }

    fn assumed_lossless(self) -> (r: NonZero<T>) {
        match self {
            Ok(v) => v,
            Err(e) => e.closest(),
        }
    }
}

impl<A: Primitive, T: Integer> Lossless<NonZero<T>> for Result<
    NonZero<T>,
    FailedCastError<A, NonZero<T>>,
> {
    open spec fn is_lossless(self) -> bool {
        self is Ok
    }

    open spec fn exact_value(self) -> NonZero<T> {
        self->Ok_0
    }

    fn lossless(self) -> (r: NonZero<T>) {
        match self {
            Ok(v) => v,
            Err(e) => e.closest(),
        }
    }
}

impl<A: Integer, T: Integer> Lossless<NonZero<T>> for Result<
    NonZero<T>,
    NonZeroCastError<NonZero<A>, NonZero<T>>,
> {
    open spec fn is_lossless(self) -> bool {
        self is Ok
    }

    open spec fn exact_value(self) -> NonZero<T> {
        self->Ok_0
    }

    fn lossless(self) -> (r: NonZero<T>) {
        match self {
            Ok(v) => v,
            Err(e) => e.closest(),
        }
    }
}

impl<A: Integer, T: Integer> Bitwise<NonZero<T>> for Result<
    NonZero<T>,
    NonZeroCastError<NonZero<A>, NonZero<T>>,
> {
    open spec fn sizes_agree(self) -> bool {
        same_size(NonZero::<A>::descriptor(), NonZero::<T>::descriptor())
    }

    /// The source value is what an `Err` holds; for an `Ok` it is what the
    /// cast back to the source type gives, or `r` itself where that cast fails.
    open spec fn bitwise_is(self, r: NonZero<T>) -> bool {
        match self {
            Ok(v) => match outcome(v.number(), NonZero::<A>::descriptor()) {
                Outcome::Exact(n) => r.number() == bitwise_value(n, NonZero::<T>::descriptor()),
                Outcome::Lossy { from, to } => r.number() == bitwise_value(
                    to,
                    NonZero::<T>::descriptor(),
                ),
                Outcome::Unrepresentable { from } => r == v,
            },
            Err(e) => r.number() == bitwise_value(
                e.source().number(),
                NonZero::<T>::descriptor(),
            ),
        }
    }

    fn bitwise(self) -> (r: NonZero<T>) {
        let source = match self {
            Ok(v) => match classify(v.to_number(), NonZero::<A>::describe()) {
                Outcome::Exact(n) => n,
                Outcome::Lossy { from: _, to: n } => n,
                Outcome::Unrepresentable { from: _ } => {
                    return v;
                },
            },
            Err(e) => e.into_source().to_number(),
        };
        NonZero::<T>::from_number(bitwise(source, NonZero::<T>::describe()))
    }
}

impl<A: Integer, B: Primitive> Bitwise<B> for Result<B, LossyCastError<NonZero<A>, B>> {
    open spec fn sizes_agree(self) -> bool {
        same_size(NonZero::<A>::descriptor(), B::descriptor())
    }

    /// The source value is `from` in an `Err`; for an `Ok` it is what the cast
    /// back to the source type gives, or `r` itself where that cast fails.
    open spec fn bitwise_is(self, r: B) -> bool {
        match self {
            Ok(v) => match outcome(v.number(), NonZero::<A>::descriptor()) {
                Outcome::Exact(n) => r.number() == bitwise_value(n, B::descriptor()),
                Outcome::Lossy { from, to } => r.number() == bitwise_value(to, B::descriptor()),
                Outcome::Unrepresentable { from } => r == v,
            },
            Err(e) => r.number() == bitwise_value(e.from.number(), B::descriptor()),
        }
    }

    fn bitwise(self) -> (r: B) {
        proof {
            B::lemma_holds_zero();
        }
        let source = match self {
            Ok(v) => match classify(v.to_number(), NonZero::<A>::describe()) {
                Outcome::Exact(n) => n,
                Outcome::Lossy { from: _, to: n } => n,
                Outcome::Unrepresentable { from: _ } => {
                    return v;
                },
            },
            Err(e) => e.from.to_number(),
        };
        B::from_number(bitwise(source, B::describe()))
    }
}

} // verus!
