//! The greatest and the least value of each numeric type.

use vstd::prelude::*;
use crate::base::Numeric;
use crate::ieee::{
    infinity,
    sign_bit,
};
use crate::kinds::{lemma_width_facts, NumericKind, Width};
use crate::nonzero::{Integer, NonZero};
use crate::number::{Number, Repr};
use crate::primitives::{F32, F64};

verus! {

/// A numeric type with a greatest value; for a floating-point type it is the
/// greatest finite one.
pub trait Maximum: Numeric {
    /// The number that the greatest value stands for.
    spec fn maximum_number() -> Number;

    fn maximum() -> (m: Self)
        ensures
            m.number() == Self::maximum_number(),
    ;
}

/// A numeric type with a least value; for a floating-point type it is the
/// least finite one.
pub trait Minimum: Numeric {
    /// The number that the least value stands for.
    spec fn minimum_number() -> Number;

    fn minimum() -> (m: Self)
        ensures
            m.number() == Self::minimum_number(),
    ;
}

impl Maximum for u8 {
    open spec fn maximum_number() -> Number {
        Number::of_integer(Self::descriptor(), Self::descriptor().max())
    }

    fn maximum() -> (m: Self) {
        u8::MAX
    }
}

impl Minimum for u8 {
    open spec fn minimum_number() -> Number {
        Number::of_integer(Self::descriptor(), Self::descriptor().min())
    }

    fn minimum() -> (m: Self) {
        u8::MIN
    }
}

impl Maximum for u16 {
    open spec fn maximum_number() -> Number {
        Number::of_integer(Self::descriptor(), Self::descriptor().max())
    }

    fn maximum() -> (m: Self) {
        u16::MAX
    }
}

impl Minimum for u16 {
    open spec fn minimum_number() -> Number {
        Number::of_integer(Self::descriptor(), Self::descriptor().min())
    }

    fn minimum() -> (m: Self) {
        u16::MIN
    }
}

impl Maximum for u32 {
    open spec fn maximum_number() -> Number {
        Number::of_integer(Self::descriptor(), Self::descriptor().max())
    }

    fn maximum() -> (m: Self) {
        u32::MAX
    }
}

impl Minimum for u32 {
    open spec fn minimum_number() -> Number {
        Number::of_integer(Self::descriptor(), Self::descriptor().min())
    }

    fn minimum() -> (m: Self) {
        u32::MIN
    }
}

impl Maximum for u64 {
    open spec fn maximum_number() -> Number {
        Number::of_integer(Self::descriptor(), Self::descriptor().max())
    }

    fn maximum() -> (m: Self) {
        u64::MAX
    }
}

impl Minimum for u64 {
    open spec fn minimum_number() -> Number {
        Number::of_integer(Self::descriptor(), Self::descriptor().min())
    }

    fn minimum() -> (m: Self) {
        u64::MIN
    }
}

impl Maximum for u128 {
    open spec fn maximum_number() -> Number {
        Number::of_integer(Self::descriptor(), Self::descriptor().max())
    }

    fn maximum() -> (m: Self) {
        u128::MAX
    }
}

impl Minimum for u128 {
    open spec fn minimum_number() -> Number {
        Number::of_integer(Self::descriptor(), Self::descriptor().min())
    }

    fn minimum() -> (m: Self) {
        u128::MIN
    }
}

impl Maximum for usize {
    open spec fn maximum_number() -> Number {
        Number::of_integer(Self::descriptor(), Self::descriptor().max())
    }

    fn maximum() -> (m: Self) {
        usize::MAX
    }
}

impl Minimum for usize {
    open spec fn minimum_number() -> Number {
        Number::of_integer(Self::descriptor(), Self::descriptor().min())
    }

    fn minimum() -> (m: Self) {
        usize::MIN
    }
}

impl Maximum for i8 {
    open spec fn maximum_number() -> Number {
        Number::of_integer(Self::descriptor(), Self::descriptor().max())
    }

    fn maximum() -> (m: Self) {
        i8::MAX
    }
}

impl Minimum for i8 {
    open spec fn minimum_number() -> Number {
        Number::of_integer(Self::descriptor(), Self::descriptor().min())
    }

    fn minimum() -> (m: Self) {
        i8::MIN
    }
}

impl Maximum for i16 {
    open spec fn maximum_number() -> Number {
        Number::of_integer(Self::descriptor(), Self::descriptor().max())
    }

    fn maximum() -> (m: Self) {
        i16::MAX
    }
}

impl Minimum for i16 {
    open spec fn minimum_number() -> Number {
        Number::of_integer(Self::descriptor(), Self::descriptor().min())
    }

    fn minimum() -> (m: Self) {
        i16::MIN
    }
}

impl Maximum for i32 {
    open spec fn maximum_number() -> Number {
        Number::of_integer(Self::descriptor(), Self::descriptor().max())
    }

    fn maximum() -> (m: Self) {
        i32::MAX
    }
}

impl Minimum for i32 {
    open spec fn minimum_number() -> Number {
        Number::of_integer(Self::descriptor(), Self::descriptor().min())
    }

    fn minimum() -> (m: Self) {
        i32::MIN
    }
}

impl Maximum for i64 {
    open spec fn maximum_number() -> Number {
        Number::of_integer(Self::descriptor(), Self::descriptor().max())
    }

    fn maximum() -> (m: Self) {
        i64::MAX
    }
}

impl Minimum for i64 {
    open spec fn minimum_number() -> Number {
        Number::of_integer(Self::descriptor(), Self::descriptor().min())
    }

    fn minimum() -> (m: Self) {
        i64::MIN
    }
}

impl Maximum for i128 {
    open spec fn maximum_number() -> Number {
        Number::of_integer(Self::descriptor(), Self::descriptor().max())
    }

    fn maximum() -> (m: Self) {
        i128::MAX
    }
}

impl Minimum for i128 {
    open spec fn minimum_number() -> Number {
        Number::of_integer(Self::descriptor(), Self::descriptor().min())
    }

    fn minimum() -> (m: Self) {
        i128::MIN
    }
}

impl Maximum for isize {
    open spec fn maximum_number() -> Number {
        Number::of_integer(Self::descriptor(), Self::descriptor().max())
    }

    fn maximum() -> (m: Self) {
        isize::MAX
    }
}

impl Minimum for isize {
    open spec fn minimum_number() -> Number {
        Number::of_integer(Self::descriptor(), Self::descriptor().min())
    }

    fn minimum() -> (m: Self) {
        isize::MIN
    }
}

impl Maximum for F32 {
    open spec fn maximum_number() -> Number {
        Number::of_bits(Self::descriptor(), infinity(Width::W32) - 1)
    }

    fn maximum() -> (m: Self) {
        F32 { bits: 0x7f7f_ffff }
    }
}

impl Minimum for F32 {
    open spec fn minimum_number() -> Number {
        Number::of_bits(Self::descriptor(), sign_bit(Width::W32) + infinity(Width::W32) - 1)
    }

    fn minimum() -> (m: Self) {
        F32 { bits: 0xff7f_ffff }
    }
}

impl Maximum for F64 {
    open spec fn maximum_number() -> Number {
        Number::of_bits(Self::descriptor(), infinity(Width::W64) - 1)
    }

    fn maximum() -> (m: Self) {
        F64 { bits: 0x7fef_ffff_ffff_ffff }
    }
}

impl Minimum for F64 {
    open spec fn minimum_number() -> Number {
        Number::of_bits(Self::descriptor(), sign_bit(Width::W64) + infinity(Width::W64) - 1)
    }

    fn minimum() -> (m: Self) {
        F64 { bits: 0xffef_ffff_ffff_ffff }
    }
}

impl<T: Integer + Maximum> Maximum for NonZero<T> {
    open spec fn maximum_number() -> Number {
        Number::of_integer(Self::descriptor(), Self::descriptor().max())
    }

    fn maximum() -> (m: Self) {
        let desc = Self::describe();
        proof {
            T::lemma_is_integer();
            T::lemma_holds_zero();
            lemma_width_facts(desc.kind.width());
        }
        let magnitude: u128 = match desc.kind {
            NumericKind::SignedInt(w) => w.imax_value(),
            _ => desc.kind.get_width().umax_value(),
        };
        NonZero::<T>::from_number(
            Number { desc, repr: Repr::Integer { negative: false, magnitude } },
        )
    }
}

impl<T: Integer + Minimum> Minimum for NonZero<T> {
    /// The least value of a signed type, and 1 for an unsigned type.
    open spec fn minimum_number() -> Number {
        Number::of_integer(
            Self::descriptor(),
            if Self::descriptor().kind is SignedInt {
                Self::descriptor().min()
            } else {
                1
            },
        )
    }

    fn minimum() -> (m: Self) {
        let desc = Self::describe();
        proof {
            T::lemma_is_integer();
            T::lemma_holds_zero();
            lemma_width_facts(desc.kind.width());
        }
        let repr = match desc.kind {
            NumericKind::SignedInt(w) => Repr::Integer {
                negative: true,
                magnitude: w.imax_value() + 1,
            },
            _ => Repr::Integer { negative: false, magnitude: 1 },
        };
        NonZero::<T>::from_number(Number { desc, repr })
    }
}

} // verus!
