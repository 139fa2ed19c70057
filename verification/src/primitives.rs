//! Rust's primitive numeric types as [`Numeric`] types. A floating-point value
//! is held by its bit pattern, in [`F32`] and [`F64`].

use vstd::prelude::*;
use crate::base::{Numeric, Primitive};
use crate::kinds::{NumericKind, TypeDescriptor, Width, TWO_POW_127};
use crate::number::{Number, Repr};

verus! {

/// A 32-bit floating-point value, by its IEEE 754 bit pattern.
#[derive(Clone, Copy, Debug, PartialEq, Eq, Structural)]
pub struct F32 {
    pub bits: u32,
}

/// A 64-bit floating-point value, by its IEEE 754 bit pattern.
#[derive(Clone, Copy, Debug, PartialEq, Eq, Structural)]
pub struct F64 {
    pub bits: u64,
}

impl F32 {
    pub fn from_bits(bits: u32) -> (v: Self)
        ensures
            v.bits == bits,
    {
        F32 { bits }
    }

    pub fn to_bits(self) -> (bits: u32)
        ensures
            bits == self.bits,
    {
        self.bits
    }
}

impl F64 {
    pub fn from_bits(bits: u64) -> (v: Self)
        ensures
            v.bits == bits,
    {
        F64 { bits }
    }

    pub fn to_bits(self) -> (bits: u64)
        ensures
            bits == self.bits,
    {
        self.bits
    }
}

impl Numeric for u8 {
    open spec fn descriptor() -> TypeDescriptor {
        TypeDescriptor { kind: NumericKind::UnsignedInt(Width::W8), nonzero: false }
    }

    open spec fn number(self) -> Number {
        Number::of_integer(Self::descriptor(), self as int)
    }

    proof fn lemma_number_type(self) {
    }

    proof fn lemma_number_is_one_to_one(a: Self, b: Self) {
    }

    fn describe() -> (d: TypeDescriptor) {
        TypeDescriptor { kind: NumericKind::UnsignedInt(Width::W8), nonzero: false }
    }

    fn to_number(self) -> (n: Number) {
        Number {
            desc: TypeDescriptor { kind: NumericKind::UnsignedInt(Width::W8), nonzero: false },
            repr: Repr::Integer { negative: false, magnitude: self as u128 },
        }
    }

    fn from_number(n: Number) -> (v: Self) {
        match n.repr {
            Repr::Integer { negative, magnitude } => magnitude as u8,
            Repr::Bits(_) => 0,
        }
    }
}

impl Primitive for u8 {
    proof fn lemma_holds_zero() {
    }
}

impl Numeric for u16 {
    open spec fn descriptor() -> TypeDescriptor {
        TypeDescriptor { kind: NumericKind::UnsignedInt(Width::W16), nonzero: false }
    }

    open spec fn number(self) -> Number {
        Number::of_integer(Self::descriptor(), self as int)
    }

    proof fn lemma_number_type(self) {
    }

    proof fn lemma_number_is_one_to_one(a: Self, b: Self) {
    }

    fn describe() -> (d: TypeDescriptor) {
        TypeDescriptor { kind: NumericKind::UnsignedInt(Width::W16), nonzero: false }
    }

    fn to_number(self) -> (n: Number) {
        Number {
            desc: TypeDescriptor { kind: NumericKind::UnsignedInt(Width::W16), nonzero: false },
            repr: Repr::Integer { negative: false, magnitude: self as u128 },
        }
    }

    fn from_number(n: Number) -> (v: Self) {
        match n.repr {
            Repr::Integer { negative, magnitude } => magnitude as u16,
            Repr::Bits(_) => 0,
        }
    }
}

impl Primitive for u16 {
    proof fn lemma_holds_zero() {
    }
}

impl Numeric for u32 {
    open spec fn descriptor() -> TypeDescriptor {
        TypeDescriptor { kind: NumericKind::UnsignedInt(Width::W32), nonzero: false }
    }

    open spec fn number(self) -> Number {
        Number::of_integer(Self::descriptor(), self as int)
    }

    proof fn lemma_number_type(self) {
    }

    proof fn lemma_number_is_one_to_one(a: Self, b: Self) {
    }

    fn describe() -> (d: TypeDescriptor) {
        TypeDescriptor { kind: NumericKind::UnsignedInt(Width::W32), nonzero: false }
    }

    fn to_number(self) -> (n: Number) {
        Number {
            desc: TypeDescriptor { kind: NumericKind::UnsignedInt(Width::W32), nonzero: false },
            repr: Repr::Integer { negative: false, magnitude: self as u128 },
        }
    }

    fn from_number(n: Number) -> (v: Self) {
        match n.repr {
            Repr::Integer { negative, magnitude } => magnitude as u32,
            Repr::Bits(_) => 0,
        }
    }
}

impl Primitive for u32 {
    proof fn lemma_holds_zero() {
    }
}

impl Numeric for u64 {
    open spec fn descriptor() -> TypeDescriptor {
        TypeDescriptor { kind: NumericKind::UnsignedInt(Width::W64), nonzero: false }
    }

    open spec fn number(self) -> Number {
        Number::of_integer(Self::descriptor(), self as int)
    }

    proof fn lemma_number_type(self) {
    }

    proof fn lemma_number_is_one_to_one(a: Self, b: Self) {
    }

    fn describe() -> (d: TypeDescriptor) {
        TypeDescriptor { kind: NumericKind::UnsignedInt(Width::W64), nonzero: false }
    }

    fn to_number(self) -> (n: Number) {
        Number {
            desc: TypeDescriptor { kind: NumericKind::UnsignedInt(Width::W64), nonzero: false },
            repr: Repr::Integer { negative: false, magnitude: self as u128 },
        }
    }

    fn from_number(n: Number) -> (v: Self) {
        match n.repr {
            Repr::Integer { negative, magnitude } => magnitude as u64,
            Repr::Bits(_) => 0,
        }
    }
}

impl Primitive for u64 {
    proof fn lemma_holds_zero() {
    }
}

impl Numeric for u128 {
    open spec fn descriptor() -> TypeDescriptor {
        TypeDescriptor { kind: NumericKind::UnsignedInt(Width::W128), nonzero: false }
    }

    open spec fn number(self) -> Number {
        Number::of_integer(Self::descriptor(), self as int)
    }

    proof fn lemma_number_type(self) {
    }

    proof fn lemma_number_is_one_to_one(a: Self, b: Self) {
    }

    fn describe() -> (d: TypeDescriptor) {
        TypeDescriptor { kind: NumericKind::UnsignedInt(Width::W128), nonzero: false }
    }

    fn to_number(self) -> (n: Number) {
        Number {
            desc: TypeDescriptor { kind: NumericKind::UnsignedInt(Width::W128), nonzero: false },
            repr: Repr::Integer { negative: false, magnitude: self as u128 },
        }
    }

    fn from_number(n: Number) -> (v: Self) {
        match n.repr {
            Repr::Integer { negative, magnitude } => magnitude as u128,
            Repr::Bits(_) => 0,
        }
    }
}

impl Primitive for u128 {
    proof fn lemma_holds_zero() {
    }
}

impl Numeric for usize {
    open spec fn descriptor() -> TypeDescriptor {
        TypeDescriptor { kind: NumericKind::UnsignedInt(Width::Pointer), nonzero: false }
    }

    open spec fn number(self) -> Number {
        Number::of_integer(Self::descriptor(), self as int)
    }

    proof fn lemma_number_type(self) {
    }

    proof fn lemma_number_is_one_to_one(a: Self, b: Self) {
    }

    fn describe() -> (d: TypeDescriptor) {
        TypeDescriptor { kind: NumericKind::UnsignedInt(Width::Pointer), nonzero: false }
    }

    fn to_number(self) -> (n: Number) {
        Number {
            desc: TypeDescriptor { kind: NumericKind::UnsignedInt(Width::Pointer), nonzero: false },
            repr: Repr::Integer { negative: false, magnitude: self as u128 },
        }
    }

    fn from_number(n: Number) -> (v: Self) {
        match n.repr {
            Repr::Integer { negative, magnitude } => magnitude as usize,
            Repr::Bits(_) => 0,
        }
    }
}

impl Primitive for usize {
    proof fn lemma_holds_zero() {
    }
}

impl Numeric for i8 {
    open spec fn descriptor() -> TypeDescriptor {
        TypeDescriptor { kind: NumericKind::SignedInt(Width::W8), nonzero: false }
    }

    open spec fn number(self) -> Number {
        Number::of_integer(Self::descriptor(), self as int)
    }

    proof fn lemma_number_type(self) {
    }

    proof fn lemma_number_is_one_to_one(a: Self, b: Self) {
    }

    fn describe() -> (d: TypeDescriptor) {
        TypeDescriptor { kind: NumericKind::SignedInt(Width::W8), nonzero: false }
    }

    fn to_number(self) -> (n: Number) {
        let magnitude: u128 = if self < 0 {
            (-(self as i128)) as u128
        } else {
            self as u128
        };
        Number {
            desc: TypeDescriptor { kind: NumericKind::SignedInt(Width::W8), nonzero: false },
            repr: Repr::Integer { negative: self < 0, magnitude },
        }
    }

    fn from_number(n: Number) -> (v: Self) {
        match n.repr {
            Repr::Integer { negative, magnitude } => if negative {
                (-(magnitude as i128)) as i8
            } else {
                magnitude as i8
            },
            Repr::Bits(_) => 0,
        }
    }
}

impl Primitive for i8 {
    proof fn lemma_holds_zero() {
    }
}

impl Numeric for i16 {
    open spec fn descriptor() -> TypeDescriptor {
        TypeDescriptor { kind: NumericKind::SignedInt(Width::W16), nonzero: false }
    }

    open spec fn number(self) -> Number {
        Number::of_integer(Self::descriptor(), self as int)
    }

    proof fn lemma_number_type(self) {
    }

    proof fn lemma_number_is_one_to_one(a: Self, b: Self) {
    }

    fn describe() -> (d: TypeDescriptor) {
        TypeDescriptor { kind: NumericKind::SignedInt(Width::W16), nonzero: false }
    }

    fn to_number(self) -> (n: Number) {
        let magnitude: u128 = if self < 0 {
            (-(self as i128)) as u128
        } else {
            self as u128
        };
        Number {
            desc: TypeDescriptor { kind: NumericKind::SignedInt(Width::W16), nonzero: false },
            repr: Repr::Integer { negative: self < 0, magnitude },
        }
    }

    fn from_number(n: Number) -> (v: Self) {
        match n.repr {
            Repr::Integer { negative, magnitude } => if negative {
                (-(magnitude as i128)) as i16
            } else {
                magnitude as i16
            },
            Repr::Bits(_) => 0,
        }
    }
}

impl Primitive for i16 {
    proof fn lemma_holds_zero() {
    }
}

impl Numeric for i32 {
    open spec fn descriptor() -> TypeDescriptor {
        TypeDescriptor { kind: NumericKind::SignedInt(Width::W32), nonzero: false }
    }

    open spec fn number(self) -> Number {
        Number::of_integer(Self::descriptor(), self as int)
    }

    proof fn lemma_number_type(self) {
    }

    proof fn lemma_number_is_one_to_one(a: Self, b: Self) {
    }

    fn describe() -> (d: TypeDescriptor) {
        TypeDescriptor { kind: NumericKind::SignedInt(Width::W32), nonzero: false }
    }

    fn to_number(self) -> (n: Number) {
        let magnitude: u128 = if self < 0 {
            (-(self as i128)) as u128
        } else {
            self as u128
        };
        Number {
            desc: TypeDescriptor { kind: NumericKind::SignedInt(Width::W32), nonzero: false },
            repr: Repr::Integer { negative: self < 0, magnitude },
        }
    }

    fn from_number(n: Number) -> (v: Self) {
        match n.repr {
            Repr::Integer { negative, magnitude } => if negative {
                (-(magnitude as i128)) as i32
            } else {
                magnitude as i32
            },
            Repr::Bits(_) => 0,
        }
    }
}

impl Primitive for i32 {
    proof fn lemma_holds_zero() {
    }
}

impl Numeric for i64 {
    open spec fn descriptor() -> TypeDescriptor {
        TypeDescriptor { kind: NumericKind::SignedInt(Width::W64), nonzero: false }
    }

    open spec fn number(self) -> Number {
        Number::of_integer(Self::descriptor(), self as int)
    }

    proof fn lemma_number_type(self) {
    }

    proof fn lemma_number_is_one_to_one(a: Self, b: Self) {
    }

    fn describe() -> (d: TypeDescriptor) {
        TypeDescriptor { kind: NumericKind::SignedInt(Width::W64), nonzero: false }
    }

    fn to_number(self) -> (n: Number) {
        let magnitude: u128 = if self < 0 {
            (-(self as i128)) as u128
        } else {
            self as u128
        };
        Number {
            desc: TypeDescriptor { kind: NumericKind::SignedInt(Width::W64), nonzero: false },
            repr: Repr::Integer { negative: self < 0, magnitude },
        }
    }

    fn from_number(n: Number) -> (v: Self) {
        match n.repr {
            Repr::Integer { negative, magnitude } => if negative {
                (-(magnitude as i128)) as i64
            } else {
                magnitude as i64
            },
            Repr::Bits(_) => 0,
        }
    }
}

impl Primitive for i64 {
    proof fn lemma_holds_zero() {
    }
}

impl Numeric for i128 {
    open spec fn descriptor() -> TypeDescriptor {
        TypeDescriptor { kind: NumericKind::SignedInt(Width::W128), nonzero: false }
    }

    open spec fn number(self) -> Number {
        Number::of_integer(Self::descriptor(), self as int)
    }

    proof fn lemma_number_type(self) {
    }

    proof fn lemma_number_is_one_to_one(a: Self, b: Self) {
    }

    fn describe() -> (d: TypeDescriptor) {
        TypeDescriptor { kind: NumericKind::SignedInt(Width::W128), nonzero: false }
    }

    fn to_number(self) -> (n: Number) {
        let magnitude: u128 = if self < 0 {
            if self == i128::MIN {
                TWO_POW_127
            } else {
                (-self) as u128
            }
        } else {
            self as u128
        };
        Number {
            desc: TypeDescriptor { kind: NumericKind::SignedInt(Width::W128), nonzero: false },
            repr: Repr::Integer { negative: self < 0, magnitude },
        }
    }

    fn from_number(n: Number) -> (v: Self) {
        match n.repr {
            Repr::Integer { negative, magnitude } => if negative {
                if magnitude == TWO_POW_127 {
                i128::MIN
            } else {
                -(magnitude as i128)
            }
            } else {
                magnitude as i128
            },
            Repr::Bits(_) => 0,
        }
    }
}

impl Primitive for i128 {
    proof fn lemma_holds_zero() {
    }
}

impl Numeric for isize {
    open spec fn descriptor() -> TypeDescriptor {
        TypeDescriptor { kind: NumericKind::SignedInt(Width::Pointer), nonzero: false }
    }

    open spec fn number(self) -> Number {
        Number::of_integer(Self::descriptor(), self as int)
    }

    proof fn lemma_number_type(self) {
    }

    proof fn lemma_number_is_one_to_one(a: Self, b: Self) {
    }

    fn describe() -> (d: TypeDescriptor) {
        TypeDescriptor { kind: NumericKind::SignedInt(Width::Pointer), nonzero: false }
    }

    fn to_number(self) -> (n: Number) {
        let magnitude: u128 = if self < 0 {
            (-(self as i128)) as u128
        } else {
            self as u128
        };
        Number {
            desc: TypeDescriptor { kind: NumericKind::SignedInt(Width::Pointer), nonzero: false },
            repr: Repr::Integer { negative: self < 0, magnitude },
        }
    }

    fn from_number(n: Number) -> (v: Self) {
        match n.repr {
            Repr::Integer { negative, magnitude } => if negative {
                (-(magnitude as i128)) as isize
            } else {
                magnitude as isize
            },
            Repr::Bits(_) => 0,
        }
    }
}

impl Primitive for isize {
    proof fn lemma_holds_zero() {
    }
}

impl Numeric for F32 {
    open spec fn descriptor() -> TypeDescriptor {
        TypeDescriptor { kind: NumericKind::Float(Width::W32), nonzero: false }
    }

    open spec fn number(self) -> Number {
        Number::of_bits(Self::descriptor(), self.bits as int)
    }

    proof fn lemma_number_type(self) {
    }

    proof fn lemma_number_is_one_to_one(a: Self, b: Self) {
    }

    fn describe() -> (d: TypeDescriptor) {
        TypeDescriptor { kind: NumericKind::Float(Width::W32), nonzero: false }
    }

    fn to_number(self) -> (n: Number) {
        Number {
            desc: TypeDescriptor { kind: NumericKind::Float(Width::W32), nonzero: false },
            repr: Repr::Bits(self.bits as u64),
        }
    }

    fn from_number(n: Number) -> (v: Self) {
        match n.repr {
            Repr::Bits(b) => F32 { bits: b as u32 },
            Repr::Integer { .. } => F32 { bits: 0 },
        }
    }
}

impl Primitive for F32 {
    proof fn lemma_holds_zero() {
    }
}

impl Numeric for F64 {
    open spec fn descriptor() -> TypeDescriptor {
        TypeDescriptor { kind: NumericKind::Float(Width::W64), nonzero: false }
    }

    open spec fn number(self) -> Number {
        Number::of_bits(Self::descriptor(), self.bits as int)
    }

    proof fn lemma_number_type(self) {
    }

    proof fn lemma_number_is_one_to_one(a: Self, b: Self) {
    }

    fn describe() -> (d: TypeDescriptor) {
        TypeDescriptor { kind: NumericKind::Float(Width::W64), nonzero: false }
    }

    fn to_number(self) -> (n: Number) {
        Number {
            desc: TypeDescriptor { kind: NumericKind::Float(Width::W64), nonzero: false },
            repr: Repr::Bits(self.bits as u64),
        }
    }

    fn from_number(n: Number) -> (v: Self) {
        match n.repr {
            Repr::Bits(b) => F64 { bits: b as u64 },
            Repr::Integer { .. } => F64 { bits: 0 },
        }
    }
}

impl Primitive for F64 {
    proof fn lemma_holds_zero() {
    }
}

} // verus!
