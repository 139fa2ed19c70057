//! A numeric value together with its type.

use vstd::prelude::*;
use crate::kinds::{NumericKind, TypeDescriptor, Width};

verus! {

/// What a [`Number`] holds: an integer as sign and magnitude, or the IEEE 754
/// bit pattern of a floating-point value.
#[derive(Clone, Copy, Debug, PartialEq, Eq, Structural)]
pub enum Repr {
    Integer { negative: bool, magnitude: u128 },
    Bits(u64),
}

/// A value of one of the numeric types.
#[derive(Clone, Copy, Debug, PartialEq, Eq, Structural)]
pub struct Number {
    pub desc: TypeDescriptor,
    pub repr: Repr,
}

/// The integer with the given sign and magnitude.
pub open spec fn signed_value(negative: bool, magnitude: u128) -> int {
    if negative {
        -(magnitude as int)
    } else {
        magnitude as int
    }
}

impl Number {
    /// The value lies in its type, and is held in the one way that the type
    /// allows: zero is never negative, a bit pattern is as wide as its kind.
    pub open spec fn wf(self) -> bool {
        &&& self.desc.wf()
        &&& match self.repr {
            Repr::Integer { negative, magnitude } => {
                &&& self.desc.admits(signed_value(negative, magnitude))
                &&& negative ==> magnitude != 0
            },
            Repr::Bits(b) => {
                &&& self.desc.kind.is_float()
                &&& self.desc.kind.width() == Width::W32 ==> b <= 0xffff_ffff
            },
        }
    }

    /// The mathematical value of an integer.
    pub open spec fn value(self) -> int
        recommends
            self.repr is Integer,
    {
        match self.repr {
            Repr::Integer { negative, magnitude } => signed_value(negative, magnitude),
            Repr::Bits(_) => 0,
        }
    }

    /// The bit pattern of a floating-point value.
    pub open spec fn bits(self) -> u64
        recommends
            self.repr is Bits,
    {
        match self.repr {
            Repr::Bits(b) => b,
            Repr::Integer { .. } => 0,
        }
    }

    /// The number of type `desc` with the integer value `v`.
    pub open spec fn of_integer(desc: TypeDescriptor, v: int) -> Number {
        Number {
            desc,
            repr: Repr::Integer {
                negative: v < 0,
                magnitude: (if v < 0 {
                    -v
                } else {
                    v
                }) as u128,
            },
        }
    }

    /// The number of type `desc` with the bit pattern `bits`.
    pub open spec fn of_bits(desc: TypeDescriptor, bits: int) -> Number {
        Number { desc, repr: Repr::Bits(bits as u64) }
    }

    /// The integer with the given sign and magnitude as a number of type
    /// `desc`, where the type holds it.
    pub fn integer(desc: TypeDescriptor, negative: bool, magnitude: u128) -> (n: Option<Number>)
        ensures
            n is Some <==> desc.admits(signed_value(negative, magnitude)),
            n matches Some(x) ==> x.wf() && x == Number::of_integer(
                desc,
                signed_value(negative, magnitude),
            ),
    {
        let neg: bool = negative && magnitude != 0;
        let in_range: bool = match desc.kind {
            NumericKind::UnsignedInt(w) => !neg && magnitude <= w.umax_value(),
            NumericKind::SignedInt(w) => if neg {
                magnitude - 1 <= w.imax_value()
            } else {
                magnitude <= w.imax_value()
            },
            NumericKind::Float(_) => false,
        };
        if in_range && !(desc.nonzero && magnitude == 0) {
            Some(Number { desc, repr: Repr::Integer { negative: neg, magnitude } })
        } else {
            None
        }
    }

    /// The floating-point number of the given width with the given bit pattern;
    /// `None` where the width is not one of a floating-point type, or the
    /// pattern is wider than it.
    pub fn from_bits(width: Width, bits: u64) -> (n: Option<Number>)
        ensures
            n is Some <==> (width == Width::W64 || (width == Width::W32 && bits <= 0xffff_ffff)),
            n matches Some(x) ==> x.wf() && x.desc == (TypeDescriptor {
                kind: NumericKind::Float(width),
                nonzero: false,
            }) && x.repr == Repr::Bits(bits),
    {
        let ok: bool = match width {
            Width::W64 => true,
            Width::W32 => bits <= 0xffff_ffff,
            _ => false,
        };
        if ok {
            Some(
                Number {
                    desc: TypeDescriptor { kind: NumericKind::Float(width), nonzero: false },
                    repr: Repr::Bits(bits),
                },
            )
        } else {
            None
        }
    }
}

} // verus!
