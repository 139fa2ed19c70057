//! Casts that keep every value of the source type, by the types alone.

use vstd::prelude::*;
use crate::kinds::{NumericKind, TypeDescriptor};

verus! {

/// Whether every value of the type `from` is a value of the type `to`:
/// an unsigned integer fits a wider or equal unsigned and a wider signed type,
/// a signed integer a wider or equal signed type; an integer fits a
/// floating-point type whose significand has at least as many bits (24 and
/// 53); a floating-point type fits one that is as wide or wider. No type that
/// holds zero fits one that excludes it, and no floating-point type fits an
/// integer type.
pub open spec fn static_lossless(from: TypeDescriptor, to: TypeDescriptor) -> bool {
    let a = from.kind.width().bits();
    let b = to.kind.width().bits();
    &&& to.nonzero ==> from.nonzero
    &&& match (from.kind, to.kind) {
        (NumericKind::UnsignedInt(_), NumericKind::UnsignedInt(_)) => a <= b,
        (NumericKind::UnsignedInt(_), NumericKind::SignedInt(_)) => a < b,
        (NumericKind::SignedInt(_), NumericKind::SignedInt(_)) => a <= b,
        (NumericKind::SignedInt(_), NumericKind::UnsignedInt(_)) => false,
        (NumericKind::Float(_), NumericKind::Float(_)) => a <= b,
        (NumericKind::Float(_), _) => false,
        (_, NumericKind::Float(_)) => (b == 32 && a <= 16) || (b == 64 && a <= 32),
    }
}

/// Decides [`static_lossless`].
pub fn is_static_lossless(from: TypeDescriptor, to: TypeDescriptor) -> (b: bool)
    ensures
        b == static_lossless(from, to),
{
    let a: u32 = from.kind.get_width().bit_count();
    let b: u32 = to.kind.get_width().bit_count();
    if to.nonzero && !from.nonzero {
        return false;
    }
    match (from.kind, to.kind) {
        (NumericKind::UnsignedInt(_), NumericKind::UnsignedInt(_)) => a <= b,
        (NumericKind::UnsignedInt(_), NumericKind::SignedInt(_)) => a < b,
        (NumericKind::SignedInt(_), NumericKind::SignedInt(_)) => a <= b,
        (NumericKind::SignedInt(_), NumericKind::UnsignedInt(_)) => false,
        (NumericKind::Float(_), NumericKind::Float(_)) => a <= b,
        (NumericKind::Float(_), _) => false,
        (_, NumericKind::Float(_)) => (b == 32 && a <= 16) || (b == 64 && a <= 32),
    }
}

} // verus!
