//! Facts about the numeric types: class, width, range, and the non-zero flag.

use vstd::prelude::*;

verus! {

/// The width of a numeric type; `Pointer` is the width of `usize` on the
/// machine that the crate is built for.
#[derive(Clone, Copy, Debug, PartialEq, Eq, Structural)]
pub enum Width {
    W8,
    W16,
    W32,
    W64,
    W128,
    Pointer,
}

/// The class of a numeric type together with its width.
#[derive(Clone, Copy, Debug, PartialEq, Eq, Structural)]
pub enum NumericKind {
    UnsignedInt(Width),
    SignedInt(Width),
    Float(Width),
}

/// A numeric type: its kind, and whether zero is excluded from it.
#[derive(Clone, Copy, Debug, PartialEq, Eq, Structural)]
pub struct TypeDescriptor {
    pub kind: NumericKind,
    pub nonzero: bool,
}

/// Two to the power 127, the magnitude of the least 128-bit signed integer.
pub const TWO_POW_127: u128 = 0x8000_0000_0000_0000_0000_0000_0000_0000u128;

impl Width {
    /// The number of bits of a value of this width.
    pub open spec fn bits(self) -> nat {
        match self {
            Width::W8 => 8,
            Width::W16 => 16,
            Width::W32 => 32,
            Width::W64 => 64,
            Width::W128 => 128,
            Width::Pointer => usize::BITS as nat,
        }
    }

    /// The greatest unsigned integer of this width.
    pub open spec fn umax(self) -> int {
        match self {
            Width::W8 => 0xff,
            Width::W16 => 0xffff,
            Width::W32 => 0xffff_ffff,
            Width::W64 => 0xffff_ffff_ffff_ffff,
            Width::W128 => 0xffff_ffff_ffff_ffff_ffff_ffff_ffff_ffff,
            Width::Pointer => usize::MAX as int,
        }
    }

    /// The number of bit patterns of this width: two to the power `bits()`.
    pub open spec fn modulus(self) -> int {
        self.umax() + 1
    }

    /// The greatest signed integer of this width.
    pub open spec fn imax(self) -> int {
        self.modulus() / 2 - 1
    }

    /// The least signed integer of this width.
    pub open spec fn imin(self) -> int {
        -(self.modulus() / 2)
    }

    pub fn bit_count(self) -> (b: u32)
        ensures
            b == self.bits(),
    {
        match self {
            Width::W8 => 8,
            Width::W16 => 16,
            Width::W32 => 32,
            Width::W64 => 64,
            Width::W128 => 128,
            Width::Pointer => usize::BITS,
        }
    }

    pub fn umax_value(self) -> (m: u128)
        ensures
            m == self.umax(),
    {
        match self {
            Width::W8 => 0xff,
            Width::W16 => 0xffff,
            Width::W32 => 0xffff_ffff,
            Width::W64 => 0xffff_ffff_ffff_ffff,
            Width::W128 => u128::MAX,
            Width::Pointer => usize::MAX as u128,
        }
    }

    pub fn imax_value(self) -> (m: u128)
        ensures
            m == self.imax(),
    {
        self.umax_value() / 2
    }
}

impl NumericKind {
    /// The width of the kind.
    pub open spec fn width(self) -> Width {
        match self {
            NumericKind::UnsignedInt(w) => w,
            NumericKind::SignedInt(w) => w,
            NumericKind::Float(w) => w,
        }
    }

    pub open spec fn is_float(self) -> bool {
        self is Float
    }

    pub fn get_width(self) -> (w: Width)
        ensures
            w == self.width(),
    {
        match self {
            NumericKind::UnsignedInt(w) => w,
            NumericKind::SignedInt(w) => w,
            NumericKind::Float(w) => w,
        }
    }
}

impl TypeDescriptor {
    /// A floating-point kind is 32 or 64 bits wide and has no non-zero variant.
    pub open spec fn wf(self) -> bool {
        match self.kind {
            NumericKind::Float(w) => (w == Width::W32 || w == Width::W64) && !self.nonzero,
            _ => true,
        }
    }

    pub open spec fn is_integer(self) -> bool {
        !self.kind.is_float()
    }

    /// The least value of the underlying integer type.
    pub open spec fn min(self) -> int
        recommends
            self.is_integer(),
    {
        match self.kind {
            NumericKind::SignedInt(w) => w.imin(),
            _ => 0,
        }
    }

    /// The greatest value of the underlying integer type.
    pub open spec fn max(self) -> int
        recommends
            self.is_integer(),
    {
        match self.kind {
            NumericKind::SignedInt(w) => w.imax(),
            NumericKind::UnsignedInt(w) => w.umax(),
            NumericKind::Float(_) => 0,
        }
    }

    /// Whether the integer type holds the mathematical integer `v`.
    pub open spec fn admits(self, v: int) -> bool {
        &&& self.is_integer()
        &&& self.min() <= v <= self.max()
        &&& self.nonzero ==> v != 0
    }

    /// The descriptor of a primitive type of the given kind.
    pub fn primitive(kind: NumericKind) -> (d: TypeDescriptor)
        ensures
            d == (TypeDescriptor { kind, nonzero: false }),
    {
        TypeDescriptor { kind, nonzero: false }
    }

    /// The descriptor of the non-zero variant of an integer kind; `None` for a
    /// floating-point kind, which has no such variant.
    pub fn non_zero(kind: NumericKind) -> (d: Option<TypeDescriptor>)
        ensures
            kind.is_float() <==> d is None,
            d matches Some(t) ==> t == (TypeDescriptor { kind, nonzero: true }),
    {
        match kind {
            NumericKind::Float(_) => None,
            _ => Some(TypeDescriptor { kind, nonzero: true }),
        }
    }

    /// The same type with the non-zero flag cleared.
    pub fn underlying(self) -> (d: TypeDescriptor)
        ensures
            d == (TypeDescriptor { kind: self.kind, nonzero: false }),
    {
        TypeDescriptor { kind: self.kind, nonzero: false }
    }

    pub fn is_well_formed(self) -> (b: bool)
        ensures
            b == self.wf(),
    {
        match self.kind {
            NumericKind::Float(w) => (w == Width::W32 || w == Width::W64) && !self.nonzero,
            _ => true,
        }
    }
}

/// The modulus of every width is two to the power of its bit count, and the
/// pointer width is one of the fixed widths.
pub proof fn lemma_width_facts(w: Width)
    ensures
        w.modulus() == vstd::arithmetic::power2::pow2(w.bits()),
        w.bits() == 8 || w.bits() == 16 || w.bits() == 32 || w.bits() == 64 || w.bits() == 128,
        w.modulus() % 2 == 0,
        w.modulus() >= 256,
{
    vstd::arithmetic::power2::lemma2_to64();
    vstd::arithmetic::power2::lemma2_to64_rest();
    vstd::arithmetic::power2::lemma_pow2_adds(64, 64);
}

} // verus!
