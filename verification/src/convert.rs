//! The conversion of a number to another numeric type: whether it is exact,
//! what a truncating cast gives, and the nearest value of the target.

use vstd::prelude::*;
use crate::ieee::{
    field_max_of,
    fraction,
    fraction_modulus,
    infinity,
    infinity_of,
    integer_parts,
    is_finite,
    is_format,
    is_infinite,
    is_integral,
    is_nan,
    is_negative,
    is_pattern,
    lemma_below_infinity,
    rounded,
    scale,
    sign_bit,
    sign_bit_of,
    significand,
    split,
    truncated,
    unpack,
};
use crate::rounding::{
    encode,
    encode_magnitude,
    lemma_encode_range,
};
use crate::integer::{
    clamp,
    clamp_integer,
    lemma_low_bits,
    low_bits,
    residue,
    wrap,
    wrap_integer,
};
use crate::kinds::{lemma_width_facts, NumericKind, TypeDescriptor, Width};
use crate::number::{signed_value, Number, Repr};

verus! {

/// How a cast ended.
#[derive(Clone, Copy, Debug, PartialEq, Eq, Structural)]
pub enum Outcome {
    /// The target type holds the source value; here it is.
    Exact(Number),
    /// The value changed: `to` is what a truncating cast gives.
    Lossy { from: Number, to: Number },
    /// The value changed and a truncating cast would give zero, which the
    /// non-zero target type does not hold.
    Unrepresentable { from: Number },
}

/// The integer that a number is, if it is one: any integer, and a finite
/// floating-point value without a fractional part (either zero is 0).
pub open spec fn integer_value(from: Number) -> Option<int> {
    let w = from.desc.kind.width();
    match from.repr {
        Repr::Integer { negative, magnitude } => Some(signed_value(negative, magnitude)),
        Repr::Bits(b) => if is_finite(b, w) && is_integral(b, w) {
            Some(
                if is_negative(b, w) {
                    -truncated(b, w)
                } else {
                    truncated(b, w)
                },
            )
        } else {
            None
        },
    }
}

/// What a truncating cast to the underlying integer type of `to` gives. An
/// integer wraps; a floating-point value loses its fractional part and
/// saturates, and a NaN gives 0.
pub open spec fn raw_integer(from: Number, to: TypeDescriptor) -> int {
    let w = from.desc.kind.width();
    match from.repr {
        Repr::Integer { negative, magnitude } => wrap(signed_value(negative, magnitude), to.kind),
        Repr::Bits(b) => if is_nan(b, w) {
            0
        } else if is_infinite(b, w) {
            if is_negative(b, w) {
                to.min()
            } else {
                to.max()
            }
        } else if is_negative(b, w) {
            clamp(-truncated(b, w), to)
        } else {
            clamp(truncated(b, w), to)
        },
    }
}

/// The value of the underlying integer type of `to` that is nearest to the
/// number, a tie between two integers going away from zero; 0 for a NaN.
pub open spec fn nearest_integer(from: Number, to: TypeDescriptor) -> int {
    let w = from.desc.kind.width();
    match from.repr {
        Repr::Integer { negative, magnitude } => clamp(signed_value(negative, magnitude), to),
        Repr::Bits(b) => if is_nan(b, w) {
            0
        } else if is_infinite(b, w) {
            if is_negative(b, w) {
                to.min()
            } else {
                to.max()
            }
        } else if is_negative(b, w) {
            clamp(-rounded(b, w), to)
        } else {
            clamp(rounded(b, w), to)
        },
    }
}

/// Whether the number is a floating-point value with the sign bit set.
pub open spec fn has_sign_bit(from: Number) -> bool {
    match from.repr {
        Repr::Integer { .. } => false,
        Repr::Bits(b) => is_negative(b, from.desc.kind.width()),
    }
}

/// The value of the integer type `to` that is nearest to the number. Where the
/// type excludes zero and zero is nearest, it is -1 for a signed type and a
/// floating-point source with the sign bit set, and 1 otherwise.
pub open spec fn closest_integer(from: Number, to: TypeDescriptor) -> int {
    let near = nearest_integer(from, to);
    if to.nonzero && near == 0 {
        if to.kind is SignedInt && has_sign_bit(from) {
            -1
        } else {
            1
        }
    } else {
        near
    }
}

/// The sign bit of the format where `negative`, else 0.
pub open spec fn sign_of(negative: bool, w: Width) -> int {
    if negative {
        sign_bit(w)
    } else {
        0
    }
}

/// The pattern of the format `to` for a pattern of the format `from`: the
/// same value where `to` holds it, else the nearest one. An infinity stays one;
/// a NaN stays one, quiet, with the sign and the leading payload bits kept.
pub open spec fn recoded(b: u64, from: Width, to: Width) -> int {
    let sign = sign_of(is_negative(b, from), to);
    if from == to {
        b as int
    } else if is_nan(b, from) {
        let payload = if from == Width::W32 {
            fraction(b, from) * 0x2000_0000
        } else {
            fraction(b, from) / 0x2000_0000
        };
        let half = fraction_modulus(to) / 2;
        sign + infinity(to) + half + payload % half
    } else if is_infinite(b, from) {
        sign + infinity(to)
    } else {
        sign + encode(significand(b, from) as nat, scale(b, from), to)
    }
}

/// The pattern that a cast to the floating-point format `w` gives: the value
/// of the format nearest to the number, a tie going to the even significand.
pub open spec fn raw_bits(from: Number, w: Width) -> int {
    match from.repr {
        Repr::Integer { negative, magnitude } => sign_of(negative, w) + encode(
            magnitude as nat,
            0,
            w,
        ),
        Repr::Bits(b) => recoded(b, from.desc.kind.width(), w),
    }
}

/// Whether the pattern `bits`, which a cast of the number to the format `w`
/// gave, counts as the same value. For an integer: the pattern is finite and
/// stands for that integer. For a floating-point value: the format is its
/// own or the wider one, or the value is a NaN, or the cast back to its own
/// format gives its pattern again.
pub open spec fn bits_keep(from: Number, bits: int, w: Width) -> bool {
    let fw = from.desc.kind.width();
    match from.repr {
        Repr::Integer { negative, magnitude } => {
            let m = (bits - sign_of(negative, w)) as u64;
            m < infinity(w) && is_integral(m, w) && truncated(m, w) == magnitude
        },
        Repr::Bits(b) => fw == w || fw == Width::W32 || is_nan(b, fw) || recoded(
            bits as u64,
            w,
            fw,
        ) == b,
    }
}

/// Whether the pattern is an infinity that came from a finite number.
pub open spec fn overflowed(from: Number, bits: int, w: Width) -> bool {
    let fw = from.desc.kind.width();
    &&& bits == infinity(w) || bits == sign_bit(w) + infinity(w)
    &&& match from.repr {
        Repr::Integer { .. } => true,
        Repr::Bits(b) => is_finite(b, fw),
    }
}

/// The pattern of the format `w` that is nearest to the number: what a cast
/// gives, but the greatest finite magnitude where a finite number is beyond it.
pub open spec fn closest_bits(from: Number, w: Width) -> int {
    let raw = raw_bits(from, w);
    if overflowed(from, raw, w) {
        raw - 1
    } else {
        raw
    }
}

/// The value of type `to` that equals the number, if there is one.
pub open spec fn exact_value(from: Number, to: TypeDescriptor) -> Option<Number> {
    match to.kind {
        NumericKind::Float(w) => if bits_keep(from, raw_bits(from, w), w) {
            Some(Number::of_bits(to, raw_bits(from, w)))
        } else {
            None
        },
        _ => match integer_value(from) {
            Some(v) => if to.admits(v) {
                Some(Number::of_integer(to, v))
            } else {
                None
            },
            None => None,
        },
    }
}

/// What a truncating cast to `to` gives; `None` where `to` excludes zero and
/// the cast would give it.
pub open spec fn raw_value(from: Number, to: TypeDescriptor) -> Option<Number> {
    match to.kind {
        NumericKind::Float(w) => Some(Number::of_bits(to, raw_bits(from, w))),
        _ => if to.nonzero && raw_integer(from, to) == 0 {
            None
        } else {
            Some(Number::of_integer(to, raw_integer(from, to)))
        },
    }
}

/// The value of type `to` that is nearest to the number.
pub open spec fn closest_value(from: Number, to: TypeDescriptor) -> Number {
    match to.kind {
        NumericKind::Float(w) => Number::of_bits(to, closest_bits(from, w)),
        _ => Number::of_integer(to, closest_integer(from, to)),
    }
}

/// The outcome of casting the number to `to`.
pub open spec fn outcome(from: Number, to: TypeDescriptor) -> Outcome {
    match exact_value(from, to) {
        Some(n) => Outcome::Exact(n),
        None => match raw_value(from, to) {
            Some(n) => Outcome::Lossy { from, to: n },
            None => Outcome::Unrepresentable { from },
        },
    }
}

/// Casts a pattern of one floating-point format to another.
pub fn recode(b: u64, from: Width, to: Width) -> (r: u64)
    requires
        is_pattern(b, from),
        is_format(to),
    ensures
        r == recoded(b, from, to),
        is_pattern(r, to),
{
    if from == to {
        return b;
    }
    let f = split(b, from);
    let sign: u64 = if f.negative {
        sign_bit_of(to)
    } else {
        0
    };
    let inf: u64 = infinity_of(to);
    if f.field == field_max_of(from) {
        if f.fraction != 0 {
            let payload: u64 = match from {
                Width::W32 => f.fraction * 0x2000_0000,
                _ => f.fraction / 0x2000_0000,
            };
            let half: u64 = match to {
                Width::W32 => 0x40_0000,
                _ => 0x8_0000_0000_0000,
            };
            sign + inf + half + payload % half
        } else {
            sign + inf
        }
    } else {
        let (m, e) = unpack(b, from);
        sign + encode_magnitude(m as u128, e, to)
    }
}

/// The sign and magnitude of the integer that the number is, where it is one
/// whose magnitude a 128-bit integer holds.
pub fn integer_of(from: Number) -> (r: Option<(bool, u128)>)
    requires
        from.wf(),
    ensures
        r matches Some(p) ==> integer_value(from) == Some(signed_value(p.0, p.1)) && (p.0 ==> p.1
            != 0),
        r is None ==> (integer_value(from) matches Some(v) ==> v < -u128::MAX || v > u128::MAX),
{
    match from.repr {
        Repr::Integer { negative, magnitude } => Some((negative, magnitude)),
        Repr::Bits(b) => {
            let w = from.desc.kind.get_width();
            let f = split(b, w);
            if f.field == field_max_of(w) {
                None
            } else {
                let parts = integer_parts(b, w);
                match parts.truncated {
                    Some(t) => if parts.integral {
                        Some((f.negative && t != 0, t))
                    } else {
                        None
                    },
                    None => None,
                }
            }
        },
    }
}

/// The sign and magnitude of what a truncating cast to the underlying
/// integer type of `to` gives.
pub fn raw_integer_of(from: Number, to: TypeDescriptor) -> (r: (bool, u128))
    requires
        from.wf(),
        to.is_integer(),
    ensures
        signed_value(r.0, r.1) == raw_integer(from, to),
        r.0 ==> r.1 != 0,
        to.min() <= raw_integer(from, to) <= to.max(),
{
    match from.repr {
        Repr::Integer { negative, magnitude } => wrap_integer(negative, magnitude, to.kind),
        Repr::Bits(b) => {
            let w = from.desc.kind.get_width();
            let f = split(b, w);
            if f.field == field_max_of(w) {
                if f.fraction != 0 {
                    (false, 0)
                } else {
                    clamp_integer(f.negative, u128::MAX, to)
                }
            } else {
                let parts = integer_parts(b, w);
                match parts.truncated {
                    Some(t) => clamp_integer(f.negative, t, to),
                    None => clamp_integer(f.negative, u128::MAX, to),
                }
            }
        },
    }
}

/// The sign and magnitude of the value of the underlying integer type of
/// `to` that is nearest to the number.
pub fn nearest_integer_of(from: Number, to: TypeDescriptor) -> (r: (bool, u128))
    requires
        from.wf(),
        to.is_integer(),
    ensures
        signed_value(r.0, r.1) == nearest_integer(from, to),
        r.0 ==> r.1 != 0,
        to.min() <= nearest_integer(from, to) <= to.max(),
{
    match from.repr {
        Repr::Integer { negative, magnitude } => clamp_integer(negative, magnitude, to),
        Repr::Bits(b) => {
            let w = from.desc.kind.get_width();
            let f = split(b, w);
            if f.field == field_max_of(w) {
                if f.fraction != 0 {
                    (false, 0)
                } else {
                    clamp_integer(f.negative, u128::MAX, to)
                }
            } else {
                let parts = integer_parts(b, w);
                match parts.rounded {
                    Some(t) => clamp_integer(f.negative, t, to),
                    None => clamp_integer(f.negative, u128::MAX, to),
                }
            }
        },
    }
}

/// The pattern that a cast to the floating-point format `w` gives.
pub fn raw_bits_of(from: Number, w: Width) -> (bits: u64)
    requires
        from.wf(),
        is_format(w),
    ensures
        bits == raw_bits(from, w),
        is_pattern(bits, w),
{
    match from.repr {
        Repr::Integer { negative, magnitude } => {
            let sign: u64 = if negative {
                sign_bit_of(w)
            } else {
                0
            };
            sign + encode_magnitude(magnitude, 0, w)
        },
        Repr::Bits(b) => recode(b, from.desc.kind.get_width(), w),
    }
}

/// Whether the pattern `bits`, which a cast of the number to the format `w`
/// gave, stands for the value of the number.
pub fn keeps_value(from: Number, bits: u64, w: Width) -> (kept: bool)
    requires
        from.wf(),
        is_pattern(bits, w),
        bits == raw_bits(from, w),
    ensures
        kept == bits_keep(from, bits as int, w),
{
    match from.repr {
        Repr::Integer { negative, magnitude } => {
            proof {
                lemma_encode_range(magnitude as nat, 0, w);
            }
            let m: u64 = if negative {
                bits - sign_bit_of(w)
            } else {
                bits
            };
            if m < infinity_of(w) {
                proof {
                    lemma_below_infinity(m, w);
                }
                let parts = integer_parts(m, w);
                match parts.truncated {
                    Some(t) => parts.integral && t == magnitude,
                    None => false,
                }
            } else {
                false
            }
        },
        Repr::Bits(b) => {
            let fw = from.desc.kind.get_width();
            if fw == w || fw == Width::W32 {
                true
            } else {
                let f = split(b, fw);
                if f.field == field_max_of(fw) && f.fraction != 0 {
                    true
                } else {
                    recode(bits, w, fw) == b
                }
            }
        },
    }
}

/// Casts the number to the type `to` and says how the cast ended.
pub fn classify(from: Number, to: TypeDescriptor) -> (o: Outcome)
    requires
        from.wf(),
        to.wf(),
    ensures
        o == outcome(from, to),
        o matches Outcome::Exact(n) ==> n.wf() && n.desc == to,
        o matches Outcome::Lossy { from: f, to: n } ==> n.wf() && n.desc == to,
{
    match to.kind {
        NumericKind::Float(w) => {
            let bits: u64 = raw_bits_of(from, w);
            let n = Number { desc: to, repr: Repr::Bits(bits) };
            if keeps_value(from, bits, w) {
                Outcome::Exact(n)
            } else {
                Outcome::Lossy { from, to: n }
            }
        },
        _ => {
            let exact: Option<Number> = match integer_of(from) {
                Some(p) => Number::integer(to, p.0, p.1),
                None => None,
            };
            match exact {
                Some(n) => Outcome::Exact(n),
                None => {
                    let raw = raw_integer_of(from, to);
                    match Number::integer(to, raw.0, raw.1) {
                        Some(n) => Outcome::Lossy { from, to: n },
                        None => Outcome::Unrepresentable { from },
                    }
                },
            }
        },
    }
}

/// The value of the type `to` that is nearest to the number.
pub fn closest(from: Number, to: TypeDescriptor) -> (n: Number)
    requires
        from.wf(),
        to.wf(),
    ensures
        n == closest_value(from, to),
        n.wf(),
        n.desc == to,
{
    match to.kind {
        NumericKind::Float(w) => {
            let bits: u64 = raw_bits_of(from, w);
            let inf: u64 = infinity_of(w);
            let finite_source: bool = match from.repr {
                Repr::Integer { .. } => true,
                Repr::Bits(b) => {
                    let fw = from.desc.kind.get_width();
                    split(b, fw).field != field_max_of(fw)
                },
            };
            let infinite: bool = bits == inf || bits == sign_bit_of(w) + inf;
            if infinite && finite_source {
                Number { desc: to, repr: Repr::Bits(bits - 1) }
            } else {
                Number { desc: to, repr: Repr::Bits(bits) }
            }
        },
        _ => {
            let near = nearest_integer_of(from, to);
            if to.nonzero && near.1 == 0 {
                let signed: bool = match to.kind {
                    NumericKind::SignedInt(_) => true,
                    _ => false,
                };
                let minus: bool = match from.repr {
                    Repr::Integer { .. } => false,
                    Repr::Bits(b) => {
                        let fw = from.desc.kind.get_width();
                        b >= sign_bit_of(fw)
                    },
                };
                Number {
                    desc: to,
                    repr: Repr::Integer { negative: signed && minus, magnitude: 1 },
                }
            } else {
                Number { desc: to, repr: Repr::Integer { negative: near.0, magnitude: near.1 } }
            }
        },
    }
}

/// The bit pattern of the number: an integer in two's complement at the width
/// of its type, a floating-point value as it is.
pub open spec fn pattern(from: Number) -> int {
    match from.repr {
        Repr::Integer { negative, magnitude } => low_bits(
            signed_value(negative, magnitude),
            from.desc.kind.width(),
        ),
        Repr::Bits(b) => b as int,
    }
}

/// The value of the type `to` that has the bit pattern of the number.
pub open spec fn bitwise_value(from: Number, to: TypeDescriptor) -> Number {
    match to.kind {
        NumericKind::Float(_) => Number::of_bits(to, pattern(from)),
        _ => Number::of_integer(to, wrap(pattern(from), to.kind)),
    }
}

/// Whether the bit pattern of a value of `from` is one of a value of `to`: the
/// types are equally wide, and `to` excludes zero only where `from` does.
pub open spec fn same_size(from: TypeDescriptor, to: TypeDescriptor) -> bool {
    &&& from.kind.width().bits() == to.kind.width().bits()
    &&& to.nonzero ==> from.nonzero
}

/// Decides [`same_size`].
pub fn is_same_size(from: TypeDescriptor, to: TypeDescriptor) -> (b: bool)
    ensures
        b == same_size(from, to),
{
    from.kind.get_width().bit_count() == to.kind.get_width().bit_count() && (!to.nonzero
        || from.nonzero)
}

/// Reinterprets the bit pattern of the number as a value of the type `to`.
pub fn bitwise(from: Number, to: TypeDescriptor) -> (n: Number)
    requires
        from.wf(),
        to.wf(),
        same_size(from.desc, to),
    ensures
        n == bitwise_value(from, to),
        n.wf(),
        n.desc == to,
{
    proof {
        lemma_width_facts(from.desc.kind.width());
        lemma_width_facts(to.kind.width());
        lemma_pattern(from);
    }
    let bits: u128 = match from.repr {
        Repr::Integer { negative, magnitude } => residue(
            negative,
            magnitude,
            from.desc.kind.get_width(),
        ),
        Repr::Bits(b) => b as u128,
    };
    match to.kind {
        NumericKind::Float(_) => Number { desc: to, repr: Repr::Bits(bits as u64) },
        _ => {
            let r = wrap_integer(false, bits, to.kind);
            proof {
                lemma_low_bits(bits as int, to.kind.width());
                vstd::arithmetic::div_mod::lemma_small_mod(
                    bits as nat,
                    to.kind.width().modulus() as nat,
                );
            }
            Number { desc: to, repr: Repr::Integer { negative: r.0, magnitude: r.1 } }
        },
    }
}

/// The bit pattern of a number fits the width of its type, and is not zero
/// where the type excludes zero.
pub proof fn lemma_pattern(from: Number)
    requires
        from.wf(),
    ensures
        0 <= pattern(from) < from.desc.kind.width().modulus(),
        from.desc.nonzero ==> pattern(from) != 0,
{
    let n = from.desc.kind.width().modulus();
    lemma_width_facts(from.desc.kind.width());
    match from.repr {
        Repr::Integer { negative, magnitude } => {
            let v = signed_value(negative, magnitude);
            lemma_low_bits(v, from.desc.kind.width());
            vstd::arithmetic::div_mod::lemma_mod_bound(v, n);
            vstd::arithmetic::div_mod::lemma_fundamental_div_mod(v, n);
            if v % n == 0 {
                let q = v / n;
                assert(v == n * q);
                assert(q == 0) by (nonlinear_arith)
                    requires
                        v == n * q,
                        -n < v < n,
                        n > 0,
                ;
                assert(v == 0) by (nonlinear_arith)
                    requires
                        v == n * q,
                        q == 0,
                ;
            }
        },
        Repr::Bits(b) => {},
    }
}

} // verus!
