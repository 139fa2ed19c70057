//! What holds of every cast.

use vstd::prelude::*;
use vstd::arithmetic::power2::{
    pow2,
    lemma_pow2_pos,
    lemma_pow2_strictly_increases,
    lemma_pow2_unfold,
};
use crate::convert::{
    bitwise_value,
    lemma_pattern,
    pattern,
    same_size,
    overflowed,
    bits_keep,
    raw_bits,
    raw_value,
    recoded,
    sign_of,
    closest_integer,
    closest_value,
    exact_value,
    has_sign_bit,
    integer_value,
    nearest_integer,
    outcome,
    raw_integer,
    Outcome,
};
use crate::ieee::{
    is_format,
    field,
    fraction,
    fraction_bits,
    infinity,
    is_finite,
    is_infinite,
    is_integral,
    is_nan,
    is_negative,
    is_pattern,
    lemma_below_infinity,
    lemma_fields,
    lemma_infinity_is_infinite,
    lemma_pattern_parts,
    lemma_pow2_128,
    lemma_with_sign,
    rounded,
    same_value,
    scale,
    sign_bit,
    significand,
    truncated,
};
use crate::rounding::{
    lemma_power_of_two_encodes_exactly,
    bit_length,
    encode,
    lemma_bit_length,
    lemma_bit_length_bound,
    lemma_bit_length_shift,
    lemma_encode_decode,
    lemma_encode_normal,
    lemma_encode_range,
    lemma_encode_scale,
    lemma_round_exact,
    lemma_short_integer_encodes_exactly,
};
use crate::lossless::static_lossless;
use crate::integer::{lemma_low_bits, wrap};
use crate::kinds::{lemma_width_facts, NumericKind, TypeDescriptor, Width};
use crate::number::{Number, Repr};

verus! {

/// The nearest value of an integer type lies in the range of the type, and is
/// not zero where the type excludes zero.
pub proof fn lemma_closest_in_range(from: Number, to: TypeDescriptor)
    requires
        from.wf(),
        to.wf(),
        to.is_integer(),
    ensures
        to.min() <= closest_integer(from, to) <= to.max(),
        to.admits(closest_integer(from, to)),
        closest_value(from, to).wf(),
        closest_value(from, to).value() == closest_integer(from, to),
{
    lemma_width_facts(to.kind.width());
}

/// A cast of an integer to an integer type is exact if and only if the
/// integer lies in the range of the type and is not a zero that the type
/// excludes.
pub proof fn lemma_integer_exact_iff_in_range(from: Number, to: TypeDescriptor)
    requires
        from.wf(),
        to.wf(),
        from.repr is Integer,
        to.is_integer(),
    ensures
        outcome(from, to) is Exact <==> to.admits(from.value()),
        !to.nonzero ==> (outcome(from, to) is Exact <==> to.min() <= from.value() <= to.max()),
        outcome(from, to) matches Outcome::Exact(n) ==> n.value() == from.value(),
{
}

/// Zero, of whatever type and sign, cast to a type that excludes zero: the
/// cast reports that no value can stand for it, and the nearest value is 1,
/// or -1 for a signed target and a floating-point zero with the sign bit set.
pub proof fn lemma_zero_to_nonzero(from: Number, to: TypeDescriptor)
    requires
        from.wf(),
        to.wf(),
        to.nonzero,
        integer_value(from) == Some(0int),
    ensures
        outcome(from, to) == (Outcome::Unrepresentable { from }),
        closest_integer(from, to) == (if to.kind is SignedInt && has_sign_bit(from) {
            -1int
        } else {
            1int
        }),
{
    lemma_width_facts(to.kind.width());
    match from.repr {
        Repr::Integer { negative, magnitude } => {
            lemma_low_bits(0, to.kind.width());
            vstd::arithmetic::div_mod::lemma_small_mod(0, to.kind.width().modulus() as nat);
        },
        Repr::Bits(b) => {
            let w = from.desc.kind.width();
            let m = significand(b, w);
            if scale(b, w) >= 0 {
                let p = pow2(scale(b, w) as nat) as int;
                lemma_pow2_pos(scale(b, w) as nat);
                assert(m * p > 0) by (nonlinear_arith)
                    requires
                        m > 0,
                        p > 0,
                ;
            } else {
                let k = (-scale(b, w)) as nat;
                let d = pow2(k) as int;
                lemma_pow2_pos(k);
                lemma_pow2_pos((k - 1) as nat);
                lemma_pow2_unfold(k);
                vstd::arithmetic::div_mod::lemma_fundamental_div_mod(m, d);
                assert(d * (m / d) == 0) by (nonlinear_arith)
                    requires
                        m / d == 0,
                ;
                vstd::arithmetic::div_mod::lemma_basic_div(pow2((k - 1) as nat) as int, d);
            }
            assert(rounded(b, w) == 0);
        },
    }
}

/// A NaN cast to its own type is exact; cast to an integer type, the nearest
/// value is 0, or for a type that excludes zero 1, or -1 where the type is
/// signed and the NaN has the sign bit set.
pub proof fn lemma_nan(from: Number, to: TypeDescriptor)
    requires
        from.wf(),
        to.wf(),
        from.repr is Bits,
        is_nan(from.bits(), from.desc.kind.width()),
    ensures
        outcome(from, from.desc) == Outcome::Exact(from),
        to.is_integer() ==> nearest_integer(from, to) == 0 && raw_integer(from, to) == 0,
        to.is_integer() && !to.nonzero ==> closest_value(from, to) == Number::of_integer(to, 0),
        to.is_integer() && to.nonzero ==> closest_value(from, to) == Number::of_integer(
            to,
            if to.kind is SignedInt && has_sign_bit(from) {
                -1int
            } else {
                1int
            },
        ),
{
}

/// An integer of fewer than 25 bits cast to the 32-bit floating-point type,
/// or of fewer than 54 bits cast to the 64-bit one, is exact.
pub proof fn lemma_short_integer_to_float_is_exact(from: Number, to: TypeDescriptor)
    requires
        from.wf(),
        to.wf(),
        from.repr is Integer,
        to.kind is Float,
        -pow2((fraction_bits(to.kind.width()) + 1) as nat) < from.value() < pow2(
            (fraction_bits(to.kind.width()) + 1) as nat,
        ),
    ensures
        outcome(from, to) is Exact,
{
    let w = to.kind.width();
    match from.repr {
        Repr::Integer { negative, magnitude } => {
            lemma_short_integer_encodes_exactly(magnitude as nat, w);
        },
        Repr::Bits(_) => {},
    }
}

/// A cast between types of which the first fits the second is exact for
/// every value.
pub proof fn lemma_static_lossless_is_exact(from: Number, to: TypeDescriptor)
    requires
        from.wf(),
        to.wf(),
        static_lossless(from.desc, to),
    ensures
        outcome(from, to) is Exact,
{
    lemma_width_facts(from.desc.kind.width());
    lemma_width_facts(to.kind.width());
    lemma_pow2_128();
    vstd::arithmetic::power2::lemma2_to64();
    match (from.repr, to.kind) {
        (Repr::Integer { negative, magnitude }, NumericKind::Float(w)) => {
            lemma_short_integer_to_float_is_exact(from, to);
        },
        _ => {},
    }
}

/// An exact cast of an integer, undone by the cast back to the type of the
/// integer, gives the integer back.
pub proof fn lemma_integer_round_trip(from: Number, to: TypeDescriptor)
    requires
        from.wf(),
        to.wf(),
        from.repr is Integer,
        outcome(from, to) is Exact,
    ensures
        outcome(outcome(from, to)->Exact_0, from.desc) == Outcome::Exact(from),
{
    let y = outcome(from, to)->Exact_0;
    match (from.repr, to.kind) {
        (Repr::Integer { negative, magnitude }, NumericKind::Float(w)) => {
            lemma_encode_range(magnitude as nat, 0, w);
            let m = encode(magnitude as nat, 0, w) as u64;
            let raw = raw_bits(from, w);
            assert(bits_keep(from, raw, w));
            assert(raw - sign_of(negative, w) == m);
            lemma_below_infinity(m, w);
            let r = raw as u64;
            if negative {
                lemma_with_sign(m, w);
                assert(r == m + sign_bit(w));
            } else {
                assert(r == m);
            }
            assert(y == Number::of_bits(to, raw));
            assert(y.desc.kind.width() == w);
            assert(is_finite(r, w));
            assert(is_integral(r, w));
            assert(truncated(r, w) == magnitude);
            assert(is_negative(r, w) == negative);
            assert(integer_value(y) == Some(from.value()));
        },
        (Repr::Integer { negative, magnitude }, _) => {
            assert(y == Number::of_integer(to, from.value()));
            assert(integer_value(y) == Some(from.value()));
        },
        _ => {},
    }
    assert(from.desc.admits(from.value()));
    assert(Number::of_integer(from.desc, from.value()) == from);
    assert(exact_value(y, from.desc) == Some(from));
}

/// An exact cast of a 64-bit floating-point value other than a NaN to the
/// 32-bit type, undone by the cast back, gives the same value again.
pub proof fn lemma_narrowing_round_trip(from: Number, to: TypeDescriptor)
    requires
        from.wf(),
        to.wf(),
        from.desc.kind == NumericKind::Float(Width::W64),
        to.kind == NumericKind::Float(Width::W32),
        !is_nan(from.bits(), Width::W64),
        outcome(from, to) is Exact,
    ensures
        outcome(outcome(from, to)->Exact_0, from.desc) == Outcome::Exact(from),
{
}

/// A 32-bit floating-point value other than a NaN is cast to the 64-bit type
/// without loss: an infinity stays the infinity of its sign, a finite value
/// stays the same number, and the cast back gives the same pattern again.
pub proof fn lemma_widening_is_exact(b: u64)
    requires
        is_pattern(b, Width::W32),
        !is_nan(b, Width::W32),
    ensures
        ({
            let r = recoded(b, Width::W32, Width::W64) as u64;
            &&& is_pattern(r, Width::W64)
            &&& is_negative(r, Width::W64) == is_negative(b, Width::W32)
            &&& is_infinite(b, Width::W32) ==> is_infinite(r, Width::W64)
            &&& is_finite(b, Width::W32) ==> is_finite(r, Width::W64) && same_value(
                b,
                Width::W32,
                r,
                Width::W64,
            )
            &&& recoded(r, Width::W64, Width::W32) == b
        }),
{
    let a = Width::W32;
    let c = Width::W64;
    let negative = is_negative(b, a);
    lemma_pattern_parts(b, a);
    lemma_pow2_128();
    vstd::arithmetic::power2::lemma2_to64();
    vstd::arithmetic::power2::lemma2_to64_rest();
    let m = significand(b, a) as nat;
    let e = scale(b, a);
    let mag: int = if is_infinite(b, a) {
        infinity(c)
    } else {
        encode(m, e, c)
    };
    if is_finite(b, a) && m > 0 {
        let l = bit_length(m);
        lemma_bit_length(m);
        lemma_bit_length_bound(m, 24);
        if field(b, a) != 0 && l < 24 {
            lemma_pow2_strictly_increases(l, 24);
            if l < 23 {
                lemma_pow2_strictly_increases(l, 23);
            }
        }
        lemma_encode_normal(m, e, c);
        let k = (53 - l) as nat;
        lemma_pow2_pos(k);
        lemma_bit_length_shift(m, k);
        lemma_round_exact(m, k);
    }
    let r = recoded(b, a, c) as u64;
    assert(r == sign_of(negative, c) + mag);
    let plain = mag as u64;
    lemma_fields(plain, c);
    if negative {
        lemma_with_sign(plain, c);
    }
    lemma_pattern_parts(r, c);
    if is_finite(b, a) && m > 0 {
        let l = bit_length(m);
        let k = (53 - l) as nat;
        assert(significand(r, c) == m * pow2(k));
        assert(scale(r, c) == e - k);
        assert(bit_length(significand(r, c) as nat) == 53);
        assert(encode(significand(r, c) as nat, scale(r, c), a) == field(b, a) * 0x80_0000
            + fraction(b, a));
    } else if is_finite(b, a) {
        assert(m * pow2((scale(b, a) - scale(r, c)) as nat) == 0) by (nonlinear_arith)
            requires
                m == 0,
        ;
    }
}

/// A cast of a 32-bit floating-point value other than a NaN to the 64-bit
/// type is exact, and the cast back gives the same value again.
pub proof fn lemma_widening_round_trip(from: Number, to: TypeDescriptor)
    requires
        from.wf(),
        to.wf(),
        from.desc.kind == NumericKind::Float(Width::W32),
        to.kind == NumericKind::Float(Width::W64),
        !is_nan(from.bits(), Width::W32),
    ensures
        outcome(from, to) is Exact,
        outcome(outcome(from, to)->Exact_0, from.desc) == Outcome::Exact(from),
{
    lemma_widening_is_exact(from.bits());
}

/// An exact cast of a floating-point value other than a NaN to a
/// floating-point type keeps the sign, keeps an infinity, and gives a finite
/// value that stands for the same number.
pub proof fn lemma_exact_float_cast_keeps_value(from: Number, to: TypeDescriptor)
    requires
        from.wf(),
        to.wf(),
        from.repr is Bits,
        to.kind is Float,
        !is_nan(from.bits(), from.desc.kind.width()),
        outcome(from, to) is Exact,
    ensures
        ({
            let a = from.desc.kind.width();
            let c = to.kind.width();
            let r = outcome(from, to)->Exact_0.bits();
            &&& is_negative(r, c) == is_negative(from.bits(), a)
            &&& is_infinite(from.bits(), a) <==> is_infinite(r, c)
            &&& is_finite(from.bits(), a) ==> same_value(from.bits(), a, r, c)
        }),
{
    let a = from.desc.kind.width();
    let c = to.kind.width();
    let b = from.bits();
    let r = outcome(from, to)->Exact_0.bits();
    vstd::arithmetic::power2::lemma2_to64();
    if a == c {
        assert(significand(b, a) * pow2(0) == significand(b, a)) by (nonlinear_arith)
            requires
                pow2(0) == 1,
        ;
    } else if a == Width::W32 {
        lemma_widening_is_exact(b);
    } else {
        lemma_narrowed(b);
        lemma_widening_is_exact(r);
        assert(recoded(r, c, a) == b);
        if is_finite(b, a) {
            assert(is_finite(r, c));
            assert(same_value(r, c, b, a));
            if scale(b, a) == scale(r, c) {
                assert(significand(b, a) * pow2(0) == significand(b, a)) by (nonlinear_arith)
                    requires
                        pow2(0) == 1,
                ;
                assert(significand(r, c) * pow2(0) == significand(r, c)) by (nonlinear_arith)
                    requires
                        pow2(0) == 1,
                ;
            }
            assert(same_value(b, a, r, c));
        }
    }
}

/// What a cast of a 64-bit pattern to the 32-bit format gives is a pattern of
/// that format, and a NaN only for a NaN.
pub proof fn lemma_narrowed(b: u64)
    ensures
        is_pattern(recoded(b, Width::W64, Width::W32) as u64, Width::W32),
        0 <= recoded(b, Width::W64, Width::W32) < 0x1_0000_0000,
        !is_nan(b, Width::W64) ==> !is_nan(
            recoded(b, Width::W64, Width::W32) as u64,
            Width::W32,
        ),
{
    let a = Width::W64;
    let c = Width::W32;
    lemma_pattern_parts(b, a);
    let m = significand(b, a) as nat;
    let e = scale(b, a);
    let mag: int = if is_nan(b, a) {
        infinity(c) + 0x40_0000 + (fraction(b, a) / 0x2000_0000) % 0x40_0000
    } else if is_infinite(b, a) {
        infinity(c)
    } else {
        encode(m, e, c)
    };
    lemma_encode_range(m, e, c);
    assert(recoded(b, a, c) == sign_of(is_negative(b, a), c) + mag);
    let plain = mag as u64;
    lemma_fields(plain, c);
    if is_negative(b, a) {
        lemma_with_sign(plain, c);
    }
    if is_finite(b, a) && mag < infinity(c) {
        lemma_below_infinity(plain, c);
    }
}

/// Where a cast is exact, a truncating cast gives the exact value, and so does
/// the cast to the nearest value.
pub proof fn lemma_raw_of_exact(from: Number, to: TypeDescriptor)
    requires
        from.wf(),
        to.wf(),
        outcome(from, to) is Exact,
    ensures
        raw_value(from, to) == Some(outcome(from, to)->Exact_0),
        closest_value(from, to) == outcome(from, to)->Exact_0,
{
    lemma_width_facts(to.kind.width());
    match (from.repr, to.kind) {
        (Repr::Integer { negative, magnitude }, NumericKind::Float(w)) => {
            let m = encode(magnitude as nat, 0, w) as u64;
            lemma_below_infinity(m, w);
            assert(closest_value(from, to) == outcome(from, to)->Exact_0);
        },
        (Repr::Bits(b), NumericKind::Float(w)) => {
            let a = from.desc.kind.width();
            if a != w && is_finite(b, a) {
                let r = recoded(b, a, w) as u64;
                if a == Width::W32 {
                    lemma_widening_is_exact(b);
                } else {
                    lemma_narrowed(b);
                    lemma_widening_is_exact(r);
                }
                lemma_pattern_parts(r, w);
                lemma_fields(r, w);
                assert(is_finite(r, w));
                assert(r != infinity(w) && r != sign_bit(w) + infinity(w));
            }
            lemma_infinity_is_infinite(w);
            let raw = raw_bits(from, w);
            assert(outcome(from, to)->Exact_0 == Number::of_bits(to, raw));
            if is_finite(b, a) {
                if a == w {
                    assert(raw == b);
                }
                assert(raw != infinity(w) && raw != sign_bit(w) + infinity(w));
            }
            assert(!overflowed(from, raw, w));
            assert(closest_value(from, to) == outcome(from, to)->Exact_0);
        },
        (Repr::Integer { negative, magnitude }, _) => {
            let v = from.value();
            lemma_low_bits(v, to.kind.width());
            vstd::arithmetic::div_mod::lemma_small_mod(
                (if v < 0 {
                    v + to.kind.width().modulus()
                } else {
                    v
                }) as nat,
                to.kind.width().modulus() as nat,
            );
            if v < 0 {
                vstd::arithmetic::div_mod::lemma_mod_add_multiples_vanish(
                    v,
                    to.kind.width().modulus(),
                );
            }
            assert(closest_value(from, to) == outcome(from, to)->Exact_0);
        },
        (Repr::Bits(b), _) => {
            let a = from.desc.kind.width();
            if scale(b, a) < 0 {
                let k = (-scale(b, a)) as nat;
                let d = pow2(k) as int;
                let m = significand(b, a);
                lemma_pow2_pos(k);
                lemma_pow2_pos((k - 1) as nat);
                lemma_pow2_unfold(k);
                vstd::arithmetic::div_mod::lemma_fundamental_div_mod(m, d);
                let q = m / d;
                assert(m + pow2((k - 1) as nat) == q * d + pow2((k - 1) as nat)) by (nonlinear_arith)
                    requires
                        m == d * q + 0,
                ;
                vstd::arithmetic::div_mod::lemma_fundamental_div_mod_converse(
                    m + pow2((k - 1) as nat),
                    d,
                    q,
                    pow2((k - 1) as nat) as int,
                );
            }
        },
    }
}

/// An exact cast of a floating-point value to an integer type, undone by the
/// cast back, gives the same value again; for the zero with the sign bit set it
/// gives the zero without it, since an integer zero has no sign.
pub proof fn lemma_float_round_trip(from: Number, to: TypeDescriptor)
    requires
        from.wf(),
        to.wf(),
        from.repr is Bits,
        to.is_integer(),
        outcome(from, to) is Exact,
    ensures
        outcome(outcome(from, to)->Exact_0, from.desc) == Outcome::Exact(
            if integer_value(from) == Some(0int) {
                Number::of_bits(from.desc, 0)
            } else {
                from
            },
        ),
{
    let w = from.desc.kind.width();
    let b = from.bits();
    let y = outcome(from, to)->Exact_0;
    let negative = is_negative(b, w);
    let t = truncated(b, w);
    let m = significand(b, w);
    let e = scale(b, w);
    lemma_pattern_parts(b, w);
    lemma_fields(b, w);
    let plain = (b - sign_of(negative, w)) as u64;
    assert(plain < infinity(w));
    if negative {
        lemma_with_sign(plain, w);
    }
    lemma_below_infinity(plain, w);
    assert(significand(plain, w) == m);
    assert(scale(plain, w) == e);
    lemma_encode_decode(plain, w);
    assert(m >= 0);
    if e >= 0 {
        lemma_pow2_pos(e as nat);
        assert(t >= 0) by (nonlinear_arith)
            requires
                t == m * pow2(e as nat),
                m >= 0,
        ;
        lemma_encode_scale(m as nat, e as nat, 0, w);
    } else {
        let k = (-e) as nat;
        let d = pow2(k) as int;
        lemma_pow2_pos(k);
        vstd::arithmetic::div_mod::lemma_fundamental_div_mod(m, d);
        vstd::arithmetic::div_mod::lemma_div_pos_is_pos(m, d);
        assert(m == t * d) by (nonlinear_arith)
            requires
                m == d * t + 0,
        ;
        lemma_encode_scale(t as nat, k, e, w);
    }
    assert(encode(t as nat, 0, w) == plain);
    let v = if negative {
        -t
    } else {
        t
    };
    assert(integer_value(from) == Some(v));
    assert(y == Number::of_integer(to, v));
    let raw = raw_bits(y, w);
    assert(raw == sign_of(v < 0, w) + plain);
    assert(bits_keep(y, raw, w));
    if t != 0 {
        assert(raw == b);
        assert(Number::of_bits(from.desc, raw) == from);
    } else {
        assert(encode(0nat, 0, w) == 0);
        assert(raw == 0);
    }
    assert(exact_value(y, from.desc) == Some(Number::of_bits(from.desc, raw)));
}

/// Whether a NaN of the format `from` comes back unchanged from a cast to the
/// format `to`: the formats are the same, or the NaN is quiet and, where
/// `to` is the narrower format, its payload fits there.
pub open spec fn nan_is_kept(b: u64, from: Width, to: Width) -> bool {
    ||| from == to
    ||| from == Width::W32 && fraction(b, from) >= 0x40_0000
    ||| from == Width::W64 && fraction(b, from) >= 0x8_0000_0000_0000 && fraction(b, from)
        % 0x2000_0000 == 0
}

/// A NaN that [`nan_is_kept`] names, cast to the other format and back, is
/// the same pattern again; what the cast gives in between is a NaN.
pub proof fn lemma_nan_round_trip(b: u64, from: Width, to: Width)
    requires
        is_pattern(b, from),
        is_format(to),
        is_nan(b, from),
        nan_is_kept(b, from, to),
    ensures
        is_pattern(recoded(b, from, to) as u64, to),
        is_nan(recoded(b, from, to) as u64, to),
        recoded(recoded(b, from, to) as u64, to, from) == b,
{
    if from != to {
        lemma_pattern_parts(b, from);
        lemma_fields(b, from);
        let f = fraction(b, from);
        let negative = is_negative(b, from);
        let moved: int = if from == Width::W32 {
            0x8_0000_0000_0000 + (f - 0x40_0000) * 0x2000_0000
        } else {
            0x40_0000 + (f - 0x8_0000_0000_0000) / 0x2000_0000
        };
        let plain = (infinity(to) + moved) as u64;
        assert(recoded(b, from, to) == sign_of(negative, to) + plain);
        lemma_fields(plain, to);
        if negative {
            lemma_with_sign(plain, to);
        }
        let r = recoded(b, from, to) as u64;
        lemma_pattern_parts(r, to);
        lemma_fields(r, to);
        assert(fraction(r, to) == moved);
        assert(field(r, to) == crate::ieee::field_max(to));
        assert(is_negative(r, to) == negative);
        let back: int = if from == Width::W32 {
            0x40_0000 + (moved / 0x2000_0000) % 0x40_0000
        } else {
            0x8_0000_0000_0000 + (moved * 0x2000_0000) % 0x8_0000_0000_0000
        };
        assert(back == f);
        assert(recoded(r, to, from) == sign_of(negative, from) + infinity(from) + back);
    }
}

/// An exact cast, undone by the cast back to the source type, gives the
/// source value. Two kinds of value are left out: a NaN that a cast changes
/// (a signalling one, or one whose payload the narrower format cuts), and the
/// floating-point zero with the sign bit set cast to an integer type, which
/// has one zero only.
pub proof fn lemma_round_trip(from: Number, to: TypeDescriptor)
    requires
        from.wf(),
        to.wf(),
        outcome(from, to) is Exact,
        from.repr is Bits && is_nan(from.bits(), from.desc.kind.width()) ==> nan_is_kept(
            from.bits(),
            from.desc.kind.width(),
            to.kind.width(),
        ),
        from.repr is Bits && to.is_integer() ==> !(integer_value(from) == Some(0int)
            && has_sign_bit(from)),
    ensures
        outcome(outcome(from, to)->Exact_0, from.desc) == Outcome::Exact(from),
{
    if from.repr is Bits && is_nan(from.bits(), from.desc.kind.width()) {
        let b = from.bits();
        let a = from.desc.kind.width();
        let w = to.kind.width();
        assert(to.kind is Float);
        lemma_nan_round_trip(b, a, w);
        let y = outcome(from, to)->Exact_0;
        assert(y == Number::of_bits(to, recoded(b, a, w)));
        assert(exact_value(y, from.desc) == Some(from));
    } else {
        lemma_round_trip_of_number(from, to);
    }
}

/// [`lemma_round_trip`] for a value that is not a NaN.
proof fn lemma_round_trip_of_number(from: Number, to: TypeDescriptor)
    requires
        from.wf(),
        to.wf(),
        outcome(from, to) is Exact,
        from.repr is Bits ==> !is_nan(from.bits(), from.desc.kind.width()),
        from.repr is Bits && to.is_integer() ==> !(integer_value(from) == Some(0int)
            && has_sign_bit(from)),
    ensures
        outcome(outcome(from, to)->Exact_0, from.desc) == Outcome::Exact(from),
{
    match (from.repr, to.kind) {
        (Repr::Integer { .. }, _) => {
            lemma_integer_round_trip(from, to);
        },
        (Repr::Bits(b), NumericKind::Float(w)) => {
            let a = from.desc.kind.width();
            if a == w {
                assert(outcome(from, to)->Exact_0 == from);
            } else if a == Width::W32 {
                lemma_widening_round_trip(from, to);
            } else {
                lemma_narrowing_round_trip(from, to);
            }
        },
        (Repr::Bits(b), _) => {
            lemma_float_round_trip(from, to);
            if integer_value(from) == Some(0int) {
                let w = from.desc.kind.width();
                lemma_pattern_parts(b, w);
                lemma_fields(b, w);
                let m = significand(b, w);
                if scale(b, w) >= 0 {
                    lemma_pow2_pos(scale(b, w) as nat);
                    assert(m * pow2(scale(b, w) as nat) > 0) by (nonlinear_arith)
                        requires
                            m > 0,
                            pow2(scale(b, w) as nat) > 0,
                    ;
                } else {
                    let d = pow2((-scale(b, w)) as nat) as int;
                    lemma_pow2_pos((-scale(b, w)) as nat);
                    vstd::arithmetic::div_mod::lemma_fundamental_div_mod(m, d);
                    assert(d * (m / d) == 0) by (nonlinear_arith)
                        requires
                            m / d == 0,
                    ;
                }
                assert(m == 0);
                assert(field(b, w) == 0);
                assert(field(b, w) * crate::ieee::fraction_modulus(w) == 0) by (nonlinear_arith)
                    requires
                        field(b, w) == 0,
                ;
                assert(b == 0);
            }
        },
    }
}

/// A power of two, or the negative of one, cast to a floating-point type
/// whose exponents reach it is exact, however many bits the integer has.
pub proof fn lemma_power_of_two_to_float_is_exact(from: Number, to: TypeDescriptor, k: nat)
    requires
        from.wf(),
        to.wf(),
        from.repr is Integer,
        to.kind is Float,
        k <= crate::ieee::bias(to.kind.width()),
        from.value() == pow2(k) || from.value() == -pow2(k),
    ensures
        outcome(from, to) is Exact,
{
    lemma_power_of_two_encodes_exactly(k, to.kind.width());
}

/// The value that [`bitwise_value`] gives has the bit pattern of the source
/// value.
pub proof fn lemma_bitwise_keeps_pattern(from: Number, to: TypeDescriptor)
    requires
        from.wf(),
        to.wf(),
        same_size(from.desc, to),
    ensures
        pattern(bitwise_value(from, to)) == pattern(from),
{
    let p = pattern(from);
    let n = to.kind.width().modulus();
    lemma_pattern(from);
    lemma_width_facts(from.desc.kind.width());
    lemma_width_facts(to.kind.width());
    lemma_pow2_128();
    vstd::arithmetic::power2::lemma2_to64();
    assert(from.desc.kind.width().modulus() == n);
    match to.kind {
        NumericKind::Float(w) => {
            assert(n <= 0x1_0000_0000_0000_0000);
        },
        _ => {
            lemma_low_bits(p, to.kind.width());
            vstd::arithmetic::div_mod::lemma_small_mod(p as nat, n as nat);
            let v = wrap(p, to.kind);
            lemma_low_bits(v, to.kind.width());
            if v != p {
                assert(v == p - n);
                vstd::arithmetic::div_mod::lemma_fundamental_div_mod_converse(v, n, -1, p);
            }
        },
    }
}

} // verus!
