//! IEEE 754 binary32 and binary64 values, read from their bit patterns.
//!
//! A finite pattern stands for `significand * 2^scale`, negated where the sign
//! bit is set. Everything here is integer arithmetic on the fields.

use vstd::prelude::*;
use vstd::arithmetic::power2::{
    pow2,
    lemma2_to64,
    lemma2_to64_rest,
    lemma_pow2_adds,
    lemma_pow2_pos,
    lemma_pow2_strictly_increases,
    lemma_pow2_unfold,
};
use vstd::arithmetic::div_mod::{lemma_basic_div, lemma_small_mod};
use crate::kinds::Width;

verus! {

/// Whether the width is one of a floating-point type.
pub open spec fn is_format(w: Width) -> bool {
    w == Width::W32 || w == Width::W64
}

/// The number of explicit fraction bits.
pub open spec fn fraction_bits(w: Width) -> int {
    if w == Width::W32 {
        23
    } else {
        52
    }
}

/// Two to the power `fraction_bits(w)`.
pub open spec fn fraction_modulus(w: Width) -> int {
    if w == Width::W32 {
        0x80_0000
    } else {
        0x10_0000_0000_0000
    }
}

/// The greatest exponent field, which marks infinities and NaNs.
pub open spec fn field_max(w: Width) -> int {
    if w == Width::W32 {
        255
    } else {
        2047
    }
}

/// The exponent bias.
pub open spec fn bias(w: Width) -> int {
    if w == Width::W32 {
        127
    } else {
        1023
    }
}

/// The pattern that has the sign bit alone.
pub open spec fn sign_bit(w: Width) -> int {
    if w == Width::W32 {
        0x8000_0000
    } else {
        0x8000_0000_0000_0000
    }
}

/// The pattern of positive infinity.
pub open spec fn infinity(w: Width) -> int {
    if w == Width::W32 {
        0x7f80_0000
    } else {
        0x7ff0_0000_0000_0000
    }
}

/// Whether the pattern fits the width.
pub open spec fn is_pattern(bits: u64, w: Width) -> bool {
    is_format(w) && bits < 2 * sign_bit(w)
}

pub open spec fn is_negative(bits: u64, w: Width) -> bool {
    bits >= sign_bit(w)
}

/// The exponent field.
pub open spec fn field(bits: u64, w: Width) -> int {
    (bits as int / fraction_modulus(w)) % (field_max(w) + 1)
}

/// The fraction field.
pub open spec fn fraction(bits: u64, w: Width) -> int {
    bits as int % fraction_modulus(w)
}

pub open spec fn is_nan(bits: u64, w: Width) -> bool {
    field(bits, w) == field_max(w) && fraction(bits, w) != 0
}

pub open spec fn is_infinite(bits: u64, w: Width) -> bool {
    field(bits, w) == field_max(w) && fraction(bits, w) == 0
}

pub open spec fn is_finite(bits: u64, w: Width) -> bool {
    field(bits, w) != field_max(w)
}

/// The integer significand of a finite pattern, the implicit bit included.
pub open spec fn significand(bits: u64, w: Width) -> int {
    if field(bits, w) == 0 {
        fraction(bits, w)
    } else {
        fraction(bits, w) + fraction_modulus(w)
    }
}

/// The power of two that the significand of a finite pattern is scaled by.
pub open spec fn scale(bits: u64, w: Width) -> int {
    (if field(bits, w) == 0 {
        1
    } else {
        field(bits, w)
    }) - bias(w) - fraction_bits(w)
}

/// Whether a finite pattern stands for an integer.
pub open spec fn is_integral(bits: u64, w: Width) -> bool {
    scale(bits, w) >= 0 || significand(bits, w) % (pow2((-scale(bits, w)) as nat) as int) == 0
}

/// The magnitude of a finite pattern, rounded toward zero to an integer.
pub open spec fn truncated(bits: u64, w: Width) -> int {
    if scale(bits, w) >= 0 {
        significand(bits, w) * pow2(scale(bits, w) as nat)
    } else {
        significand(bits, w) / (pow2((-scale(bits, w)) as nat) as int)
    }
}

/// The magnitude of a finite pattern, rounded to the nearest integer, a tie
/// going away from zero.
pub open spec fn rounded(bits: u64, w: Width) -> int {
    if scale(bits, w) >= 0 {
        significand(bits, w) * pow2(scale(bits, w) as nat)
    } else {
        (significand(bits, w) + pow2((-scale(bits, w) - 1) as nat)) / (pow2(
            (-scale(bits, w)) as nat,
        ) as int)
    }
}

/// Whether two finite patterns stand for the same number: the signs agree,
/// and the significand at the smaller scale is the other one multiplied by
/// the power of two that the scales differ by.
pub open spec fn same_value(a: u64, aw: Width, b: u64, bw: Width) -> bool {
    &&& is_negative(a, aw) == is_negative(b, bw)
    &&& if scale(a, aw) >= scale(b, bw) {
        significand(b, bw) == significand(a, aw) * pow2((scale(a, aw) - scale(b, bw)) as nat)
    } else {
        significand(a, aw) == significand(b, bw) * pow2((scale(b, bw) - scale(a, aw)) as nat)
    }
}

/// The fields of a pattern.
#[derive(Clone, Copy, Debug)]
pub struct Fields {
    pub negative: bool,
    pub field: u64,
    pub fraction: u64,
}

/// What a finite pattern gives as an integer: whether it is one, and its
/// magnitude rounded toward zero and to the nearest, each `None` where it is
/// greater than every 128-bit integer.
#[derive(Clone, Copy, Debug)]
pub struct IntegerParts {
    pub integral: bool,
    pub truncated: Option<u128>,
    pub rounded: Option<u128>,
}

/// Two to the power 128 is one more than the greatest 128-bit integer.
pub proof fn lemma_pow2_128()
    ensures
        pow2(128) == 0x1_0000_0000_0000_0000_0000_0000_0000_0000,
        pow2(127) == 0x8000_0000_0000_0000_0000_0000_0000_0000,
        pow2(64) == 0x1_0000_0000_0000_0000,
        pow2(63) == 0x8000_0000_0000_0000,
        pow2(53) == 0x20_0000_0000_0000,
        pow2(52) == 0x10_0000_0000_0000,
        pow2(24) == 0x100_0000,
        pow2(23) == 0x80_0000,
{
    lemma2_to64();
    lemma2_to64_rest();
    lemma_pow2_adds(64, 64);
    lemma_pow2_adds(64, 63);
    lemma_pow2_adds(32, 21);
    lemma_pow2_adds(32, 20);
}

/// The fields of a pattern, with the constants of each format written out.
pub proof fn lemma_fields(bits: u64, w: Width)
    requires
        is_format(w),
    ensures
        w == Width::W32 ==> field(bits, w) == (bits as int / 0x80_0000) % 0x100 && fraction(bits, w)
            == bits as int % 0x80_0000,
        w == Width::W64 ==> field(bits, w) == (bits as int / 0x10_0000_0000_0000) % 0x800
            && fraction(bits, w) == bits as int % 0x10_0000_0000_0000,
{
    if w == Width::W32 {
        assert(fraction_modulus(w) == 0x80_0000);
        assert(field_max(w) + 1 == 0x100);
    } else {
        assert(fraction_modulus(w) == 0x10_0000_0000_0000);
        assert(field_max(w) + 1 == 0x800);
    }
}

/// A pattern is the sum of its sign bit, its exponent field in place, and its
/// fraction.
pub proof fn lemma_pattern_parts(bits: u64, w: Width)
    requires
        is_pattern(bits, w),
    ensures
        bits == (if is_negative(bits, w) {
            sign_bit(w)
        } else {
            0
        }) + field(bits, w) * fraction_modulus(w) + fraction(bits, w),
        0 <= field(bits, w) <= field_max(w),
        0 <= fraction(bits, w) < fraction_modulus(w),
{
    lemma_fields(bits, w);
    if w == Width::W32 {
        assert(bits == (if bits >= 0x8000_0000u64 {
            0x8000_0000u64
        } else {
            0u64
        }) + ((bits / 0x80_0000u64) % 0x100u64) * 0x80_0000u64 + bits % 0x80_0000u64)
            by (bit_vector)
            requires
                bits < 0x1_0000_0000u64,
        ;
    } else {
        assert(bits == (if bits >= 0x8000_0000_0000_0000u64 {
            0x8000_0000_0000_0000u64
        } else {
            0u64
        }) + ((bits / 0x10_0000_0000_0000u64) % 0x800u64) * 0x10_0000_0000_0000u64 + bits
            % 0x10_0000_0000_0000u64) by (bit_vector);
    }
}

/// A pattern without the sign bit, with the sign bit added, has the same
/// fields and is negative.
pub proof fn lemma_with_sign(m: u64, w: Width)
    requires
        is_format(w),
        m < sign_bit(w),
    ensures
        !is_negative(m, w),
        is_negative((m + sign_bit(w)) as u64, w),
        is_pattern((m + sign_bit(w)) as u64, w),
        field((m + sign_bit(w)) as u64, w) == field(m, w),
        fraction((m + sign_bit(w)) as u64, w) == fraction(m, w),
        significand((m + sign_bit(w)) as u64, w) == significand(m, w),
        scale((m + sign_bit(w)) as u64, w) == scale(m, w),
        is_integral((m + sign_bit(w)) as u64, w) == is_integral(m, w),
        truncated((m + sign_bit(w)) as u64, w) == truncated(m, w),
        rounded((m + sign_bit(w)) as u64, w) == rounded(m, w),
{
    let s = (m + sign_bit(w)) as u64;
    lemma_fields(m, w);
    lemma_fields(s, w);
}

/// A pattern below that of positive infinity is finite and not negative.
pub proof fn lemma_below_infinity(bits: u64, w: Width)
    requires
        is_format(w),
        bits < infinity(w),
    ensures
        is_pattern(bits, w),
        is_finite(bits, w),
        !is_negative(bits, w),
{
    if w == Width::W32 {
        assert((bits / 0x80_0000u64) % 0x100u64 != 255u64) by (bit_vector)
            requires
                bits < 0x7f80_0000u64,
        ;
    } else {
        assert((bits / 0x10_0000_0000_0000u64) % 0x800u64 != 2047u64) by (bit_vector)
            requires
                bits < 0x7ff0_0000_0000_0000u64,
        ;
    }
}

/// The two patterns of infinity are infinite.
pub proof fn lemma_infinity_is_infinite(w: Width)
    requires
        is_format(w),
    ensures
        is_infinite(infinity(w) as u64, w),
        is_infinite((sign_bit(w) + infinity(w)) as u64, w),
{
    lemma_fields(infinity(w) as u64, w);
    lemma_fields((sign_bit(w) + infinity(w)) as u64, w);
}

/// What [`rounded`] gives for a finite pattern with a negative scale is an
/// integer nearest to `significand / 2^(-scale)`, the greater one where two
/// are equally near; and [`truncated`] is the greatest integer that is not
/// above that quotient.
pub proof fn lemma_rounded_is_nearest(bits: u64, w: Width)
    requires
        is_pattern(bits, w),
        scale(bits, w) < 0,
    ensures
        ({
            let d = pow2((-scale(bits, w)) as nat) as int;
            let m = significand(bits, w);
            &&& -d < 2 * (rounded(bits, w) * d - m) <= d
            &&& 0 <= m - truncated(bits, w) * d < d
        }),
{
    let k = (-scale(bits, w)) as nat;
    let d = pow2(k) as int;
    let m = significand(bits, w);
    lemma_pattern_parts(bits, w);
    lemma_pow2_pos(k);
    lemma_pow2_pos((k - 1) as nat);
    lemma_pow2_unfold(k);
    let half = pow2((k - 1) as nat) as int;
    let up = m + half;
    let q = up / d;
    let r = up % d;
    vstd::arithmetic::div_mod::lemma_fundamental_div_mod(up, d);
    vstd::arithmetic::div_mod::lemma_mod_bound(up, d);
    assert(q * d - m == half - r) by (nonlinear_arith)
        requires
            m + half == d * q + r,
    ;
    let t = m / d;
    let rest = m % d;
    vstd::arithmetic::div_mod::lemma_fundamental_div_mod(m, d);
    vstd::arithmetic::div_mod::lemma_mod_bound(m, d);
    assert(m - t * d == rest) by (nonlinear_arith)
        requires
            m == d * t + rest,
    ;
}

/// Two to the power `k`.
pub fn pow2_u128(k: u32) -> (r: u128)
    requires
        k < 128,
    ensures
        r == pow2(k as nat),
{
    let mut r: u128 = 1;
    let mut i: u32 = 0;
    proof {
        lemma2_to64();
    }
    while i < k
        invariant
            i <= k,
            k < 128,
            r == pow2(i as nat),
        decreases k - i,
    {
        proof {
            lemma_pow2_unfold((i + 1) as nat);
            lemma_pow2_128();
            if i + 1 < 127 {
                lemma_pow2_strictly_increases((i + 1) as nat, 127);
            }
        }
        r = r * 2;
        i = i + 1;
    }
    r
}

/// The sign bit of the format.
pub fn sign_bit_of(w: Width) -> (b: u64)
    requires
        is_format(w),
    ensures
        b == sign_bit(w),
{
    match w {
        Width::W32 => 0x8000_0000,
        _ => 0x8000_0000_0000_0000,
    }
}

/// The pattern of positive infinity of the format.
pub fn infinity_of(w: Width) -> (b: u64)
    requires
        is_format(w),
    ensures
        b == infinity(w),
{
    match w {
        Width::W32 => 0x7f80_0000,
        _ => 0x7ff0_0000_0000_0000,
    }
}

/// The greatest exponent field of the format.
pub fn field_max_of(w: Width) -> (b: u64)
    requires
        is_format(w),
    ensures
        b == field_max(w),
{
    match w {
        Width::W32 => 255,
        _ => 2047,
    }
}

/// Splits a pattern into its fields.
pub fn split(bits: u64, w: Width) -> (f: Fields)
    requires
        is_pattern(bits, w),
    ensures
        f.negative == is_negative(bits, w),
        f.field == field(bits, w),
        f.fraction == fraction(bits, w),
        f.field <= field_max(w),
        f.fraction < fraction_modulus(w),
        bits == (if f.negative {
            sign_bit(w)
        } else {
            0
        }) + f.field * fraction_modulus(w) + f.fraction,
{
    let fm: u64 = match w {
        Width::W32 => 0x80_0000,
        _ => 0x10_0000_0000_0000,
    };
    let em: u64 = match w {
        Width::W32 => 0x100,
        _ => 0x800,
    };
    let sb: u64 = match w {
        Width::W32 => 0x8000_0000,
        _ => 0x8000_0000_0000_0000,
    };
    let upper: u64 = bits / fm;
    let f = Fields { negative: bits >= sb, field: upper % em, fraction: bits % fm };
    proof {
        lemma_pattern_parts(bits, w);
    }
    f
}

/// The significand and the scale of a finite pattern.
pub fn unpack(bits: u64, w: Width) -> (r: (u64, i64))
    requires
        is_pattern(bits, w),
        is_finite(bits, w),
    ensures
        r.0 == significand(bits, w),
        r.1 == scale(bits, w),
{
    let f = split(bits, w);
    let fm: u64 = match w {
        Width::W32 => 0x80_0000,
        _ => 0x10_0000_0000_0000,
    };
    let offset: i64 = match w {
        Width::W32 => 150,
        _ => 1075,
    };
    if f.field == 0 {
        (f.fraction, 1 - offset)
    } else {
        (f.fraction + fm, f.field as i64 - offset)
    }
}

/// Reads a finite pattern as an integer.
pub fn integer_parts(bits: u64, w: Width) -> (p: IntegerParts)
    requires
        is_pattern(bits, w),
        is_finite(bits, w),
    ensures
        p.integral == is_integral(bits, w),
        p.truncated is Some <==> truncated(bits, w) <= u128::MAX,
        p.truncated matches Some(t) ==> t == truncated(bits, w),
        p.rounded is Some <==> rounded(bits, w) <= u128::MAX,
        p.rounded matches Some(r) ==> r == rounded(bits, w),
{
    let f = split(bits, w);
    let fm: u64 = match w {
        Width::W32 => 0x80_0000,
        _ => 0x10_0000_0000_0000,
    };
    let offset: u64 = match w {
        Width::W32 => 150,
        _ => 1075,
    };
    let m: u64 = if f.field == 0 {
        f.fraction
    } else {
        f.fraction + fm
    };
    let biased: u64 = if f.field == 0 {
        1
    } else {
        f.field
    };
    proof {
        lemma_pow2_128();
    }
    if biased >= offset {
        let e: u64 = biased - offset;
        proof {
            lemma_pow2_pos(e as nat);
        }
        if e >= 128 {
            proof {
                if e > 128 {
                    lemma_pow2_strictly_increases(128, e as nat);
                }
                assert(m * pow2(e as nat) >= pow2(128)) by (nonlinear_arith)
                    requires
                        m >= 1,
                        pow2(e as nat) >= pow2(128),
                ;
            }
            IntegerParts { integral: true, truncated: None, rounded: None }
        } else {
            let p: u128 = pow2_u128(e as u32);
            let limit: u128 = u128::MAX / p;
            if m as u128 > limit {
                proof {
                    assert(m * p > u128::MAX) by (nonlinear_arith)
                        requires
                            m > limit,
                            limit == u128::MAX / p,
                            p > 0,
                    ;
                }
                IntegerParts { integral: true, truncated: None, rounded: None }
            } else {
                proof {
                    assert(m * p <= u128::MAX) by (nonlinear_arith)
                        requires
                            m <= limit,
                            limit == u128::MAX / p,
                            p > 0,
                    ;
                }
                let v: u128 = m as u128 * p;
                IntegerParts { integral: true, truncated: Some(v), rounded: Some(v) }
            }
        }
    } else {
        let k: u64 = offset - biased;
        proof {
            lemma_pow2_pos(k as nat);
            lemma_pow2_unfold(k as nat);
        }
        if k >= 64 {
            proof {
                if k - 1 > 63 {
                    lemma_pow2_strictly_increases(63, (k - 1) as nat);
                }
                lemma_basic_div(m as int, pow2(k as nat) as int);
                lemma_small_mod(m as nat, pow2(k as nat));
                lemma_basic_div(m + pow2((k - 1) as nat), pow2(k as nat) as int);
            }
            IntegerParts { integral: m == 0, truncated: Some(0), rounded: Some(0) }
        } else {
            let d: u128 = pow2_u128(k as u32);
            proof {
                lemma_pow2_strictly_increases(k as nat, 64);
            }
            let half: u128 = d / 2;
            let wide: u128 = m as u128;
            IntegerParts {
                integral: wide % d == 0,
                truncated: Some(wide / d),
                rounded: Some((wide + half) / d),
            }
        }
    }
}

} // verus!
