//! Rounding a number to a floating-point format.
//!
//! [`encode`] says which pattern a number `m * 2^e` gets: that of the nearest
//! value of the format, a tie going to the even significand, and that of
//! infinity beyond the greatest finite value. [`encode_magnitude`] computes
//! it. The lemmas say when nothing is rounded.

use vstd::prelude::*;
use vstd::arithmetic::power2::{
    pow2,
    lemma2_to64,
    lemma_pow2_adds,
    lemma_pow2_pos,
    lemma_pow2_strictly_increases,
    lemma_pow2_unfold,
};
use vstd::arithmetic::div_mod::{lemma_basic_div, lemma_small_mod};
use crate::ieee::{
    bias,
    field,
    field_max,
    fraction,
    fraction_bits,
    fraction_modulus,
    infinity,
    infinity_of,
    is_format,
    is_integral,
    is_negative,
    lemma_below_infinity,
    lemma_fields,
    lemma_pattern_parts,
    lemma_pow2_128,
    pow2_u128,
    scale,
    significand,
    truncated,
};
use crate::kinds::Width;

verus! {

/// The number of bits that the binary numeral of `m` has; 0 for 0.
pub open spec fn bit_length(m: nat) -> nat
    decreases m,
{
    if m == 0 {
        0
    } else {
        1 + bit_length(m / 2)
    }
}

/// `m / 2^s`, rounded to the nearest integer, a tie going to the even one.
pub open spec fn round_half_even(m: nat, s: nat) -> nat {
    let d = pow2(s);
    let q = m / d;
    let r = m % d;
    if 2 * r > d || (2 * r == d && q % 2 == 1) {
        q + 1
    } else {
        q
    }
}

/// The pattern, without the sign bit, of the value of the format `w` that is
/// nearest to `m * 2^e`, a tie going to the even significand; the pattern of
/// infinity where `m * 2^e` rounds beyond the greatest finite value.
pub open spec fn encode(m: nat, e: int, w: Width) -> int {
    if m == 0 {
        0
    } else {
        let top = e + bit_length(m) - 1;
        let least = 1 - bias(w);
        let quantum = (if top < least {
            least
        } else {
            top
        }) - fraction_bits(w);
        let sig = if e >= quantum {
            m * pow2((e - quantum) as nat)
        } else {
            round_half_even(m, (quantum - e) as nat)
        };
        let base = if top < least {
            0
        } else {
            (top - least) * fraction_modulus(w)
        };
        if base + sig >= infinity(w) {
            infinity(w)
        } else {
            base + sig
        }
    }
}

/// A positive integer lies between the powers of two that its length names.
pub proof fn lemma_bit_length(m: nat)
    ensures
        m < pow2(bit_length(m)),
        m > 0 ==> pow2((bit_length(m) - 1) as nat) <= m,
    decreases m,
{
    lemma2_to64();
    if m > 0 {
        lemma_bit_length(m / 2);
        lemma_pow2_unfold(bit_length(m));
        if m / 2 > 0 {
            lemma_pow2_unfold((bit_length(m) - 1) as nat);
        }
    }
}

/// A number below `2^l` has at most `l` bits.
pub proof fn lemma_bit_length_bound(m: nat, l: nat)
    requires
        m < pow2(l),
    ensures
        bit_length(m) <= l,
{
    lemma_bit_length(m);
    if bit_length(m) > l {
        if bit_length(m) - 1 > l {
            lemma_pow2_strictly_increases(l, (bit_length(m) - 1) as nat);
        }
    }
}

/// Multiplying by `2^k` adds `k` bits.
pub proof fn lemma_bit_length_shift(m: nat, k: nat)
    requires
        m > 0,
    ensures
        bit_length(m * pow2(k)) == bit_length(m) + k,
    decreases k,
{
    if k == 0 {
        lemma2_to64();
        assert(m * pow2(0) == m) by (nonlinear_arith)
            requires
                pow2(0) == 1,
        ;
    } else {
        lemma_pow2_unfold(k);
        lemma_pow2_pos((k - 1) as nat);
        let x = m * pow2((k - 1) as nat);
        assert(m * pow2(k) == 2 * x) by (nonlinear_arith)
            requires
                pow2(k) == 2 * pow2((k - 1) as nat),
                x == m * pow2((k - 1) as nat),
        ;
        assert(x > 0) by (nonlinear_arith)
            requires
                x == m * pow2((k - 1) as nat),
                m > 0,
                pow2((k - 1) as nat) > 0,
        ;
        assert((2 * x) / 2 == x);
        lemma_bit_length_shift(m, (k - 1) as nat);
    }
}

/// Dividing a number below `2^l` by `2^s` leaves a number below `2^(l - s)`,
/// and nothing where `s` is at least `l`.
pub proof fn lemma_div_pow2_bound(m: nat, l: nat, s: nat)
    requires
        m < pow2(l),
    ensures
        s <= l ==> m / pow2(s) < pow2((l - s) as nat),
        s >= l ==> m / pow2(s) == 0,
{
    lemma_pow2_pos(s);
    if s <= l {
        lemma_pow2_adds(s, (l - s) as nat);
        let d = pow2(s) as int;
        let b = pow2((l - s) as nat) as int;
        assert(m as int / d < b) by (nonlinear_arith)
            requires
                0 <= m < d * b,
                d > 0,
        ;
    }
    if s >= l {
        if s > l {
            lemma_pow2_strictly_increases(l, s);
        }
        lemma_basic_div(m as int, pow2(s) as int);
    }
}

/// Rounding a number below `2^l` after division by `2^s` gives at most
/// `2^t`, where `l` is at most `s + t`.
pub proof fn lemma_round_bound(m: nat, l: nat, s: nat, t: nat)
    requires
        m < pow2(l),
        l <= s + t,
    ensures
        round_half_even(m, s) <= pow2(t),
{
    lemma_pow2_pos(t);
    lemma_div_pow2_bound(m, l, s);
    if s <= l && l - s < t {
        lemma_pow2_strictly_increases((l - s) as nat, t);
    }
    lemma_pow2_pos(s);
    vstd::arithmetic::div_mod::lemma_div_pos_is_pos(m as int, pow2(s) as int);
}

/// Nothing is rounded where the divisor divides.
pub proof fn lemma_round_exact(m: nat, s: nat)
    ensures
        round_half_even(m * pow2(s), s) == m,
{
    lemma_pow2_pos(s);
    let d = pow2(s);
    vstd::arithmetic::div_mod::lemma_div_multiples_vanish(m as int, d as int);
    vstd::arithmetic::div_mod::lemma_mod_multiples_basic(m as int, d as int);
    assert(m * d == d * m) by (nonlinear_arith);
    assert((m * d) / d == m);
    assert((m * d) % d == 0);
}

/// Rounding does not change where numerator and divisor are both multiplied
/// by a power of two.
pub proof fn lemma_round_scale(m: nat, j: nat, s: nat)
    ensures
        round_half_even(m * pow2(j), s + j) == round_half_even(m, s),
{
    let p = pow2(j) as int;
    let d = pow2(s) as int;
    lemma_pow2_pos(j);
    lemma_pow2_pos(s);
    lemma_pow2_adds(s, j);
    let big = pow2(s + j) as int;
    assert(big == d * p);
    let q = m as int / d;
    let r = m as int % d;
    vstd::arithmetic::div_mod::lemma_fundamental_div_mod(m as int, d);
    vstd::arithmetic::div_mod::lemma_mod_bound(m as int, d);
    vstd::arithmetic::div_mod::lemma_div_pos_is_pos(m as int, d);
    assert(m * p == q * big + r * p) by (nonlinear_arith)
        requires
            m == d * q + r,
            big == d * p,
    ;
    assert(0 <= r * p < big) by (nonlinear_arith)
        requires
            0 <= r < d,
            big == d * p,
            p > 0,
    ;
    vstd::arithmetic::div_mod::lemma_fundamental_div_mod_converse(m * p, big, q, r * p);
    assert((2 * (r * p) > big) == (2 * r > d)) by (nonlinear_arith)
        requires
            big == d * p,
            p > 0,
    ;
    assert((2 * (r * p) == big) == (2 * r == d)) by (nonlinear_arith)
        requires
            big == d * p,
            p > 0,
    ;
}

/// What [`round_half_even`] gives is an integer nearest to `m / 2^s`: it
/// differs from the quotient by at most a half, and where two integers are
/// equally near it is the even one.
pub proof fn lemma_round_half_even_is_nearest(m: nat, s: nat)
    ensures
        ({
            let d = pow2(s) as int;
            let near = round_half_even(m, s) as int;
            &&& -d <= 2 * (near * d - m) <= d
            &&& (2 * (near * d - m) == d || 2 * (near * d - m) == -d) ==> near % 2 == 0
        }),
{
    let d = pow2(s) as int;
    lemma_pow2_pos(s);
    let q = m as int / d;
    let r = m as int % d;
    vstd::arithmetic::div_mod::lemma_fundamental_div_mod(m as int, d);
    vstd::arithmetic::div_mod::lemma_mod_bound(m as int, d);
    vstd::arithmetic::div_mod::lemma_div_pos_is_pos(m as int, d);
    assert((q + 1) * d - m == d - r) by (nonlinear_arith)
        requires
            m == d * q + r,
    ;
    assert(q * d - m == -r) by (nonlinear_arith)
        requires
            m == d * q + r,
    ;
}

/// A pattern that [`encode`] gives is at most that of infinity.
pub proof fn lemma_encode_range(m: nat, e: int, w: Width)
    requires
        is_format(w),
    ensures
        0 <= encode(m, e, w) <= infinity(w),
{
    if m != 0 {
        let top = e + bit_length(m) - 1;
        let least = 1 - bias(w);
        if top >= least {
            assert((top - least) * fraction_modulus(w) >= 0) by (nonlinear_arith)
                requires
                    top - least >= 0,
                    fraction_modulus(w) > 0,
            ;
        }
    }
}

/// A number whose bits fit the significand, and whose leading bit lies in the
/// range of the normal exponents, is encoded without rounding: the pattern is
/// finite and normal, and stands for `m * 2^e`.
pub proof fn lemma_encode_normal(m: nat, e: int, w: Width)
    requires
        is_format(w),
        m > 0,
        bit_length(m) <= fraction_bits(w) + 1,
        1 - bias(w) <= e + bit_length(m) - 1 <= bias(w),
    ensures
        0 < encode(m, e, w) < infinity(w),
        field(encode(m, e, w) as u64, w) == e + bit_length(m) - 1 + bias(w),
        significand(encode(m, e, w) as u64, w) == m * pow2(
            (fraction_bits(w) + 1 - bit_length(m)) as nat,
        ),
        scale(encode(m, e, w) as u64, w) == e - (fraction_bits(w) + 1 - bit_length(m)),
{
    lemma_pow2_128();
    let fb = fraction_bits(w);
    let fm = fraction_modulus(w);
    let l = bit_length(m);
    lemma_bit_length(m);
    let k = (fb + 1 - l) as nat;
    let p = pow2(k) as int;
    let sig = m * p;
    lemma_pow2_pos(k);
    lemma_pow2_adds(l, k);
    lemma_pow2_adds((l - 1) as nat, k);
    assert(pow2((l - 1) as nat) * p <= sig < pow2(l) * p) by (nonlinear_arith)
        requires
            pow2((l - 1) as nat) <= m < pow2(l),
            sig == m * p,
            p > 0,
    ;
    assert(fm <= sig < 2 * fm);
    let f = e + l - 1 + bias(w);
    let raw = (f - 1) * fm + sig;
    assert(encode(m, e, w) == raw);
    let bits = raw as u64;
    assert(bits == f * fm + (sig - fm));
    lemma_fields(bits, w);
    if w == Width::W32 {
        assert(bits as int / 0x80_0000 == f);
        assert(bits as int % 0x80_0000 == sig - fm);
    } else {
        assert(bits as int / 0x10_0000_0000_0000 == f);
        assert(bits as int % 0x10_0000_0000_0000 == sig - fm);
    }
}

/// An integer that has no more bits than the significand of the format is
/// encoded without rounding: the pattern is finite, stands for an integer,
/// and that integer is `m`.
pub proof fn lemma_short_integer_encodes_exactly(m: nat, w: Width)
    requires
        is_format(w),
        m < pow2((fraction_bits(w) + 1) as nat),
    ensures
        0 <= encode(m, 0, w) < infinity(w),
        is_integral(encode(m, 0, w) as u64, w),
        truncated(encode(m, 0, w) as u64, w) == m,
{
    let fb = fraction_bits(w);
    lemma_encode_range(m, 0, w);
    if m == 0 {
        assert(encode(m, 0, w) == 0);
        lemma_fields(0u64, w);
        let k = (-scale(0u64, w)) as nat;
        lemma_pow2_pos(k);
        lemma_basic_div(0, pow2(k) as int);
        lemma_small_mod(0, pow2(k));
    } else {
        lemma_bit_length(m);
        lemma_bit_length_bound(m, (fb + 1) as nat);
        lemma_encode_normal(m, 0, w);
        let k = (fb + 1 - bit_length(m)) as nat;
        let p = pow2(k) as int;
        lemma_pow2_pos(k);
        if k == 0 {
            lemma2_to64();
            assert(m * p == m) by (nonlinear_arith)
                requires
                    p == 1,
            ;
        } else {
            vstd::arithmetic::div_mod::lemma_div_multiples_vanish(m as int, p);
            vstd::arithmetic::div_mod::lemma_mod_multiples_basic(m as int, p);
        }
    }
}

/// The pattern depends on the number alone: `(m * 2^j) * 2^e` and
/// `m * 2^(e + j)` give the same one.
pub proof fn lemma_encode_scale(m: nat, j: nat, e: int, w: Width)
    requires
        is_format(w),
    ensures
        encode(m * pow2(j), e, w) == encode(m, e + j, w),
{
    lemma_pow2_pos(j);
    if m == 0 {
        assert(m * pow2(j) == 0) by (nonlinear_arith)
            requires
                m == 0,
        ;
    } else {
        let big = m * pow2(j);
        assert(big > 0) by (nonlinear_arith)
            requires
                big == m * pow2(j),
                m > 0,
                pow2(j) > 0,
        ;
        lemma_bit_length_shift(m, j);
        let top = e + j + bit_length(m) - 1;
        let least = 1 - bias(w);
        let quantum = (if top < least {
            least
        } else {
            top
        }) - fraction_bits(w);
        if e >= quantum {
            let k = (e - quantum) as nat;
            lemma_pow2_adds(j, k);
            assert(big * pow2(k) == m * pow2(j + k)) by (nonlinear_arith)
                requires
                    big == m * pow2(j),
                    pow2(j + k) == pow2(j) * pow2(k),
            ;
        } else if e + j >= quantum {
            let s = (quantum - e) as nat;
            let k = (j - s) as nat;
            lemma_pow2_adds(k, s);
            let part = m * pow2(k);
            assert(big == part * pow2(s)) by (nonlinear_arith)
                requires
                    big == m * pow2(j),
                    part == m * pow2(k),
                    pow2(j) == pow2(k) * pow2(s),
            ;
            lemma_round_exact(part, s);
        } else {
            let s = (quantum - e - j) as nat;
            lemma_round_scale(m, j, s);
        }
    }
}

/// Encoding the significand and the scale of a finite pattern without the
/// sign bit gives the pattern back.
pub proof fn lemma_encode_decode(bits: u64, w: Width)
    requires
        is_format(w),
        bits < infinity(w),
    ensures
        encode(significand(bits, w) as nat, scale(bits, w), w) == bits,
{
    lemma_below_infinity(bits, w);
    lemma_pattern_parts(bits, w);
    lemma_pow2_128();
    lemma2_to64();
    let m = significand(bits, w) as nat;
    let e = scale(bits, w);
    let fb = fraction_bits(w);
    if field(bits, w) == 0 {
        assert(field(bits, w) * fraction_modulus(w) == 0) by (nonlinear_arith)
            requires
                field(bits, w) == 0,
        ;
    }
    if m != 0 {
        lemma_bit_length(m);
        if field(bits, w) != 0 {
            lemma_bit_length_bound(m, (fb + 1) as nat);
            if bit_length(m) < fb + 1 {
                lemma_pow2_strictly_increases(bit_length(m), (fb + 1) as nat);
                if bit_length(m) < fb {
                    lemma_pow2_strictly_increases(bit_length(m), fb as nat);
                }
            }
            assert(bit_length(m) == fb + 1);
            lemma_encode_normal(m, e, w);
            let r = encode(m, e, w) as u64;
            lemma_pattern_parts(r, w);
            assert(m * pow2(0) == m) by (nonlinear_arith)
                requires
                    pow2(0) == 1,
            ;
            assert(fraction(r, w) == fraction(bits, w));
            assert(field(r, w) == field(bits, w));
            assert(!is_negative(r, w));
            assert(r == bits);
        } else {
            lemma_bit_length_bound(m, fb as nat);
            assert(m * pow2(0) == m) by (nonlinear_arith)
                requires
                    pow2(0) == 1,
            ;
            let top = e + bit_length(m) - 1;
            assert(top < 1 - bias(w));
            assert(e == 1 - bias(w) - fb);
            assert(m == bits);
            assert(encode(m, e, w) == m);
        }
    } else {
        assert(bits == 0);
    }
}

/// The number of bits of `m`.
pub fn length_of(m: u128) -> (l: u32)
    ensures
        l == bit_length(m as nat),
        l <= 128,
{
    let mut rest: u128 = m;
    let mut l: u32 = 0;
    proof {
        lemma_pow2_128();
        lemma_bit_length_bound(m as nat, 128);
    }
    while rest > 0
        invariant
            l + bit_length(rest as nat) == bit_length(m as nat),
            bit_length(m as nat) <= 128,
        decreases rest,
    {
        rest = rest / 2;
        l = l + 1;
    }
    l
}

/// Divides by a power of two and rounds to the nearest, a tie to the even.
pub fn round_shift(m: u128, s: u32) -> (r: u128)
    ensures
        r == round_half_even(m as nat, s as nat),
{
    proof {
        lemma_pow2_128();
        lemma_pow2_pos(s as nat);
    }
    if s == 0 {
        proof {
            lemma2_to64();
        }
        m
    } else if s >= 128 {
        proof {
            if s > 128 {
                lemma_pow2_strictly_increases(128, s as nat);
                lemma_pow2_strictly_increases(128, (s - 1) as nat + 1);
                lemma_pow2_unfold(s as nat);
                if s - 1 > 128 {
                    lemma_pow2_strictly_increases(128, (s - 1) as nat);
                }
            }
            lemma_basic_div(m as int, pow2(s as nat) as int);
            lemma_small_mod(m as nat, pow2(s as nat));
        }
        if s == 128 && m > crate::kinds::TWO_POW_127 {
            1
        } else {
            0
        }
    } else {
        let d: u128 = pow2_u128(s);
        proof {
            lemma_pow2_unfold(s as nat);
        }
        let q: u128 = m / d;
        let r: u128 = m % d;
        let half: u128 = d / 2;
        proof {
            lemma_pow2_pos((s - 1) as nat);
            vstd::arithmetic::div_mod::lemma_div_is_ordered_by_denominator(m as int, 2, d as int);
        }
        if r > half || (r == half && q % 2 == 1) {
            q + 1
        } else {
            q
        }
    }
}

/// Rounds `m * 2^e` to the format `w` and gives the pattern without its sign.
pub fn encode_magnitude(m: u128, e: i64, w: Width) -> (bits: u64)
    requires
        is_format(w),
    ensures
        bits == encode(m as nat, e as int, w),
        bits <= infinity(w),
{
    if m == 0 {
        return 0;
    }
    let l: u32 = length_of(m);
    proof {
        lemma_pow2_128();
        lemma_bit_length(m as nat);
    }
    if e > 1200 {
        // The leading bit lies beyond every exponent of the format.
        proof {
            let top = e + l - 1;
            let least = 1 - bias(w);
            assert((top - least) * fraction_modulus(w) >= field_max(w) * fraction_modulus(w))
                by (nonlinear_arith)
                requires
                    top - least >= field_max(w),
                    fraction_modulus(w) > 0,
            ;
            if w == Width::W32 {
                assert(field_max(w) * fraction_modulus(w) == 255 * 0x80_0000);
            } else {
                assert(field_max(w) * fraction_modulus(w) == 2047 * 0x10_0000_0000_0000);
            }
        }
        return infinity_of(w);
    }
    if e < -1300 {
        // Less than half of the least positive value of the format.
        proof {
            let quantum = 1 - bias(w) - fraction_bits(w);
            let s = (quantum - e) as nat;
            lemma_pow2_pos(s);
            lemma_pow2_unfold(s);
            lemma_pow2_strictly_increases(128, (s - 1) as nat);
            lemma_basic_div(m as int, pow2(s) as int);
            lemma_small_mod(m as nat, pow2(s));
        }
        return 0;
    }
    let fm: u64 = match w {
        Width::W32 => 0x80_0000,
        _ => 0x10_0000_0000_0000,
    };
    let fb: i64 = match w {
        Width::W32 => 23,
        _ => 52,
    };
    let least: i64 = match w {
        Width::W32 => -126,
        _ => -1022,
    };
    let inf: u64 = match w {
        Width::W32 => 0x7f80_0000,
        _ => 0x7ff0_0000_0000_0000,
    };
    let top: i64 = e + l as i64 - 1;
    let quantum: i64 = (if top < least {
        least
    } else {
        top
    }) - fb;
    let sig: u128 = if e >= quantum {
        let k: u32 = (e - quantum) as u32;
        let p: u128 = pow2_u128(k);
        proof {
            lemma_pow2_pos(k as nat);
            lemma_pow2_adds(l as nat, k as nat);
            if l + k < fb + 1 {
                lemma_pow2_strictly_increases((l + k) as nat, (fb + 1) as nat);
            }
            assert(m * p < pow2(l as nat) * p) by (nonlinear_arith)
                requires
                    m < pow2(l as nat),
                    p > 0,
            ;
            assert(m * p < pow2((fb + 1) as nat));
        }
        m * p
    } else {
        let s: u32 = (quantum - e) as u32;
        proof {
            lemma_round_bound(m as nat, l as nat, s as nat, (fb + 1) as nat);
        }
        let near: u128 = round_shift(m, s);
        near
    };
    assert(sig <= pow2((fb + 1) as nat));
    let base: u64 = if top < least {
        0
    } else {
        (top - least) as u64 * fm
    };
    let raw: u64 = base + sig as u64;
    if raw >= inf {
        inf
    } else {
        raw
    }
}

/// A power of two within the exponent range of the format is encoded without
/// rounding, however many bits it has.
pub proof fn lemma_power_of_two_encodes_exactly(k: nat, w: Width)
    requires
        is_format(w),
        k <= bias(w),
    ensures
        0 <= encode(pow2(k), 0, w) < infinity(w),
        is_integral(encode(pow2(k), 0, w) as u64, w),
        truncated(encode(pow2(k), 0, w) as u64, w) == pow2(k),
{
    let fb = fraction_bits(w) as nat;
    lemma2_to64();
    lemma_pow2_pos(k);
    assert(bit_length(0) == 0);
    assert(1nat / 2 == 0);
    assert(bit_length(1) == 1);
    assert(1 * pow2(k) == pow2(k));
    lemma_encode_scale(1, k, 0, w);
    lemma_encode_normal(1, k as int, w);
    let r = encode(pow2(k), 0, w) as u64;
    let sig = pow2(fb) as int;
    assert(significand(r, w) == 1 * pow2(fb));
    assert(significand(r, w) == sig);
    assert(scale(r, w) == k - fb);
    if k >= fb {
        lemma_pow2_adds(fb, (k - fb) as nat);
    } else {
        let d = pow2((fb - k) as nat) as int;
        lemma_pow2_pos((fb - k) as nat);
        lemma_pow2_adds(k, (fb - k) as nat);
        assert(sig == pow2(k) * d);
        vstd::arithmetic::div_mod::lemma_div_multiples_vanish(pow2(k) as int, d);
        vstd::arithmetic::div_mod::lemma_mod_multiples_basic(pow2(k) as int, d);
        assert(pow2(k) * d == d * pow2(k)) by (nonlinear_arith);
    }
}

} // verus!
