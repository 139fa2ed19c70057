//! Integers cast to integer types: two's-complement truncation and saturation.

use vstd::prelude::*;
use vstd::arithmetic::div_mod::lemma_fundamental_div_mod_converse;
use crate::kinds::{NumericKind, TypeDescriptor, Width};
use crate::number::signed_value;

verus! {

/// The integer that the low bits of `v`, as many as the width has, stand for
/// as an unsigned numeral: the remainder of `v` on division by the modulus of
/// the width.
pub open spec fn low_bits(v: int, w: Width) -> int {
    match w {
        Width::W8 => v % 0x100,
        Width::W16 => v % 0x1_0000,
        Width::W32 => v % 0x1_0000_0000,
        Width::W64 => v % 0x1_0000_0000_0000_0000,
        Width::W128 => v % 0x1_0000_0000_0000_0000_0000_0000_0000_0000int,
        Width::Pointer => v % (usize::MAX as int + 1),
    }
}

/// [`low_bits`] is the remainder on division by the modulus of the width.
pub proof fn lemma_low_bits(v: int, w: Width)
    ensures
        low_bits(v, w) == v % w.modulus(),
        0 <= low_bits(v, w) < w.modulus(),
{
    match w {
        Width::W8 => {
            assert(w.modulus() == 0x100);
        },
        Width::W16 => {
            assert(w.modulus() == 0x1_0000);
        },
        Width::W32 => {
            assert(w.modulus() == 0x1_0000_0000);
        },
        Width::W64 => {
            assert(w.modulus() == 0x1_0000_0000_0000_0000);
        },
        Width::W128 => {
            assert(w.modulus() == 0x1_0000_0000_0000_0000_0000_0000_0000_0000int);
        },
        Width::Pointer => {
            assert(w.modulus() == usize::MAX as int + 1);
        },
    }
}

/// What a truncating cast of the integer `v` to an integer kind gives: the one
/// value of the kind that differs from `v` by a multiple of the kind's modulus.
pub open spec fn wrap(v: int, kind: NumericKind) -> int {
    let low = low_bits(v, kind.width());
    match kind {
        NumericKind::SignedInt(w) => if low > w.imax() {
            low - w.modulus()
        } else {
            low
        },
        _ => low,
    }
}

/// The value of the underlying integer type that is nearest to `v`.
pub open spec fn clamp(v: int, desc: TypeDescriptor) -> int {
    if v < desc.min() {
        desc.min()
    } else if v > desc.max() {
        desc.max()
    } else {
        v
    }
}

/// The remainder of the integer on division by the modulus of `width`.
pub fn residue(negative: bool, magnitude: u128, width: Width) -> (low: u128)
    ensures
        low == low_bits(signed_value(negative, magnitude), width),
{
    proof {
        lemma_low_bits(signed_value(negative, magnitude), width);
    }
    let max: u128 = width.umax_value();
    if max == u128::MAX {
        if negative && magnitude != 0 {
            let low: u128 = (u128::MAX - magnitude) + 1;
            proof {
                lemma_fundamental_div_mod_converse(
                    signed_value(negative, magnitude),
                    width.modulus(),
                    -1,
                    low as int,
                );
            }
            low
        } else {
            proof {
                lemma_fundamental_div_mod_converse(
                    signed_value(negative, magnitude),
                    width.modulus(),
                    0,
                    magnitude as int,
                );
            }
            magnitude
        }
    } else {
        let n: u128 = max + 1;
        let rest: u128 = magnitude % n;
        let ghost q: int = (magnitude / n) as int;
        proof {
            assert(magnitude == q * n + rest) by {
                vstd::arithmetic::div_mod::lemma_fundamental_div_mod(magnitude as int, n as int);
                assert(n * q == q * n) by (nonlinear_arith);
            }
        }
        if negative && rest != 0 {
            let low: u128 = n - rest;
            proof {
                assert(-(magnitude as int) == (-q - 1) * n + low) by (nonlinear_arith)
                    requires
                        magnitude == q * n + rest,
                        low == n - rest,
                ;
                lemma_fundamental_div_mod_converse(
                    signed_value(negative, magnitude),
                    n as int,
                    -q - 1,
                    low as int,
                );
            }
            low
        } else {
            proof {
                if negative {
                    assert(-(magnitude as int) == (-q) * n + 0) by (nonlinear_arith)
                        requires
                            magnitude == q * n + rest,
                            rest == 0,
                    ;
                    lemma_fundamental_div_mod_converse(
                        signed_value(negative, magnitude),
                        n as int,
                        -q,
                        0,
                    );
                }
            }
            rest
        }
    }
}

/// Truncates the integer to an integer kind, as a cast between primitive
/// integer types does. The result is given as sign and magnitude.
pub fn wrap_integer(negative: bool, magnitude: u128, kind: NumericKind) -> (r: (bool, u128))
    requires
        !kind.is_float(),
    ensures
        signed_value(r.0, r.1) == wrap(signed_value(negative, magnitude), kind),
        r.0 ==> r.1 != 0,
        (TypeDescriptor { kind, nonzero: false }).admits(signed_value(r.0, r.1)),
{
    let low: u128 = residue(negative, magnitude, kind.get_width());
    proof {
        lemma_low_bits(signed_value(negative, magnitude), kind.width());
    }
    match kind {
        NumericKind::SignedInt(w) => {
            if low > w.imax_value() {
                if w.umax_value() == u128::MAX {
                    (true, (u128::MAX - low) + 1)
                } else {
                    (true, (w.umax_value() - low) + 1)
                }
            } else {
                (false, low)
            }
        },
        _ => (false, low),
    }
}

/// Saturates the integer to the range of the underlying type of `desc`: the
/// least value for an integer below the range, the greatest for one above it.
pub fn clamp_integer(negative: bool, magnitude: u128, desc: TypeDescriptor) -> (r: (bool, u128))
    requires
        desc.is_integer(),
    ensures
        signed_value(r.0, r.1) == clamp(signed_value(negative, magnitude), desc),
        r.0 ==> r.1 != 0,
{
    match desc.kind {
        NumericKind::SignedInt(w) => {
            let max: u128 = w.imax_value();
            if negative {
                if magnitude > max {
                    (true, max + 1)
                } else {
                    (magnitude != 0, magnitude)
                }
            } else if magnitude > max {
                (false, max)
            } else {
                (false, magnitude)
            }
        },
        _ => {
            let max: u128 = desc.kind.get_width().umax_value();
            if negative {
                (false, 0)
            } else if magnitude > max {
                (false, max)
            } else {
                (false, magnitude)
            }
        },
    }
}

} // verus!
