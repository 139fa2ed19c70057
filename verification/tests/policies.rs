//! The policies on concrete values, and what holds of every cast on samples.

use cove::base::Numeric;
use cove::casts::{
    AssumedLossless, Bitwise, Cast, Closest, Lossless, LosslessCast, Lossy, LossyCast,
    SaturatingCast,
};
use cove::convert::{bitwise, classify, closest, is_same_size, Outcome};
use cove::errors::FailedCastError;
use cove::kinds::{NumericKind, TypeDescriptor, Width};
use cove::limits::{Maximum, Minimum};
use cove::lossless::is_static_lossless;
use cove::nonzero::NonZero;
use cove::number::Number;
use cove::primitives::{F32, F64};

fn f32v(x: f32) -> F32 {
    F32::from_bits(x.to_bits())
}

fn f64v(x: f64) -> F64 {
    F64::from_bits(x.to_bits())
}

fn all_types() -> Vec<TypeDescriptor> {
    let widths = [Width::W8, Width::W16, Width::W32, Width::W64, Width::W128, Width::Pointer];
    let mut out = Vec::new();
    for w in widths {
        out.push(TypeDescriptor::primitive(NumericKind::UnsignedInt(w)));
        out.push(TypeDescriptor::primitive(NumericKind::SignedInt(w)));
        out.push(TypeDescriptor::non_zero(NumericKind::UnsignedInt(w)).unwrap());
        out.push(TypeDescriptor::non_zero(NumericKind::SignedInt(w)).unwrap());
    }
    out.push(TypeDescriptor::primitive(NumericKind::Float(Width::W32)));
    out.push(TypeDescriptor::primitive(NumericKind::Float(Width::W64)));
    out
}

fn sample_numbers() -> Vec<Number> {
    let mut out = vec![
        0u8.to_number(),
        255u8.to_number(),
        (-128i8).to_number(),
        (-1i8).to_number(),
        260u32.to_number(),
        65_535u16.to_number(),
        (-32_768i16).to_number(),
        16_777_216u32.to_number(),
        16_777_217u32.to_number(),
        u32::MAX.to_number(),
        i32::MIN.to_number(),
        u64::MAX.to_number(),
        i64::MIN.to_number(),
        (1u64 << 53).to_number(),
        ((1u64 << 53) + 1).to_number(),
        u128::MAX.to_number(),
        i128::MIN.to_number(),
        i128::MAX.to_number(),
        usize::MAX.to_number(),
        isize::MIN.to_number(),
        NonZero::new(1u8).unwrap().to_number(),
        NonZero::new(-1i64).unwrap().to_number(),
        NonZero::new(256u16).unwrap().to_number(),
    ];
    for x in [
        0.0f64,
        -0.0,
        0.5,
        -0.5,
        1.0,
        -1.0,
        255.0,
        256.0,
        -129.0,
        1e10,
        1e40,
        -1e40,
        1e-310,
        3.5,
        f64::MAX,
        f64::INFINITY,
        f64::NEG_INFINITY,
        f64::NAN,
        -f64::NAN,
    ] {
        out.push(f64v(x).to_number());
        out.push(f32v(x as f32).to_number());
    }
    out
}

#[test]
fn scenarios() {
    assert_eq!(260u32.cast::<u8>().unwrap_err().from, 260u32);
    assert_eq!(260u32.cast::<u8>().unwrap_err().to, 4u8);
    assert_eq!(
        classify(260u32.to_number(), u8::describe()),
        Outcome::Lossy { from: 260u32.to_number(), to: 4u8.to_number() }
    );
    assert_eq!(1_000_000_000u64.cast::<u8>().closest(), 255u8);
    assert_eq!((-7isize).cast::<u16>().closest(), 0u16);
    assert_eq!(f32v(5.5f32).cast::<u8>().closest(), 6u8);
    assert_eq!((-1i64).cast::<u64>().bitwise(), u64::MAX);
    assert_eq!(300u32.cast::<u8>().closest(), 255u8);
    assert_eq!(f32v(-4.6f32).cast::<i16>().closest(), -5i16);
    assert_eq!(f64v(9.2f64).cast::<usize>().lossy(), 9usize);
    assert_eq!(f64v(9.2f64).cast::<usize>().unwrap_err().to, 9usize);
    assert_eq!(90u32.cast::<u8>().assumed_lossless(), 90);
    assert_eq!(f32v(10f32).cast::<u32>().bitwise(), 1_092_616_192u32);
    assert_eq!(31u64.cast::<u128>().lossless(), 31u128);
    assert_eq!(8i16.cast::<u8>(), Ok(8u8));
    assert!(0u128.cast::<NonZero<i8>>().is_err());
}

#[test]
fn ties_go_away_from_zero() {
    assert_eq!(f64v(0.5).cast::<i8>().closest(), 1);
    assert_eq!(f64v(-0.5).cast::<i8>().closest(), -1);
    assert_eq!(f64v(1.5).cast::<i8>().closest(), 2);
    assert_eq!(f64v(2.5).cast::<i8>().closest(), 3);
    assert_eq!(f64v(-2.5).cast::<i8>().closest(), -3);
    assert_eq!(f64v(0.49999999999999994).cast::<i8>().closest(), 0);
    assert_eq!(f64v(127.5).cast::<i8>().closest(), 127);
    assert_eq!(f64v(-128.5).cast::<i8>().closest(), -128);
    assert_eq!(f32v(254.5).cast::<u8>().closest(), 255);
    assert_eq!(f32v(-0.4).cast::<u8>().closest(), 0);
}

#[test]
fn float_boundaries() {
    for k in 0..=127u32 {
        let power: u128 = 1u128 << k;
        assert_eq!(power.cast::<F32>().unwrap().to_bits(), (power as f32).to_bits());
        assert_eq!(power.cast::<F64>().unwrap().to_bits(), (power as f64).to_bits());
        assert_eq!(f32v(power as f32).cast::<u128>(), Ok(power));
    }
    assert!(16_777_215u32.cast::<F32>().is_ok());
    assert!(16_777_216u32.cast::<F32>().is_ok());
    let beyond = 16_777_217i32.cast::<F32>().unwrap_err();
    assert_eq!(beyond.from, 16_777_217i32);
    assert_eq!(beyond.to.to_bits(), 16_777_216f32.to_bits());
    assert!(16_777_218u32.cast::<F32>().is_ok());
    assert!(((1u64 << 53) + 1).cast::<F64>().is_err());
    assert!(((1u64 << 53) + 2).cast::<F64>().is_ok());
    assert_eq!(f32v(16_777_216.0).cast::<i32>(), Ok(16_777_216));

    // The greatest values of the integer types are not all floating-point values.
    assert!(f32v(2_147_483_648.0).cast::<i32>().is_err());
    assert_eq!(f32v(2_147_483_520.0).cast::<i32>(), Ok(2_147_483_520));
    assert!(f64v(9_223_372_036_854_775_808.0).cast::<i64>().is_err());
    assert_eq!(
        f64v(9_223_372_036_854_774_784.0).cast::<i64>(),
        Ok(9_223_372_036_854_774_784)
    );
    assert_eq!(f64v(-9_223_372_036_854_775_808.0).cast::<i64>(), Ok(i64::MIN));
    assert!(f64v(18_446_744_073_709_551_616.0).cast::<u64>().is_err());
    assert_eq!(f32v(f32::MAX).cast::<u128>(), Ok(f32::MAX as u128));
    assert!(f64v(f64::MAX).cast::<u128>().is_err());
    assert_eq!(f64v(-0.0).cast::<u8>(), Ok(0));
    assert!(f64v(f64::INFINITY).cast::<u128>().is_err());
    assert!(f64v(f64::NAN).cast::<i32>().is_err());
}

#[test]
fn nan_stays_nan() {
    assert!(f64v(f64::NAN).cast::<F64>().is_ok());
    assert!(f32v(f32::NAN).cast::<F32>().is_ok());
    assert_eq!(f32v(f32::NAN).cast::<F32>().unwrap().to_bits(), f32::NAN.to_bits());
    assert!(f64::from_bits(f32v(f32::NAN).cast::<F64>().unwrap().to_bits()).is_nan());
    assert!(f32::from_bits(f64v(f64::NAN).cast::<F32>().lossy().to_bits()).is_nan());
    assert!(f32::from_bits(f64v(f64::from_bits(0x7ff0_0000_0000_0001)).cast::<F32>().lossy().to_bits()).is_nan());
    assert_eq!(f64v(f64::NAN).cast::<u64>().closest(), 0);
    assert_eq!(f64v(f64::NAN).cast::<u64>().lossy(), 0);
    assert_eq!(f64v(f64::NAN).cast::<NonZero<u64>>().closest().get(), 1);
    assert_eq!(f64v(-f64::NAN).cast::<NonZero<u64>>().closest().get(), 1);
    assert_eq!(f64v(-f64::NAN).cast::<NonZero<i64>>().closest().get(), -1);
}

#[test]
fn closest_float_is_finite_for_a_finite_source() {
    assert_eq!(u128::MAX.cast::<F32>().unwrap_err().to.to_bits(), f32::INFINITY.to_bits());
    assert_eq!(u128::MAX.cast::<F32>().closest().to_bits(), f32::MAX.to_bits());
    assert_eq!(f64v(1e300).cast::<F32>().closest().to_bits(), f32::MAX.to_bits());
    assert_eq!(f64v(-1e300).cast::<F32>().closest().to_bits(), f32::MIN.to_bits());
    assert_eq!(f64v(1e-300).cast::<F32>().closest().to_bits(), 0.0f32.to_bits());
    assert_eq!(f64v(0.1).cast::<F32>().closest().to_bits(), 0.1f32.to_bits());
}

#[test]
fn direct_policies() {
    assert_eq!(200u8.lossless_cast::<i16>(), 200i16);
    assert_eq!(200u8.lossless_cast::<F32>().to_bits(), 200f32.to_bits());
    assert_eq!((-5i32).lossless_cast::<F64>().to_bits(), (-5f64).to_bits());
    assert_eq!(f32v(0.1).lossless_cast::<F64>().to_bits(), (0.1f32 as f64).to_bits());
    assert_eq!(NonZero::new(7u8).unwrap().lossless_cast::<NonZero<u16>>().get(), 7u16);
    assert_eq!(260u32.lossy_cast::<u8>(), 4u8);
    assert_eq!((-1i8).lossy_cast::<u32>(), u32::MAX);
    assert_eq!(f64v(-1.9).lossy_cast::<i8>(), -1i8);
    assert_eq!(260u32.saturating_cast::<u8>(), 255u8);
    assert_eq!((-260i32).saturating_cast::<i8>(), -128i8);
    assert_eq!(0u8.saturating_cast::<NonZero<i8>>().get(), 1i8);
    assert_eq!(FailedCastError::<u8, NonZero<u8>>::new(0u8).from, 0u8);
    assert_eq!(FailedCastError::<u8, NonZero<u8>>::new(0u8).closest().get(), 1u8);
}

#[test]
fn bitwise_keeps_the_pattern() {
    assert_eq!((-1i8).cast::<u8>().bitwise(), 255u8);
    assert_eq!(255u8.cast::<i8>().bitwise(), -1i8);
    assert_eq!(7u8.cast::<i8>().bitwise(), 7i8);
    assert_eq!(i32::MIN.cast::<u32>().bitwise(), 0x8000_0000u32);
    assert_eq!(u128::MAX.cast::<i128>().bitwise(), -1i128);
    assert_eq!(i128::MIN.cast::<u128>().bitwise(), 1u128 << 127);
    assert_eq!(1.0f32.to_bits().cast::<F32>().bitwise().to_bits(), 1.0f32.to_bits());
    assert_eq!(f64v(-2.5).cast::<i64>().bitwise(), (-2.5f64).to_bits() as i64);
    assert_eq!(f32v(-0.0).cast::<u32>().lossy(), 0u32);
    assert_eq!((-1isize).cast::<usize>().bitwise(), usize::MAX);
    assert_eq!(
        bitwise((-1i16).to_number(), u16::describe()),
        u16::MAX.to_number()
    );
    assert!(is_same_size(u32::describe(), F32::describe()));
    assert!(!is_same_size(u32::describe(), F64::describe()));
    assert!(!is_same_size(u8::describe(), NonZero::<u8>::describe()));
    assert!(is_same_size(NonZero::<i8>::describe(), NonZero::<u8>::describe()));
    assert_eq!(is_same_size(usize::describe(), u64::describe()), usize::BITS == 64);
}

#[test]
fn static_table() {
    assert!(is_static_lossless(u8::describe(), u8::describe()));
    assert!(is_static_lossless(u8::describe(), i16::describe()));
    assert!(!is_static_lossless(u8::describe(), i8::describe()));
    assert!(!is_static_lossless(i8::describe(), u128::describe()));
    assert!(is_static_lossless(i8::describe(), i8::describe()));
    assert!(is_static_lossless(u16::describe(), F32::describe()));
    assert!(is_static_lossless(i16::describe(), F32::describe()));
    assert!(!is_static_lossless(u32::describe(), F32::describe()));
    assert!(is_static_lossless(u32::describe(), F64::describe()));
    assert!(is_static_lossless(i32::describe(), F64::describe()));
    assert!(!is_static_lossless(u64::describe(), F64::describe()));
    assert!(is_static_lossless(F32::describe(), F64::describe()));
    assert!(is_static_lossless(F32::describe(), F32::describe()));
    assert!(!is_static_lossless(F64::describe(), F32::describe()));
    assert!(!is_static_lossless(F32::describe(), u128::describe()));
    assert!(!is_static_lossless(u8::describe(), NonZero::<u64>::describe()));
    assert!(is_static_lossless(NonZero::<u8>::describe(), NonZero::<u64>::describe()));
    assert!(is_static_lossless(NonZero::<u8>::describe(), u8::describe()));
    assert!(!is_static_lossless(NonZero::<u8>::describe(), NonZero::<i8>::describe()));
    assert_eq!(is_static_lossless(u64::describe(), usize::describe()), usize::BITS >= 64);
    assert_eq!(is_static_lossless(usize::describe(), u32::describe()), usize::BITS <= 32);
    assert_eq!(is_static_lossless(usize::describe(), F64::describe()), usize::BITS <= 32);
    assert!(is_static_lossless(usize::describe(), u128::describe()));
    assert!(!is_static_lossless(usize::describe(), isize::describe()));
}

#[test]
fn static_lossless_casts_are_exact_and_undone() {
    for from in sample_numbers() {
        for to in all_types() {
            let result = classify(from, to);
            if is_static_lossless(from.desc, to) {
                match result {
                    Outcome::Exact(n) => {
                        assert_eq!(n.desc, to);
                        assert_eq!(closest(from, to), n);
                        let back = classify(n, from.desc);
                        let is_nan = match from.desc.kind {
                            NumericKind::Float(Width::W32) => {
                                f32::from_bits(F32::from_number(from).to_bits()).is_nan()
                            },
                            NumericKind::Float(_) => {
                                f64::from_bits(F64::from_number(from).to_bits()).is_nan()
                            },
                            _ => false,
                        };
                        if !is_nan {
                            assert_eq!(back, Outcome::Exact(from), "{from:?} to {to:?}");
                        }
                    },
                    other => panic!("{from:?} to {to:?}: {other:?}"),
                }
            }
            if let Outcome::Exact(n) = result {
                assert_eq!(closest(from, to), n, "{from:?} to {to:?}");
            }
        }
    }
}

#[test]
fn closest_lies_in_the_target() {
    for from in sample_numbers() {
        for to in all_types() {
            let near = closest(from, to);
            assert_eq!(near.desc, to);
            // The nearest value is one of the target: a cast of it is exact.
            assert_eq!(classify(near, to), Outcome::Exact(near), "{from:?} to {to:?}");
        }
    }
}

#[test]
fn zero_never_reaches_a_type_without_zero() {
    for to in all_types() {
        if to.nonzero {
            for from in [
                0u8.to_number(),
                0i128.to_number(),
                0usize.to_number(),
                f32v(0.0).to_number(),
                f64v(-0.0).to_number(),
            ] {
                assert_eq!(classify(from, to), Outcome::Unrepresentable { from });
            }
            let one = closest(0u64.to_number(), to);
            assert_eq!(classify(one, u8::describe()), Outcome::Exact(1u8.to_number()));
        }
    }
}

#[test]
fn descriptors() {
    assert!(TypeDescriptor::non_zero(NumericKind::Float(Width::W32)).is_none());
    assert!(TypeDescriptor::primitive(NumericKind::Float(Width::W32)).is_well_formed());
    assert!(!TypeDescriptor::primitive(NumericKind::Float(Width::W8)).is_well_formed());
    assert_eq!(NonZero::<u8>::describe().underlying(), u8::describe());
    assert_eq!(Width::Pointer.bit_count(), usize::BITS);
    assert_eq!(Width::W128.umax_value(), u128::MAX);
    assert_eq!(Width::Pointer.imax_value(), isize::MAX as u128);
    assert!(Number::integer(u8::describe(), false, 256).is_none());
    assert_eq!(Number::integer(u8::describe(), false, 255), Some(255u8.to_number()));
    assert_eq!(Number::integer(i8::describe(), true, 128), Some((-128i8).to_number()));
    assert!(Number::integer(i8::describe(), true, 129).is_none());
    assert_eq!(Number::integer(i8::describe(), true, 0), Some(0i8.to_number()));
    assert!(Number::integer(NonZero::<i8>::describe(), false, 0).is_none());
    assert!(Number::integer(F32::describe(), false, 0).is_none());
    assert_eq!(Number::from_bits(Width::W32, 7), Some(F32::from_bits(7).to_number()));
    assert!(Number::from_bits(Width::W32, 1 << 32).is_none());
    assert!(Number::from_bits(Width::W16, 1).is_none());
    assert!(NonZero::new(0u8).is_none());
    assert!(NonZero::new(0i128).is_none());
}

#[test]
fn limits() {
    assert_eq!(u8::maximum(), 255);
    assert_eq!(i8::minimum(), -128);
    assert_eq!(u128::maximum(), u128::MAX);
    assert_eq!(i128::minimum(), i128::MIN);
    assert_eq!(isize::maximum(), isize::MAX);
    assert_eq!(usize::minimum(), 0);
    assert_eq!(F32::maximum().to_bits(), f32::MAX.to_bits());
    assert_eq!(F32::minimum().to_bits(), f32::MIN.to_bits());
    assert_eq!(F64::maximum().to_bits(), f64::MAX.to_bits());
    assert_eq!(F64::minimum().to_bits(), f64::MIN.to_bits());
    assert_eq!(NonZero::<u16>::maximum().get(), u16::MAX);
    assert_eq!(NonZero::<u16>::minimum().get(), 1);
    assert_eq!(NonZero::<i64>::maximum().get(), i64::MAX);
    assert_eq!(NonZero::<i64>::minimum().get(), i64::MIN);
    assert_eq!(NonZero::<i128>::minimum().get(), i128::MIN);
    assert_eq!(NonZero::<usize>::maximum().get(), usize::MAX);
}

#[test]
fn exact_casts_are_undone() {
    let mut exact = 0;
    for from in sample_numbers() {
        let nan = match from.desc.kind {
            NumericKind::Float(Width::W32) => {
                f32::from_bits(F32::from_number(from).to_bits()).is_nan()
            },
            NumericKind::Float(_) => f64::from_bits(F64::from_number(from).to_bits()).is_nan(),
            _ => false,
        };
        let minus_zero = from == f32v(-0.0).to_number() || from == f64v(-0.0).to_number();
        for to in all_types() {
            if let Outcome::Exact(n) = classify(from, to) {
                let to_integer = !matches!(to.kind, NumericKind::Float(_));
                if !nan && !(minus_zero && to_integer) {
                    assert_eq!(classify(n, from.desc), Outcome::Exact(from), "{from:?} {to:?}");
                    exact += 1;
                }
            }
        }
    }
    assert!(exact > 300);
}

#[test]
fn nan_round_trips() {
    // A quiet NaN comes back unchanged from the wider type.
    for bits in [0x7fc0_0000u32, 0xffc0_0000, 0x7fc0_0001, 0x7fff_ffff, 0xffe1_2345] {
        let wide = F32::from_bits(bits).cast::<F64>().unwrap();
        assert!(f64::from_bits(wide.to_bits()).is_nan());
        assert_eq!(wide.cast::<F32>(), Ok(F32::from_bits(bits)));
    }
    // A signalling one comes back quiet.
    let wide = F32::from_bits(0x7f80_0001).cast::<F64>().unwrap();
    assert_eq!(wide.to_bits(), 0x7ff8_0000_2000_0000);
    assert_eq!(wide.cast::<F32>(), Ok(F32::from_bits(0x7fc0_0001)));
    // A quiet NaN whose payload fits the narrower type comes back unchanged.
    let narrow = F64::from_bits(0xfff8_0000_2000_0000).cast::<F32>().unwrap();
    assert_eq!(narrow.to_bits(), 0xffc0_0001);
    assert_eq!(narrow.cast::<F64>(), Ok(F64::from_bits(0xfff8_0000_2000_0000)));
    // One whose payload does not fit loses the low bits.
    let cut = F64::from_bits(0x7ff8_0000_0000_0001).cast::<F32>().unwrap();
    assert_eq!(cut.cast::<F64>(), Ok(F64::from_bits(0x7ff8_0000_0000_0000)));
}

#[test]
fn bitwise_keeps_the_pattern_of_every_sample() {
    for from in sample_numbers() {
        for to in all_types() {
            if is_same_size(from.desc, to) {
                let there = bitwise(from, to);
                assert_eq!(there.desc, to);
                if is_same_size(to, from.desc) {
                    assert_eq!(bitwise(there, from.desc), from, "{from:?} {to:?}");
                }
            }
        }
    }
}
