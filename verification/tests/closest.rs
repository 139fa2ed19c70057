use cove::casts::{Cast, Closest};
use cove::nonzero::NonZero;
use cove::primitives::{F32, F64};

fn f32v(x: f32) -> F32 {
    F32::from_bits(x.to_bits())
}

fn f64v(x: f64) -> F64 {
    F64::from_bits(x.to_bits())
}

fn f32of(x: F32) -> f32 {
    f32::from_bits(x.to_bits())
}

fn f64of(x: F64) -> f64 {
    f64::from_bits(x.to_bits())
}

#[test]
fn closest_lossless() {
    assert_eq!(0u128.cast::<i8>().closest(), 0i8);
    assert_eq!(f64v(-99f64).cast::<i16>().closest(), -99i16);
}

#[test]
fn saturating() {
    assert_eq!(u128::MAX.cast::<i32>().closest(), i32::MAX);
    assert_eq!(f32v(-300f32).cast::<usize>().closest(), 0usize);
}

#[test]
fn rounding() {
    assert_eq!(f32v(5.5f32).cast::<u8>().closest(), 6u8);
    assert_eq!(f32v(5.49f32).cast::<u8>().closest(), 5u8);
}

#[test]
fn infinity() {
    assert_eq!(f64of(f64v(f64::INFINITY).cast::<F64>().closest()), f64::INFINITY);
    assert_eq!(f32of(f64v(f64::INFINITY).cast::<F32>().closest()), f32::INFINITY);
    assert_eq!(f64of(f64v(f64::NEG_INFINITY).cast::<F64>().closest()), f64::NEG_INFINITY);
    assert_eq!(f32of(f64v(f64::NEG_INFINITY).cast::<F32>().closest()), f32::NEG_INFINITY);

    assert_eq!(f64of(f32v(f32::INFINITY).cast::<F64>().closest()), f64::INFINITY);
    assert_eq!(f32of(f32v(f32::INFINITY).cast::<F32>().closest()), f32::INFINITY);
    assert_eq!(f64of(f32v(f32::NEG_INFINITY).cast::<F64>().closest()), f64::NEG_INFINITY);
    assert_eq!(f32of(f32v(f32::NEG_INFINITY).cast::<F32>().closest()), f32::NEG_INFINITY);

    assert_eq!(f64v(f64::INFINITY).cast::<u32>().closest(), u32::MAX);
    assert_eq!(f32v(f32::NEG_INFINITY).cast::<i16>().closest(), i16::MIN);
}

#[test]
fn overflow() {
    assert_eq!(f32of(u128::MAX.cast::<F32>().closest()), f32::MAX);
    assert_eq!(f32of(f64v(f64::MIN).cast::<F32>().closest()), f32::MIN);
}

#[test]
fn nan() {
    assert!(f64of(f64v(f64::NAN).cast::<F64>().closest()).is_nan());
    assert!(f32of(f64v(f64::NAN).cast::<F32>().closest()).is_nan());
    assert!(f64of(f32v(f32::NAN).cast::<F64>().closest()).is_nan());
    assert!(f32of(f32v(f32::NAN).cast::<F32>().closest()).is_nan());

    assert_eq!(f32v(f32::NAN).cast::<i8>().closest(), 0i8);
    assert_eq!(f32v(f32::NAN).cast::<NonZero<i8>>().closest().get(), 1i8);
    assert_eq!(f32v(-f32::NAN).cast::<NonZero<i8>>().closest().get(), -1i8);
}
