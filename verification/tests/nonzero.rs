//! Casts from and to the integer types without zero.

use cove::base::Numeric;
use cove::casts::{AssumedLossless, Bitwise, Cast, Closest, Lossless, Lossy};
use cove::convert::{classify, Outcome};
use cove::errors::{FailedCastError, LossyCastError, NonZeroCastError};
use cove::nonzero::NonZero;
use cove::primitives::{F32, F64};

#[test]
fn nonzero_nonzero_assumed_lossless() {
    // Narrowing: NonZero -> NonZero
    assert_eq!(
        NonZero::new(7i32).unwrap().cast::<NonZero<u16>>().assumed_lossless().get(),
        7u16
    );

    // Narrowing: NonZero -> primitive
    assert_eq!(
        NonZero::new(3001u32).unwrap().cast::<NonZero<i16>>().assumed_lossless().get(),
        3001i16
    );
}

#[test]
fn nonzero_bitwise() {
    // NonZero -> primitive
    assert_eq!(NonZero::new(7u8).unwrap().cast::<u8>().bitwise(), 7u8);
    assert_eq!(NonZero::new(-7i8).unwrap().cast::<u8>().bitwise(), -7i8 as u8);
    let bits: F64 = NonZero::new(i64::MIN).unwrap().cast::<F64>().bitwise();
    assert_eq!(f64::from_bits(bits.to_bits()), f64::from_ne_bytes(i64::MIN.to_ne_bytes()));

    assert_ne!(f64::from_bits(bits.to_bits()), i64::MIN as f64);

    // NonZero -> NonZero
    assert_eq!(
        NonZero::new(u16::MAX).unwrap().cast::<NonZero<i16>>().bitwise(),
        NonZero::new(u16::MAX as i16).unwrap()
    );
}

#[test]
fn nonzero_bitwise_16() {
    if usize::BITS == 16 {
        assert_eq!(NonZero::new(4500usize).unwrap().cast::<i16>().bitwise(), 4500i16);
        assert_eq!(
            NonZero::new(isize::MIN).unwrap().cast::<u16>().bitwise(),
            isize::MIN as u16
        );
        assert_eq!(NonZero::new(8080u16).unwrap().cast::<usize>().bitwise(), 8080usize);
        assert_eq!(
            NonZero::new(-301i16).unwrap().cast::<NonZero<usize>>().bitwise().get(),
            -301i16 as usize
        );
    }
}

#[test]
fn nonzero_bitwise_32() {
    if usize::BITS == 32 {
        assert_eq!(NonZero::new(45000usize).unwrap().cast::<i32>().bitwise(), 45000i32);
        assert_eq!(
            NonZero::new(isize::MIN).unwrap().cast::<u32>().bitwise(),
            isize::MIN as u32
        );
        assert_eq!(NonZero::new(8080u32).unwrap().cast::<usize>().bitwise(), 8080usize);
        assert_eq!(
            NonZero::new(-301i32).unwrap().cast::<NonZero<usize>>().bitwise().get(),
            -301i32 as usize
        );
    }
}

#[test]
fn nonzero_bitwise_64() {
    if usize::BITS == 64 {
        assert_eq!(NonZero::new(45000usize).unwrap().cast::<i64>().bitwise(), 45000i64);
        assert_eq!(
            NonZero::new(isize::MIN).unwrap().cast::<u64>().bitwise(),
            isize::MIN as u64
        );
        assert_eq!(NonZero::new(8080u64).unwrap().cast::<usize>().bitwise(), 8080usize);
        assert_eq!(
            NonZero::new(-301i64).unwrap().cast::<NonZero<usize>>().bitwise().get(),
            -301i64 as usize
        );
    }
}

#[test]
fn nonzero_bitwise_128() {
    if usize::BITS == 128 {
        assert_eq!(NonZero::new(45000usize).unwrap().cast::<i128>().bitwise(), 45000i128);
        assert_eq!(
            NonZero::new(isize::MIN).unwrap().cast::<u128>().bitwise(),
            isize::MIN as u128
        );
        assert_eq!(NonZero::new(8080u128).unwrap().cast::<usize>().bitwise(), 8080usize);
        assert_eq!(
            NonZero::new(-301i128).unwrap().cast::<NonZero<usize>>().bitwise().get(),
            -301i128 as usize
        );
    }
}

#[test]
fn nonzero_closest() {
    // Narrowing: NonZero -> NonZero
    assert_eq!(NonZero::new(3u16).unwrap().cast::<NonZero<u8>>().closest().get(), 3u8);
    assert_eq!(NonZero::new(261u16).unwrap().cast::<NonZero<u8>>().closest().get(), 255u8);

    // Narrowing: NonZero -> primitive
    assert_eq!(NonZero::new(3u16).unwrap().cast::<u8>().closest(), 3u8);
    assert_eq!(NonZero::new(261u16).unwrap().cast::<u8>().closest(), 255u8);

    // Narrowing: primitive -> NonZero
    assert_eq!(3u16.cast::<NonZero<u8>>().closest(), NonZero::new(3u8).unwrap());
    assert_eq!(261u16.cast::<NonZero<u8>>().closest(), NonZero::new(255u8).unwrap());
    assert_eq!(0u16.cast::<NonZero<u8>>().closest(), NonZero::new(1u8).unwrap());

    // Floating point
    assert_eq!(
        F32::from_bits(8.0f32.to_bits()).cast::<NonZero<i32>>().closest(),
        NonZero::new(8i32).unwrap()
    );
}

#[test]
fn nonzero_estimated() {
    // Narrowing: NonZero -> NonZero
    assert_eq!(NonZero::new(3u16).unwrap().cast::<NonZero<u8>>().closest().get(), 3u8);
    assert_eq!(NonZero::new(261u16).unwrap().cast::<NonZero<u8>>().closest().get(), 255u8);

    // Narrowing: NonZero -> primitive
    assert_eq!(NonZero::new(3u16).unwrap().cast::<u8>().closest(), 3u8);
    assert_eq!(NonZero::new(261u16).unwrap().cast::<u8>().closest(), 255u8);

    // Narrowing: primitive -> NonZero
    assert_eq!(3u16.cast::<NonZero<u8>>().closest(), NonZero::new(3u8).unwrap());
    assert_eq!(261u16.cast::<NonZero<u8>>().closest(), NonZero::new(255u8).unwrap());
    assert_eq!(0u16.cast::<NonZero<u8>>().closest(), NonZero::new(1u8).unwrap());

    // Floating point
    assert_eq!(
        F32::from_bits(8.0f32.to_bits()).cast::<NonZero<i32>>().closest(),
        NonZero::new(8i32).unwrap()
    );
}

#[test]
fn nonzero_nonzero_lossy() {
    // Narrowing: NonZero -> NonZero
    assert_eq!(NonZero::new(3u16).unwrap().cast::<NonZero<u8>>().lossy().get(), 3u8);
    assert_eq!(NonZero::new(261u16).unwrap().cast::<NonZero<u8>>().lossy().get(), 5u8);

    // Narrowing: NonZero -> primitive
    assert_eq!(NonZero::new(3u16).unwrap().cast::<u8>().lossy(), 3u8);
    assert_eq!(NonZero::new(261u16).unwrap().cast::<u8>().lossy(), 5u8);
}

#[test]
fn nonzero_saturated() {
    // Narrowing: NonZero -> NonZero
    assert_eq!(NonZero::new(3u16).unwrap().cast::<NonZero<u8>>().closest().get(), 3u8);
    assert_eq!(NonZero::new(261u16).unwrap().cast::<NonZero<u8>>().closest().get(), 255u8);

    // Narrowing: NonZero -> primitive
    assert_eq!(NonZero::new(3u16).unwrap().cast::<u8>().closest(), 3u8);
    assert_eq!(NonZero::new(261u16).unwrap().cast::<u8>().closest(), 255u8);
}

#[test]
fn nonzero_lossless() {
    assert_eq!(
        NonZero::new(u64::MAX).unwrap().cast::<NonZero<u128>>().lossless().get(),
        u64::MAX as u128
    );

    assert_eq!(NonZero::new(-3i8).unwrap().cast::<NonZero<isize>>().lossless().get(), -3isize);
    assert_eq!(NonZero::new(1usize).unwrap().cast::<usize>().lossless(), 1usize);

    assert_eq!(
        NonZero::new(i64::MIN).unwrap().cast::<NonZero<i128>>().lossless().get(),
        i64::MIN as i128
    );
}

#[test]
fn zero_is_unrepresentable() {
    assert_eq!(
        classify(0u8.to_number(), NonZero::<i64>::describe()),
        Outcome::Unrepresentable { from: 0u8.to_number() }
    );
    assert_eq!(
        classify(256u16.to_number(), NonZero::<u8>::describe()),
        Outcome::Unrepresentable { from: 256u16.to_number() }
    );
    assert_eq!(0i32.cast::<NonZero<u8>>().closest().get(), 1u8);
    assert_eq!((-5i32).cast::<NonZero<u8>>().closest().get(), 1u8);
    assert_eq!(F64::from_bits((-0.0f64).to_bits()).cast::<NonZero<i32>>().closest().get(), -1);
    assert_eq!(F64::from_bits((0.0f64).to_bits()).cast::<NonZero<i32>>().closest().get(), 1);
    assert_eq!(F64::from_bits((-0.0f64).to_bits()).cast::<NonZero<u32>>().closest().get(), 1);
    assert_eq!(F64::from_bits((-0.3f64).to_bits()).cast::<NonZero<i32>>().closest().get(), -1);
}

#[test]
fn nonzero_assumed_lossless() {
    // Narrowing, Sign Change: NonZero -> NonZero
    assert_eq!(
        NonZero::new(7i32).unwrap().cast::<NonZero<u16>>().assumed_lossless().get(),
        7u16
    );
}

#[test]
fn nonzero_lossy() {
    // Narrowing: NonZero -> NonZero
    assert_eq!(NonZero::new(3u16).unwrap().cast::<NonZero<u8>>().lossy().get(), 3u8);
    assert_eq!(NonZero::new(261u16).unwrap().cast::<NonZero<u8>>().lossy().get(), 5u8);

    // Narrowing: NonZero -> primitive
    assert_eq!(NonZero::new(3u16).unwrap().cast::<u8>().lossy(), 3u8);
    assert_eq!(NonZero::new(261u16).unwrap().cast::<u8>().lossy(), 5u8);
}

#[test]
fn nonzero_to_nonzero_failures() {
    // A lossy value that is not zero is reported.
    let lossy = NonZero::new(261u16).unwrap().cast::<NonZero<u8>>().unwrap_err();
    assert_eq!(lossy.into_source(), NonZero::new(261u16).unwrap());
    assert_eq!(lossy.into_lossy(), Some(NonZero::new(5u8).unwrap()));
    assert_eq!(
        lossy,
        NonZeroCastError::Lossy(LossyCastError {
            from: NonZero::new(261u16).unwrap(),
            to: NonZero::new(5u8).unwrap(),
        })
    );
    assert_eq!(lossy.closest().get(), 255u8);
    assert_eq!(
        NonZero::new(-1i8).unwrap().cast::<NonZero<u8>>().unwrap_err().into_lossy(),
        Some(NonZero::new(255u8).unwrap())
    );

    // A lossy value of zero is not: there is no such value of the target.
    let failed = NonZero::new(256u16).unwrap().cast::<NonZero<u8>>().unwrap_err();
    assert_eq!(failed, NonZeroCastError::Failed(FailedCastError::new(NonZero::new(256u16).unwrap())));
    assert_eq!(failed.into_source(), NonZero::new(256u16).unwrap());
    assert_eq!(failed.into_lossy(), None);
    assert_eq!(failed.closest().get(), 255u8);
    assert_eq!(NonZero::new(i16::MIN).unwrap().cast::<NonZero<i8>>().unwrap_err().into_lossy(), None);
    assert_eq!(NonZero::new(i16::MIN).unwrap().cast::<NonZero<i8>>().closest().get(), i8::MIN);

    // From a primitive type only the source is reported.
    assert_eq!(261u16.cast::<NonZero<u8>>().unwrap_err().from, 261u16);
    assert_eq!(261u16.cast::<NonZero<u8>>().unwrap_err(), FailedCastError::new(261u16));
    assert_eq!(261u16.cast::<NonZero<u8>>().unwrap_err().into_source(), 261u16);
}
