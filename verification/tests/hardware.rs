//! The casts of the library against the casts of the machine, on boundary
//! values and on a fixed pseudo-random sample.

use cove::casts::{Cast, Closest, Lossy};
use cove::primitives::{F32, F64};

fn f32v(x: f32) -> F32 {
    F32::from_bits(x.to_bits())
}

fn f64v(x: f64) -> F64 {
    F64::from_bits(x.to_bits())
}

fn next(state: &mut u64) -> u64 {
    *state ^= *state << 13;
    *state ^= *state >> 7;
    *state ^= *state << 17;
    *state
}

fn sample_u64() -> Vec<u64> {
    let mut out = vec![
        0,
        1,
        2,
        3,
        255,
        256,
        (1 << 24) - 1,
        1 << 24,
        (1 << 24) + 1,
        (1 << 24) + 2,
        (1 << 24) + 3,
        (1 << 25) + 2,
        (1 << 25) + 6,
        (1 << 53) - 1,
        1 << 53,
        (1 << 53) + 1,
        (1 << 53) + 2,
        (1 << 53) + 3,
        (1 << 54) + 2,
        (1 << 54) + 6,
        u32::MAX as u64,
        i64::MAX as u64,
        (i64::MAX as u64) + 1,
        u64::MAX - 1,
        u64::MAX,
        0xffff_ff7f_ffff_ffff,
        0xffff_ff80_0000_0000,
        0xffff_ff80_0000_0001,
        0xffff_ffff_ffff_fbff,
        0xffff_ffff_ffff_fc00,
    ];
    let mut state: u64 = 0x9e37_79b9_7f4a_7c15;
    for i in 0..4000 {
        let raw = next(&mut state);
        out.push(raw >> (i % 64));
    }
    out
}

fn sample_f64() -> Vec<f64> {
    let mut out = vec![
        0.0,
        -0.0,
        0.5,
        -0.5,
        0.49999999999999994,
        1.5,
        2.5,
        -2.5,
        5.5,
        5.49,
        254.5,
        255.5,
        -128.5,
        -129.0,
        127.5,
        1e10,
        -1e10,
        1e30,
        -1e30,
        1e300,
        -1e300,
        4294967295.0,
        4294967296.0,
        9223372036854775807.0,
        9223372036854774784.0,
        -9223372036854775808.0,
        18446744073709551615.0,
        18446744073709549568.0,
        3.4028234663852886e38,
        3.4028235677973366e38,
        3.4028235677973362e38,
        3.402823669209385e38,
        1.1754943508222875e-38,
        1.1754942106924411e-38,
        1.401298464324817e-45,
        7.006492321624085e-46,
        7.006492321624087e-46,
        7.00649232162408e-46,
        2.1019476964872256e-45,
        1e-320,
        f64::MIN_POSITIVE,
        f64::MAX,
        f64::MIN,
        f64::EPSILON,
        f64::INFINITY,
        f64::NEG_INFINITY,
        16777217.0,
        16777216.0,
        16777215.0,
        33554433.0,
    ];
    let mut state: u64 = 0x2545_f491_4f6c_dd1d;
    for i in 0..6000 {
        let raw = next(&mut state);
        let x = f64::from_bits(raw);
        if !x.is_nan() {
            out.push(x);
        }
        // Values near the range of the 32-bit type and of the integers.
        let exponent = 1023 - 160 + (raw % 320);
        let near = f64::from_bits((raw & 0x800f_ffff_ffff_ffff) | (exponent << 52));
        out.push(near);
        if i % 3 == 0 {
            out.push(f64::from_bits(near.to_bits() & 0xffff_ffff_e000_0000));
            out.push(f64::from_bits(near.to_bits() & 0xffff_ffff_f000_0000));
        }
    }
    out
}

fn sample_f32() -> Vec<f32> {
    let mut out: Vec<f32> = sample_f64().iter().map(|x| *x as f32).collect();
    let mut state: u64 = 0x1234_5678_9abc_def1;
    for _ in 0..4000 {
        let x = f32::from_bits(next(&mut state) as u32);
        if !x.is_nan() {
            out.push(x);
        }
    }
    out.push(f32::MIN_POSITIVE);
    out.push(f32::from_bits(1));
    out.push(f32::from_bits(0x007f_ffff));
    out.push(f32::MAX);
    out
}

#[test]
fn unsigned_to_float_as_the_machine() {
    for x in sample_u64() {
        let single = x.cast::<F32>();
        assert_eq!(single.lossy().to_bits(), (x as f32).to_bits(), "{x} to f32");
        assert_eq!(single.is_ok(), (x as f32) as u128 == x as u128, "{x} to f32");
        let double = x.cast::<F64>();
        assert_eq!(double.lossy().to_bits(), (x as f64).to_bits(), "{x} to f64");
        assert_eq!(double.is_ok(), (x as f64) as u128 == x as u128, "{x} to f64");

        let wide: u128 = ((x as u128) << 64) | (x.rotate_left(17) as u128);
        assert_eq!(wide.cast::<F32>().lossy().to_bits(), (wide as f32).to_bits(), "{wide}");
        assert_eq!(wide.cast::<F64>().lossy().to_bits(), (wide as f64).to_bits(), "{wide}");
        let shifted: u128 = (x as u128) << (x % 65);
        assert_eq!(shifted.cast::<F32>().lossy().to_bits(), (shifted as f32).to_bits());
        assert_eq!(shifted.cast::<F64>().lossy().to_bits(), (shifted as f64).to_bits());
    }
    assert_eq!(u128::MAX.cast::<F32>().lossy().to_bits(), f32::INFINITY.to_bits());
    assert_eq!(u128::MAX.cast::<F64>().lossy().to_bits(), (u128::MAX as f64).to_bits());
}

#[test]
fn signed_to_float_as_the_machine() {
    for x in sample_u64() {
        let y = x as i64;
        let single = y.cast::<F32>();
        assert_eq!(single.lossy().to_bits(), (y as f32).to_bits(), "{y} to f32");
        assert_eq!(single.is_ok(), (y as f32) as i128 == y as i128, "{y} to f32");
        let double = y.cast::<F64>();
        assert_eq!(double.lossy().to_bits(), (y as f64).to_bits(), "{y} to f64");
        assert_eq!(double.is_ok(), (y as f64) as i128 == y as i128, "{y} to f64");
        let wide: i128 = (((x as u128) << 64) | (x.rotate_left(29) as u128)) as i128;
        assert_eq!(wide.cast::<F32>().lossy().to_bits(), (wide as f32).to_bits(), "{wide}");
        assert_eq!(wide.cast::<F64>().lossy().to_bits(), (wide as f64).to_bits(), "{wide}");
    }
    assert_eq!(i128::MIN.cast::<F32>().unwrap().to_bits(), (i128::MIN as f32).to_bits());
    assert_eq!(i128::MIN.cast::<F64>().unwrap().to_bits(), (i128::MIN as f64).to_bits());
}

#[test]
fn narrowing_as_the_machine() {
    for x in sample_f64() {
        let r = f64v(x).cast::<F32>();
        assert_eq!(r.lossy().to_bits(), (x as f32).to_bits(), "{x:e}");
        assert_eq!(r.is_ok(), ((x as f32) as f64).to_bits() == x.to_bits(), "{x:e}");
    }
}

#[test]
fn widening_as_the_machine() {
    for x in sample_f32() {
        let r = f32v(x).cast::<F64>();
        assert_eq!(r.unwrap().to_bits(), (x as f64).to_bits(), "{x:e}");
    }
}

#[test]
fn float_to_integer_as_the_machine() {
    for x in sample_f64() {
        let v = f64v(x);
        assert_eq!(v.cast::<u8>().lossy(), x as u8, "{x:e}");
        assert_eq!(v.cast::<i8>().lossy(), x as i8, "{x:e}");
        assert_eq!(v.cast::<u32>().lossy(), x as u32, "{x:e}");
        assert_eq!(v.cast::<i32>().lossy(), x as i32, "{x:e}");
        assert_eq!(v.cast::<u64>().lossy(), x as u64, "{x:e}");
        assert_eq!(v.cast::<i64>().lossy(), x as i64, "{x:e}");
        assert_eq!(v.cast::<usize>().lossy(), x as usize, "{x:e}");
        assert_eq!(v.cast::<isize>().lossy(), x as isize, "{x:e}");
        assert_eq!(v.cast::<u128>().lossy(), x as u128, "{x:e}");
        assert_eq!(v.cast::<i128>().lossy(), x as i128, "{x:e}");

        assert_eq!(v.cast::<u8>().closest(), x.round() as u8, "{x:e}");
        assert_eq!(v.cast::<i16>().closest(), x.round() as i16, "{x:e}");
        assert_eq!(v.cast::<i64>().closest(), x.round() as i64, "{x:e}");
        assert_eq!(v.cast::<u128>().closest(), x.round() as u128, "{x:e}");
        assert_eq!(v.cast::<i128>().closest(), x.round() as i128, "{x:e}");

        let whole = x.is_finite() && x.fract() == 0.0;
        assert_eq!(v.cast::<i64>().is_ok(), whole && (x as i64) as f64 == x && x != 9223372036854775808.0, "{x:e}");
        assert_eq!(v.cast::<u8>().is_ok(), whole && (0.0..=255.0).contains(&x), "{x:e}");
        assert_eq!(v.cast::<u128>().is_ok(), whole && x >= 0.0 && x < 340282366920938463463374607431768211456.0, "{x:e}");
    }
    for x in sample_f32() {
        let v = f32v(x);
        assert_eq!(v.cast::<u16>().lossy(), x as u16, "{x:e}");
        assert_eq!(v.cast::<i32>().lossy(), x as i32, "{x:e}");
        assert_eq!(v.cast::<u64>().lossy(), x as u64, "{x:e}");
        assert_eq!(v.cast::<i128>().lossy(), x as i128, "{x:e}");
        assert_eq!(v.cast::<u128>().lossy(), x as u128, "{x:e}");
        assert_eq!(v.cast::<i32>().closest(), x.round() as i32, "{x:e}");
        assert_eq!(v.cast::<u128>().closest(), x.round() as u128, "{x:e}");
    }
}

#[test]
fn integer_to_integer_as_the_machine() {
    for x in sample_u64() {
        let y = x as i64;
        assert_eq!(x.cast::<u8>().lossy(), x as u8);
        assert_eq!(x.cast::<i8>().lossy(), x as i8);
        assert_eq!(x.cast::<i32>().lossy(), x as i32);
        assert_eq!(x.cast::<i64>().lossy(), x as i64);
        assert_eq!(x.cast::<isize>().lossy(), x as isize);
        assert_eq!(x.cast::<u128>().lossy(), x as u128);
        assert_eq!(y.cast::<u8>().lossy(), y as u8);
        assert_eq!(y.cast::<u16>().lossy(), y as u16);
        assert_eq!(y.cast::<i16>().lossy(), y as i16);
        assert_eq!(y.cast::<u64>().lossy(), y as u64);
        assert_eq!(y.cast::<usize>().lossy(), y as usize);
        assert_eq!(y.cast::<u128>().lossy(), y as u128);
        assert_eq!(y.cast::<i128>().lossy(), y as i128);
        let wide: i128 = (((x as u128) << 64) | (x.rotate_left(29) as u128)) as i128;
        assert_eq!(wide.cast::<u128>().lossy(), wide as u128);
        assert_eq!(wide.cast::<i64>().lossy(), wide as i64);
        assert_eq!(wide.cast::<u32>().lossy(), wide as u32);
        assert_eq!((wide as u128).cast::<i128>().lossy(), wide);

        assert_eq!(x.cast::<u8>().is_ok(), u8::try_from(x).is_ok());
        assert_eq!(x.cast::<i64>().is_ok(), i64::try_from(x).is_ok());
        assert_eq!(y.cast::<u64>().is_ok(), u64::try_from(y).is_ok());
        assert_eq!(y.cast::<i16>().is_ok(), i16::try_from(y).is_ok());
        assert_eq!(wide.cast::<u128>().is_ok(), u128::try_from(wide).is_ok());

        assert_eq!(y.cast::<i16>().closest(), y.clamp(i16::MIN as i64, i16::MAX as i64) as i16);
        assert_eq!(y.cast::<u32>().closest(), y.clamp(0, u32::MAX as i64) as u32);
        assert_eq!(x.cast::<i64>().closest(), x.min(i64::MAX as u64) as i64);
    }
}
