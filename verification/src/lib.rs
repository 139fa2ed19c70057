//! Numeric casts that say what they lose.
//!
//! A cast between two numeric types either keeps the mathematical value or
//! changes it. [`Cast::cast`](casts::Cast::cast) tells the two apart: it gives
//! the equal value of the target type where there is one, and otherwise
//! reports the value that was cast together with what a truncating cast
//! gives. The policies of [`casts`] turn that result into one value: the
//! truncated one, the nearest one, the exact one that the caller has shown to
//! exist, or the one with the same bit pattern.
//!
//! The types are Rust's primitive integers, the floating-point types as bit
//! patterns ([`primitives::F32`], [`primitives::F64`]), and the integers
//! without zero ([`nonzero::NonZero`]). Underneath, a value of any of them is
//! a [`number::Number`], a type descriptor with an integer or a bit pattern,
//! and [`convert`] casts numbers for every pair of descriptors; [`laws`]
//! states what holds of every such cast.

pub mod kinds;
pub mod number;
pub mod integer;
pub mod ieee;
pub mod rounding;
pub mod convert;
pub mod lossless;
pub mod errors;
pub mod base;
pub mod primitives;
pub mod nonzero;
pub mod limits;
pub mod casts;
pub mod bounds;
pub mod prelude;
pub mod laws;
