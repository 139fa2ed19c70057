//! The traits that casting by method needs, in one place.

pub use crate::casts::{AssumedLossless, Bitwise, Cast, Closest, Lossless, Lossy};
