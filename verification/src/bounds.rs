//! Bounds for generic code: "a type that casts to `T`", with the policies that
//! the code needs on the result.

use vstd::prelude::*;
use crate::base::CastImpl;
use crate::casts::{Cast, Closest, Lossless, Lossy};

verus! {

/// A type that casts to `T`, with [`Closest`] and [`Lossy`] on what a cast
/// that is not exact reports.
pub trait CastTo<T>: Cast + CastImpl<T, Error = <Self as CastTo<T>>::_Error> {
    type _Error: Copy + Closest<T> + Lossy<T>;
}

/// A type that casts to `T`, with [`Closest`] on what a cast that is not
/// exact reports.
pub trait CastToClosest<T>: Cast + CastImpl<T, Error = <Self as CastToClosest<T>>::_Error> {
    type _Error: Copy + Closest<T>;
}

/// A type that casts to `T`, with [`Lossless`] on the result of the cast.
pub trait CastToLossless<T>: Cast + CastImpl<T, Error = <Self as CastToLossless<T>>::_Error> {
    type _Error: Copy;
}

impl<TO, ERROR: Copy + Closest<TO> + Lossy<TO>, FROM: Cast + CastImpl<TO, Error = ERROR>> CastTo<
    TO,
> for FROM {
    type _Error = ERROR;
}

impl<TO, ERROR: Copy + Closest<TO>, FROM: Cast + CastImpl<TO, Error = ERROR>> CastToClosest<
    TO,
> for FROM {
    type _Error = ERROR;
}

impl<TO, ERROR: Copy, FROM: Cast + CastImpl<TO, Error = ERROR>> CastToLossless<TO> for FROM where
    Result<TO, ERROR>: Lossless<TO>,
 {
    type _Error = ERROR;
}

} // verus!
