//! What a cast that lost something reports.

use vstd::prelude::*;
use core::marker::PhantomData;

verus! {

/// A cast changed the value: `from` is the value that was cast, `to` what a
/// truncating cast gave.
#[derive(Clone, Copy, Debug, PartialEq, Eq)]
pub struct LossyCastError<CastFrom, CastTo> {
    /// The value before the cast
    pub from: CastFrom,
    /// The lossy value after the cast
    pub to: CastTo,
}

/// A cast changed the value and the target type cannot hold what a truncating
/// cast would give; only the value that was cast is reported.
#[derive(Debug, PartialEq, Eq)]
pub struct FailedCastError<CastFrom, CastTo> {
    /// The value before the cast
    pub from: CastFrom,
    to: PhantomData<CastTo>,
}

impl<CastFrom, CastTo> FailedCastError<CastFrom, CastTo> {
    /// The value before the cast: the field `from`.
    pub closed spec fn source(self) -> CastFrom {
        self.from
    }

    /// Reports that the cast of `source` failed.
    pub fn new(source: CastFrom) -> (e: Self)
        ensures
            e.source() == source,
    {
        Self { from: source, to: PhantomData }
    }

    /// The value before the cast.
    pub fn into_source(self) -> (source: CastFrom)
        ensures
            source == self.source(),
    {
        self.from
    }
}

/// What a failed cast from a type that excludes zero to another such type
/// reports: the value that was cast with what a truncating cast gave, or,
/// where that would be zero, the value that was cast alone.
#[derive(Debug, PartialEq, Eq)]
pub enum NonZeroCastError<CastFrom, CastTo> {
    Lossy(LossyCastError<CastFrom, CastTo>),
    Failed(FailedCastError<CastFrom, CastTo>),
}

impl<CastFrom, CastTo> NonZeroCastError<CastFrom, CastTo> {
    /// The value before the cast.
    pub open spec fn source(self) -> CastFrom {
        match self {
            NonZeroCastError::Lossy(e) => e.from,
            NonZeroCastError::Failed(e) => e.source(),
        }
    }

    /// The value before the cast.
    pub fn into_source(self) -> (source: CastFrom)
        ensures
            source == self.source(),
    {
        match self {
            NonZeroCastError::Lossy(e) => e.from,
            NonZeroCastError::Failed(e) => e.into_source(),
        }
    }

    /// What a truncating cast gave, where that is a value of the target.
    pub fn into_lossy(self) -> (to: Option<CastTo>)
        ensures
            to == (match self {
                NonZeroCastError::Lossy(e) => Some(e.to),
                NonZeroCastError::Failed(_) => None,
            }),
    {
        match self {
            NonZeroCastError::Lossy(e) => Some(e.to),
            NonZeroCastError::Failed(_) => None,
        }
    }
}

impl<CastFrom: Copy, CastTo: Copy> Clone for NonZeroCastError<CastFrom, CastTo> {
    fn clone(&self) -> (e: Self)
        ensures
            e == *self,
    {
        *self
    }
}

impl<CastFrom: Copy, CastTo: Copy> Copy for NonZeroCastError<CastFrom, CastTo> {

}

impl<CastFrom: Copy, CastTo> Clone for FailedCastError<CastFrom, CastTo> {
    fn clone(&self) -> (e: Self)
        ensures
            e == *self,
    {
        *self
    }
}

impl<CastFrom: Copy, CastTo> Copy for FailedCastError<CastFrom, CastTo> {

}

} // verus!
