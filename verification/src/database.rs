//! What the engine's façade decides for itself: which failures of the
//! engine become which errors.

use vstd::prelude::*;
use crate::errors::{Error, Result};

verus! {

/// The compression that a column family's blocks are stored with.
#[derive(Debug, Clone, Copy, PartialEq, Eq, Structural)]
pub enum DBCompressionTypeDef {
    /// Blocks are stored as they are.
    NoCompression,
    Snappy,
    Zlib,
    Bz2,
    Lz4,
    Lz4hc,
    Zstd,
}

/// The handle of the column family called `name`, as the engine's lookup
/// gave it; a family that the engine does not know is an error that names
/// it.
pub fn family<H>(handle: Option<H>, name: &str) -> (r: Result<H>)
    ensures
        match handle {
            Some(h) => r == Ok::<H, Error>(h),
            None => r matches Err(Error::ColumnFamilyNotFound(text)) && text@ == name@,
        },
{
    match handle {
        Some(h) => Ok(h),
        None => Err(Error::ColumnFamilyNotFound(name.to_owned())),
    }
}

/// What an operation of the engine gave, with the engine's failure as an
/// error of this library; `message` turns the failure into its text.
pub fn engine_result<T>(outcome: std::result::Result<T, String>) -> (r: Result<T>)
    ensures
        match outcome {
            Ok(value) => r == Ok::<T, Error>(value),
            Err(message) => r == Err::<T, Error>(Error::DbError(message)),
        },
{
    match outcome {
        Ok(value) => Ok(value),
        Err(message) => Err(Error::DbError(message)),
    }
}

} // verus!
