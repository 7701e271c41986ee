//! The errors that the store reports.

use vstd::prelude::*;

verus! {

/// The smallest stored version: major, minor, patch.
pub type Semver = [u8; 3];

/// What can go wrong between a caller and the engine.
#[derive(Debug, Clone, PartialEq, Eq)]
pub enum Error {
    /// The stored version is not the one this build works with.
    IncompatibleDbVersion { version: Semver, expected: Semver },
    /// No version is stored.
    VersionNotFound,
    /// The stored version is not three bytes.
    InvalidDbVersion,
    /// No migration starts at this version.
    MigrationNotFound(Semver),
    /// A migration from this version is registered already.
    DuplicateMigration(Semver),
    /// The engine failed; the text is its message.
    DbError(String),
    /// No column family of this name is declared.
    ColumnFamilyNotFound(String),
    /// A value could not be encoded.
    SerializationFailed(String),
    /// Stored bytes could not be decoded.
    DeserializationFailed(String),
    /// Stored text is not a sequence identifier.
    InvalidSeqId,
}

/// What an operation of the store gives.
pub type Result<I> = std::result::Result<I, Error>;

} // verus!
