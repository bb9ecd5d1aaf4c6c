use vstd::prelude::*;

use crate::label::InvalidLabel;

verus! {

/// The ways an operation of this library can fail.
#[derive(Debug, Clone, Copy, PartialEq, Eq, Structural)]
pub enum Error {
    /// A configuration value is malformed or missing.
    InvalidConfig,
    /// Fetched content does not match its expected digest.
    InvalidContent,
    /// A digest string is malformed.
    InvalidContentDigest,
    /// A fetched manifest is malformed.
    InvalidPackageManifest,
    /// A label is malformed.
    InvalidLabel(InvalidLabel),
    /// A package reference is malformed.
    InvalidPackageRef,
    /// A registry authority is malformed.
    InvalidRegistry,
    /// Registry metadata is malformed or selects a backend it may not.
    InvalidRegistryMetadata,
    /// A version or version requirement is malformed.
    InvalidVersion,
    /// No registry is configured for the package's namespace.
    NoRegistryForNamespace,
    /// The package does not exist at the backend.
    PackageNotFound,
    /// The version does not exist at the backend.
    VersionNotFound,
    /// Any other failure of a backend.
    RegistryError,
    /// Cache I/O failed, or the cache is read-only.
    CacheError,
    /// A lock file has a format version other than the supported one.
    UnsupportedLockVersion,
}

} // verus!
