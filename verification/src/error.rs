//! The errors a module operation can return.

use vstd::prelude::*;

verus! {

/// An incompatible toolchain fingerprint found while loading a managed
/// module.
#[derive(Debug, Clone, PartialEq, Eq)]
pub struct IncompatibleRustc {
    /// The fingerprint the loader was built with.
    pub expected: String,
    /// The fingerprint stored in the module which failed to load.
    pub actual: String,
}

/// An incompatible dependency (one which may produce ABI divergence) found
/// while loading a managed module.
#[derive(Debug, Clone, PartialEq, Eq)]
pub struct IncompatibleDependency {
    /// The name of the incompatible dependency.
    pub name: String,
    /// The version of the dependency declared by the module which failed to
    /// load.
    pub actual_version: String,
    /// The version of the dependency this loader already holds.
    pub expected_version: String,
}

/// Everything that can go wrong when loading or unloading a module.
#[derive(Debug, Clone, PartialEq, Eq)]
pub enum Error {
    /// The module was not found (argument: module name).
    NotFound(String),
    /// An unexpected NUL character was found in a name.
    Null,
    /// Missing DEPS metadata key for a managed module.
    MissingDepsForRust,
    /// Missing FEATURES metadata key for a managed module.
    MissingFeaturesForRust,
    /// Missing RUSTC metadata key for a managed module.
    MissingVersionForRust,
    /// Missing NAME metadata key.
    MissingModuleName,
    /// Missing VERSION metadata key.
    MissingModuleVersion,
    /// The metadata bytes were not valid UTF-8 text.
    InvalidUtf8,
    /// The toolchain fingerprint in the module does not match the one the
    /// loader was built with.
    RustcVersionMismatch(IncompatibleRustc),
    /// Invalid format for the DEPS metadata value.
    InvalidDepFormat,
    /// Incompatible dependency constraint found.
    IncompatibleDep(IncompatibleDependency),
    /// Unmatched feature set (argument: dependency name).
    IncompatibleFeatureSet(String),
    /// An I/O failure, carrying the message of the underlying OS error.
    Io(String),
    /// The module does not contain a metadata descriptor.
    MissingMetadata,
    /// The metadata stored in the module has an invalid format.
    InvalidMetadata,
    /// A managed module lacks its mandatory init hook.
    MissingModuleInitForRust,
}

} // verus!
