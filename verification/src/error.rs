//! Errors of the library's operations.
use vstd::prelude::*;

verus! {

/// Details of a downloaded file whose checksum differs from the manifest's.
pub struct HashMismatchContext {
    pub package_name: String,
    pub url: String,
    pub expected: String,
    pub actual: String,
}

/// Errors of the library's operations.
pub enum Error {
    /// No package matches the query.
    PackageNotFound(String),
    /// Installed packages depend on packages proposed for removal, as pairs
    /// of (dependent, dependency).
    PackageDependentFound(Vec<(String, String)>),
    /// A downloaded file does not have the checksum the manifest gives.
    HashMismatch(HashMismatchContext),
    /// Any other failure, with a message for the user.
    Custom(String),
}

} // verus!
