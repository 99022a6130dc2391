//! The failures that end an operation.

use vstd::prelude::*;

verus! {

/// Why an operation on the registry failed. Each variant but the first
/// carries the words of whoever reported the failure.
#[derive(Debug, Clone, PartialEq, Eq)]
pub enum RegistryError {
    /// No installer on this host can do the work.
    NoInstallerAvailable,
    /// The installer that was asked to do the work failed.
    InstallerError(String),
    /// The stored registry exists but does not have the expected shape.
    CorruptRegistry(String),
    /// The stored registry could not be read or written.
    PersistenceError(String),
}

} // verus!
