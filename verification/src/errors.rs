//! Conditions under which the manifest of installed crates cannot be used.

use vstd::prelude::*;

verus! {

/// Why the manifest of installed crates could not be obtained or understood.
#[derive(Debug, PartialEq, Eq, Structural, Clone, Copy)]
pub enum ErrorKind {
    /// The package manager's home directory could not be found.
    NoCargoHome,
    /// The home directory holds no manifest of installed crates.
    NoCratesToml,
    /// The manifest could not be read.
    NoReadCratesToml,
    /// The manifest could not be opened.
    NotOpenCratesToml,
    /// The manifest announces a format version other than the supported one.
    UnknownAPI,
}

} // verus!
