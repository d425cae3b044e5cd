//! The host platform, which decides file names and search locations.
use vstd::prelude::*;

verus! {

/// The operating system family the library is running on.
#[derive(Debug, Clone, Copy, PartialEq, Eq, Structural)]
pub enum Platform {
    /// Linux.
    Linux,
    /// macOS.
    MacOs,
    /// Windows.
    Windows,
    /// Any other Unix (the BSDs, ...).
    OtherUnix,
    /// Neither Unix nor Windows.
    Other,
}

impl Platform {
    /// Whether the platform is Windows.
    pub fn is_windows(self) -> (r: bool)
        ensures
            r == (self is Windows),
    {
        matches!(self, Platform::Windows)
    }
}

} // verus!
