//! The operating systems that a child runs on.
use vstd::prelude::*;

verus! {

/// The kind of operating system, where the rules differ between the two.
#[derive(Debug, Clone, Copy, PartialEq, Eq, Structural)]
pub enum Platform {
    /// POSIX systems.
    Unix,
    /// Windows.
    Windows,
}

} // verus!
