//! What can go wrong before a command runs.
use vstd::prelude::*;

verus! {

/// Why a command could not be set up.
#[derive(Debug, Clone, Copy, PartialEq, Eq, Structural)]
pub enum Error {
    /// The path of the running executable has no parent directory.
    CurrentExeHasNoParent,
}

} // verus!
