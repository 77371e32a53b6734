//! The engine's error taxonomy.

use vstd::prelude::*;

verus! {

/// Everything a fallible engine operation can report.
#[derive(Clone, Copy, Debug, PartialEq, Eq, Structural)]
pub enum AntError {
    /// A cell coordinate outside the grid bounds.
    OutOfRange,
    /// A handle whose generation token no longer matches its slot.
    StaleHandle,
    /// A relocation target that is not traversable.
    InvalidDestination,
    /// A configuration outside the engine's accepted bounds.
    InvalidConf,
}

} // verus!
