//! The systems that sessions run on.

use vstd::prelude::*;

verus! {

/// The system that sessions run on.
#[derive(Clone, Copy, Debug, PartialEq, Eq, Structural)]
pub enum Platform {
    Linux,
    MacOs,
    Windows,
    /// Another Unix.
    Unix,
}

} // verus!
