//! Process exit codes.

use vstd::prelude::*;

verus! {

/// All feeds succeeded.
pub const OK: i32 = 0;

/// Unexpected internal error.
pub const UNEXPECTED: i32 = 1;

/// Usage or argument error.
pub const USAGE: i32 = 2;

/// Some feeds succeeded, some failed.
pub const PARTIAL: i32 = 3;

/// Every requested feed failed.
pub const ALL_FAILED: i32 = 4;

} // verus!
