//! Durations that the session rules are built on, in nanoseconds.

use vstd::prelude::*;

verus! {

/// One second.
pub const SECOND: i128 = 1_000_000_000;

/// One minute.
pub const MINUTE: i128 = 60_000_000_000;

/// One hour.
pub const HOUR: i128 = 3_600_000_000_000;

/// The length of a session block: five hours. Activity is grouped into blocks
/// of this length, and a silence longer than this separates two blocks.
pub const SESSION_BLOCK_DURATION: i128 = 18_000_000_000_000;

} // verus!
