//! Gameplay constants.

use vstd::prelude::*;

verus! {

/// How long a ground stays safe after becoming the current platform, in
/// milliseconds. Once armed, the overheat countdown destroys the ground and
/// its children when it elapses.
pub const GROUND_OVERHEAT_DURATION_MS: u64 = 5000;

/// How long a ground marked as left-behind survives before cleanup, in
/// milliseconds.
pub const PREV_GROUND_CLEANUP_MS: u64 = 15000;

} // verus!
