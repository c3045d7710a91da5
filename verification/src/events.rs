//! One-shot signals exchanged between systems within a frame.

use vstd::prelude::*;

verus! {

/// Signals of the wall authoring pipeline, emitted by the raycast picker and
/// consumed by the wall event handler.
#[derive(Clone, Copy, Debug, PartialEq, Eq, Structural)]
pub enum WallEvent {
    /// The pointer hovers over an authorable ground: move (or create) the
    /// preview wall on `ground` with the accumulated yaw (microradians).
    HoverUpdate { ground: u64, yaw: i64 },
    /// The pointer left the authorable surfaces: hide the preview without
    /// destroying it.
    HoverStop,
    /// Commit the preview wall into a permanent obstacle.
    Draw,
}

/// Signals of the scene state machine.
#[derive(Clone, Copy, Debug, PartialEq, Eq, Structural)]
pub enum SceneEvent {
    /// Reserved; currently without effect.
    Start,
    /// Tear the scene down, archive the scores and return to the menu.
    Restart,
}

} // verus!
