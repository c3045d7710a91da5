//! The building blocks of the entity model: what role an entity plays, the
//! deferred-destruction directives that can be attached to it, and the record
//! the entity store keeps per entity.
//!
//! Entities are identified by opaque `u64` handles handed out by the store.
//! Relational links (a sensor belonging to its ground, a wall parented to the
//! platform it stands on) are non-owning id references, never pointers.

use vstd::prelude::*;

verus! {

/// The role an entity plays in the scene. Exactly one role per entity; the
/// wall preview/commit distinction is carried by the flags of [`EntityRec`].
#[derive(Clone, Copy, Debug, PartialEq, Eq, Structural)]
pub enum EntityKind {
    /// The player-controlled rolling ball.
    RollingBall,
    /// A platform root entity; its mesh and sensors are child entities.
    Ground,
    /// The visible, collidable mesh of a ground.
    GroundMesh,
    /// Overlap volume signalling that the ball is on a ground's top.
    GroundSurfaceSensor,
    /// Overlap volume partway along a ground that triggers spawning the next
    /// ground.
    GroundMidSensor,
    /// The volume below/past the current platform that detects a lost ball.
    GameOverSensor,
    /// The scene light that follows the current ground.
    MyLight,
    /// The scene camera that follows the ball.
    MyCamera,
    /// A player-drawn wall (in preview or committed form).
    Wall,
}

/// A deferred-destruction request attached to an entity. Decided by any
/// system, performed only by the cleanup scheduler on its next run.
#[derive(Clone, Copy, Debug, PartialEq, Eq, Structural)]
pub enum Cleanup {
    /// Destroy the entity and its descendants once the countdown (in
    /// milliseconds) has elapsed.
    OnTimeout { remaining_ms: u64 },
    /// Destroy only the entity itself, leaving descendants in place.
    OnlyEntity,
    /// Destroy only the descendants, leaving the entity in place.
    OnlyDescendants,
    /// Destroy the entity and its descendants on the next run.
    Recursive,
}

/// The colours the colouring system paints ground meshes with, one per chain
/// role.
#[derive(Clone, Copy, Debug, PartialEq, Eq, Structural)]
pub enum GroundColor {
    /// A freshly spawned mesh.
    Green,
    /// The mesh of the previous ground.
    Yellow,
    /// The mesh of the current ground.
    Red,
    /// The mesh of the pending next ground.
    Blue,
}

/// One entity of the store. Destruction only marks the record dead; ids are
/// never reused, so stale references can be detected.
#[derive(Clone, Copy, Debug, PartialEq, Eq, Structural)]
pub struct EntityRec {
    /// The stable handle of this entity.
    pub id: u64,
    /// The role this entity plays.
    pub kind: EntityKind,
    /// The id of the entity this one is a child of, if any. Only root
    /// entities (grounds, the ball, lights, cameras, game-over sensors) are
    /// ever parents: the hierarchy is two levels deep.
    pub parent: Option<u64>,
    /// The id of the ground this entity belongs to, if any (sensors and
    /// meshes carry a back-reference to their owning ground; a ground refers
    /// to itself).
    pub belongs_to: Option<u64>,
    /// Whether the entity still exists.
    pub alive: bool,
    /// The pending destruction request, if any.
    pub cleanup: Option<Cleanup>,
    /// Whether this entity is the in-progress wall preview.
    pub temp_wall: bool,
    /// Whether this entity is a committed wall obstacle.
    pub wall: bool,
    /// Whether the entity is rendered.
    pub visible: bool,
    /// Whether the entity is drawn opaque (committed walls) or translucent
    /// (the wall preview).
    pub opaque: bool,
    /// Whether a collision volume is attached.
    pub has_collider: bool,
    /// The colour of the entity's material.
    pub color: GroundColor,
    /// The yaw of a wall around the ground normal, in microradians.
    pub yaw: i64,
}

} // verus!
