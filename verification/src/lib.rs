//! Gameplay core of a rolling-ball arcade game.
//!
//! A ball rolls across a chain of tilted platforms ("grounds"); sensor
//! overlaps reported by an external physics engine drive transitions of a
//! previous/current/next chain state; platforms overheat and are torn down by
//! a deferred cleanup scheduler; players author walls through a raycast-driven
//! preview/commit pipeline; a scene state machine handles restart and a
//! scoreboard tracks survival time and platforms passed.
//!
//! Everything here is a pure model over plain identifiers: the windowing,
//! rendering, input and physics services live outside and hand their per-frame
//! observations (intersection sets, raycast hits, key states, elapsed time) to
//! these functions as values.

pub mod cleanup;
pub mod components;
pub mod constants;
pub mod events;
pub mod game;
pub mod game_over_sensor;
pub mod ground;
pub mod laws;
pub mod resources;
pub mod scene;
pub mod scoring;
pub mod state;
pub mod walls;
pub mod world;

pub use components::{Cleanup, EntityKind, EntityRec, GroundColor};
pub use resources::GroundsResource;
pub use world::GameWorld;
