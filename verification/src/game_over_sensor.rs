//! The game-over detector: when the ball overlaps the sensor volume kept
//! below and past the current platform, the run ends with a restart signal.
//!
//! Repositioning that sensor volume under the current ground every frame is
//! plain transform interpolation done by the driver; the decision to end the
//! run is made here, from the intersection set alone.

use vstd::prelude::*;

use crate::components::{EntityKind, EntityRec};
use crate::events::SceneEvent;
use crate::ground::ball_count;
use crate::world::{ids_contain, GameWorld};

verus! {

/// A living game-over sensor the ball currently overlaps.
pub open spec fn is_game_over_hit(e: EntityRec, overlaps: Seq<u64>) -> bool {
    &&& e.alive
    &&& e.kind == EntityKind::GameOverSensor
    &&& e.has_collider
    &&& overlaps.contains(e.id)
}

/// One restart signal per overlapped game-over sensor, in store order.
pub open spec fn spec_restart_events(s: Seq<EntityRec>, overlaps: Seq<u64>) -> Seq<SceneEvent>
    decreases s.len(),
{
    if s.len() == 0 {
        Seq::empty()
    } else {
        spec_restart_events(s.drop_last(), overlaps) + if is_game_over_hit(s.last(), overlaps) {
            seq![SceneEvent::Restart]
        } else {
            Seq::empty()
        }
    }
}

/// The detector's output: nothing without a unique ball, otherwise a restart
/// signal per overlapped sensor.
pub open spec fn spec_handle_ground_game_over_sensor(
    s: Seq<EntityRec>,
    overlaps: Seq<u64>,
) -> Seq<SceneEvent> {
    if ball_count(s) != 1 {
        Seq::empty()
    } else {
        spec_restart_events(s, overlaps)
    }
}

/// Emits a restart signal for every living game-over sensor the ball
/// overlaps this frame. Without a unique ball nothing is emitted.
pub fn handle_ground_game_over_sensor(world: &GameWorld, overlaps: &Vec<u64>) -> (events: Vec<
    SceneEvent,
>)
    ensures
        events@ == spec_handle_ground_game_over_sensor(world.entities@, overlaps@),
{
    let mut events: Vec<SceneEvent> = Vec::new();
    if crate::ground::count_balls(world) != 1 {
        proof {
            assert(events@ =~= Seq::<SceneEvent>::empty());
        }
        return events;
    }
    let len = world.entities.len();
    let mut i: usize = 0;
    while i < len
        invariant
            i <= len,
            len == world.entities@.len(),
            events@ == spec_restart_events(world.entities@.subrange(0, i as int), overlaps@),
        decreases len - i,
    {
        proof {
            assert(world.entities@.subrange(0, i + 1).drop_last() =~= world.entities@.subrange(
                0,
                i as int,
            ));
            assert(world.entities@.subrange(0, i + 1).last() == world.entities@[i as int]);
        }
        let e = &world.entities[i];
        if e.alive && e.kind == EntityKind::GameOverSensor && e.has_collider && ids_contain(
            overlaps,
            e.id,
        ) {
            events.push(SceneEvent::Restart);
            proof {
                assert(events@ =~= spec_restart_events(
                    world.entities@.subrange(0, i + 1),
                    overlaps@,
                ));
            }
        } else {
            proof {
                assert(events@ =~= spec_restart_events(
                    world.entities@.subrange(0, i + 1),
                    overlaps@,
                ));
            }
        }
        i += 1;
    }
    proof {
        assert(world.entities@.subrange(0, len as int) =~= world.entities@);
    }
    events
}

} // verus!
