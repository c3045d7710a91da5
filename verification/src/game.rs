//! Per-frame orchestration: one game tick over an explicit context.
//!
//! The context object carries every shared resource (entity store, chain
//! state, scores, settings, mode) and is passed by reference into each
//! system, with a single writer per resource per frame. The driver collects
//! the frame's observations (elapsed time, the physics service's
//! intersection sets and raycast hit, the input state) into a [`FrameInput`]
//! and calls [`game_tick`]; everything that happens to the context is stated
//! by [`spec_game_tick`].
//!
//! The cleanup scheduler runs first, before all gameplay systems, so no
//! system ever observes an entity mid-destruction.

use vstd::prelude::*;

use crate::cleanup::{cleanup, spec_cleanup};
use crate::components::EntityRec;
use crate::game_over_sensor::{handle_ground_game_over_sensor, spec_handle_ground_game_over_sensor};
use crate::ground::{
    color_grounds, handle_ground_sensor, handle_mid_ground_sensor, spec_color_grounds,
    spec_handle_ground_sensor, spec_handle_mid_ground_sensor,
};
use crate::resources::{GroundsResource, PreviousScoresRes, ScoresResource, SettingsResource};
use crate::scene::{scene_setup, spec_handle_scene_events, spec_scene_setup};
use crate::scoring::{
    setup_scoring, spec_update_grounds_passed, spec_update_stopwatch, update_grounds_passed,
    update_stopwatch,
};
use crate::state::GameState;
use crate::walls::{
    handle_wall_event, pick_ground_point_raycast, spec_handle_wall_event, spec_pick_ground_point,
};
use crate::world::GameWorld;

verus! {

/// Everything the outside world reports for one frame: the elapsed time,
/// the physics service's point-in-time intersection sets (entity ids of the
/// sensors overlapping the ball) and nearest raycast hit, the input state,
/// and whether collision-volume construction succeeded for whatever this
/// frame asked of the geometry service.
pub struct FrameInput {
    /// Milliseconds elapsed since the previous frame.
    pub delta_ms: u64,
    /// Surface sensors currently overlapping the ball.
    pub surface_overlaps: Vec<u64>,
    /// Mid sensors currently overlapping the ball.
    pub mid_overlaps: Vec<u64>,
    /// Game-over sensors currently overlapping the ball.
    pub game_over_overlaps: Vec<u64>,
    /// The pointer is inside the window.
    pub cursor_present: bool,
    /// The nearest fixed, non-sensor, non-preview collider on the
    /// camera-to-pointer ray.
    pub raycast_hit: Option<u64>,
    /// The rotate-left key is held.
    pub rotate_left: bool,
    /// The rotate-right key is held.
    pub rotate_right: bool,
    /// The commit button was pressed this frame.
    pub draw_pressed: bool,
    /// The geometry service could build the collision volumes requested
    /// this frame.
    pub geometry_ok: bool,
}

/// The mathematical state of a whole game context.
#[verifier::ext_equal]
pub struct TickState {
    pub entities: Seq<EntityRec>,
    pub next_id: u64,
    pub grounds: GroundsResource,
    pub scores: ScoresResource,
    pub previous_scores: Seq<ScoresResource>,
    pub settings: SettingsResource,
    pub state: GameState,
    pub wall_angle: i64,
    pub last_counted: Option<u64>,
}

/// The shared game context: the entity store and every per-frame resource,
/// with a documented single-writer-per-frame discipline.
pub struct GameContext {
    pub world: GameWorld,
    pub grounds: GroundsResource,
    pub scores: ScoresResource,
    pub previous_scores: PreviousScoresRes,
    pub settings: SettingsResource,
    pub state: GameState,
    pub wall_angle: i64,
    pub last_counted: Option<u64>,
}

impl GameContext {
    /// The mathematical state this context holds.
    pub open spec fn model(self) -> TickState {
        TickState {
            entities: self.world.entities@,
            next_id: self.world.next_id,
            grounds: self.grounds,
            scores: self.scores,
            previous_scores: self.previous_scores.0@,
            settings: self.settings,
            state: self.state,
            wall_angle: self.wall_angle,
            last_counted: self.last_counted,
        }
    }

    /// A fresh context: empty store, empty chain, default scores and
    /// settings, starting in the menu.
    pub fn new() -> (ctx: GameContext)
        ensures
            ctx.model() == initial_state(),
    {
        let ctx = GameContext {
            world: GameWorld::new(),
            grounds: GroundsResource::default(),
            scores: ScoresResource::default(),
            previous_scores: PreviousScoresRes::default(),
            settings: SettingsResource::default(),
            state: GameState::Menu,
            wall_angle: 0,
            last_counted: None,
        };
        proof {
            assert(ctx.model() =~= initial_state());
        }
        ctx
    }
}

/// The state a fresh game starts from.
pub open spec fn initial_state() -> TickState {
    TickState {
        entities: Seq::empty(),
        next_id: 0,
        grounds: GroundsResource::spec_default(),
        scores: ScoresResource::spec_default(),
        previous_scores: Seq::empty(),
        settings: SettingsResource { rotation_sensitivity: 50000 },
        state: GameState::Menu,
        wall_angle: 0,
        last_counted: None,
    }
}

/// The gameplay systems' combined effect on a frame spent in play: the
/// surface sensor resolver, the mid sensor resolver, the colouring, the
/// scoring, the wall pipeline (the picker's event is handled the same
/// frame), and the game-over detector whose restart signals the scene
/// state machine handles last.
pub open spec fn spec_in_game_tick(t: TickState, input: FrameInput) -> TickState {
    let (s1, g1) = spec_handle_ground_sensor(t.entities, t.grounds, input.surface_overlaps@);
    let (s2, n2, g2) = spec_handle_mid_ground_sensor(
        s1,
        t.next_id,
        g1,
        input.mid_overlaps@,
        input.geometry_ok,
    );
    let s3 = spec_color_grounds(s2, g2);
    let sc1 = spec_update_stopwatch(t.scores, input.delta_ms);
    let (sc2, last2) = spec_update_grounds_passed(g2, sc1, t.last_counted);
    let (ev, angle2) = spec_pick_ground_point(
        s3,
        g2,
        t.settings,
        input.cursor_present,
        input.raycast_hit,
        input.rotate_left,
        input.rotate_right,
        input.draw_pressed,
        t.wall_angle,
    );
    let (s4, n4) = match ev {
        Some(e) => spec_handle_wall_event(s3, n2, e, input.geometry_ok),
        None => (s3, n2),
    };
    let evs = spec_handle_ground_game_over_sensor(s4, input.game_over_overlaps@);
    let (s5, g5, prev5, next5) = spec_handle_scene_events(s4, g2, sc2, t.previous_scores, evs);
    TickState {
        entities: s5,
        next_id: n4,
        grounds: g5,
        scores: sc2,
        previous_scores: prev5,
        state: if next5 is Some {
            next5.unwrap()
        } else {
            GameState::InGame
        },
        wall_angle: angle2,
        last_counted: last2,
        ..t
    }
}

/// One whole frame: the cleanup scheduler first, then the mode's systems.
/// The menu advances straight to scene loading; scene loading spawns the
/// scene, registers the first ground as current and starts the scoring,
/// retrying next frame if geometry construction failed; in play the
/// gameplay systems run as [`spec_in_game_tick`] states.
pub open spec fn spec_game_tick(t: TickState, input: FrameInput) -> TickState {
    let t1 = TickState { entities: spec_cleanup(t.entities, input.delta_ms), ..t };
    match t1.state {
        GameState::Menu => TickState { state: GameState::SceneLoading, ..t1 },
        GameState::SceneLoading => {
            let (s2, n2, g2, done) = spec_scene_setup(
                t1.entities,
                t1.next_id,
                t1.grounds,
                input.geometry_ok,
            );
            if done {
                TickState {
                    entities: s2,
                    next_id: n2,
                    grounds: g2,
                    scores: ScoresResource { stopwatch: Some(0), grounds_passed: 0 },
                    state: GameState::InGame,
                    ..t1
                }
            } else {
                t1
            }
        },
        GameState::InGame => spec_in_game_tick(t1, input),
    }
}

/// The whole game over a sequence of frames.
pub open spec fn spec_run(t: TickState, inputs: Seq<FrameInput>) -> TickState
    decreases inputs.len(),
{
    if inputs.len() == 0 {
        t
    } else {
        spec_game_tick(spec_run(t, inputs.drop_last()), inputs.last())
    }
}

/// Runs one frame of the game over the shared context.
pub fn game_tick(ctx: &mut GameContext, input: &FrameInput)
    ensures
        final(ctx).model() == spec_game_tick(old(ctx).model(), *input),
{
    cleanup(&mut ctx.world, input.delta_ms);
    match ctx.state {
        GameState::Menu => {
            ctx.state = crate::state::auto_start_game_on_menu();
            proof {
                assert(ctx.model() =~= spec_game_tick(old(ctx).model(), *input));
            }
        },
        GameState::SceneLoading => {
            let done = scene_setup(&mut ctx.world, &mut ctx.grounds, input.geometry_ok);
            if done {
                setup_scoring(&mut ctx.scores);
                ctx.state = crate::state::move_to_in_game();
            }
            proof {
                assert(ctx.model() =~= spec_game_tick(old(ctx).model(), *input));
            }
        },
        GameState::InGame => {
            handle_ground_sensor(&mut ctx.world, &mut ctx.grounds, &input.surface_overlaps);
            handle_mid_ground_sensor(
                &mut ctx.world,
                &mut ctx.grounds,
                &input.mid_overlaps,
                input.geometry_ok,
            );
            color_grounds(&mut ctx.world, &ctx.grounds);
            update_stopwatch(&mut ctx.scores, input.delta_ms);
            update_grounds_passed(&ctx.grounds, &mut ctx.scores, &mut ctx.last_counted);
            let event = pick_ground_point_raycast(
                &ctx.world,
                &ctx.grounds,
                &ctx.settings,
                input.cursor_present,
                input.raycast_hit,
                input.rotate_left,
                input.rotate_right,
                input.draw_pressed,
                &mut ctx.wall_angle,
            );
            match event {
                Some(e) => {
                    handle_wall_event(&mut ctx.world, &e, input.geometry_ok);
                },
                None => {},
            }
            let events = handle_ground_game_over_sensor(&ctx.world, &input.game_over_overlaps);
            let next = crate::scene::handle_scene_events(
                &mut ctx.world,
                &mut ctx.grounds,
                &ctx.scores,
                &mut ctx.previous_scores,
                &events,
            );
            match next {
                Some(state) => {
                    ctx.state = state;
                },
                None => {
                    ctx.state = GameState::InGame;
                },
            }
            proof {
                assert(ctx.model() =~= spec_game_tick(old(ctx).model(), *input));
            }
        },
    }
}

} // verus!
