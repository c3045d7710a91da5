//! End-to-end frames through the game tick: menu to play, the chain
//! advancing over a freshly spawned platform, overheat teardown, colouring
//! and game over.

use keep_it_rolling_game::components::{Cleanup, GroundColor};
use keep_it_rolling_game::game::{game_tick, FrameInput, GameContext};
use keep_it_rolling_game::ground::color_grounds;
use keep_it_rolling_game::resources::GroundsResource;
use keep_it_rolling_game::scene::{scene_setup, spawn_ground};
use keep_it_rolling_game::state::GameState;
use keep_it_rolling_game::world::GameWorld;

fn idle_frame(delta_ms: u64) -> FrameInput {
    FrameInput {
        delta_ms,
        surface_overlaps: vec![],
        mid_overlaps: vec![],
        game_over_overlaps: vec![],
        cursor_present: false,
        raycast_hit: None,
        rotate_left: false,
        rotate_right: false,
        draw_pressed: false,
        geometry_ok: true,
    }
}

fn alive(ctx: &GameContext, id: u64) -> bool {
    ctx.world.entities.iter().any(|e| e.id == id && e.alive)
}

#[test]
fn menu_advances_through_loading_into_play() {
    let mut ctx = GameContext::new();
    assert_eq!(ctx.state, GameState::Menu);
    game_tick(&mut ctx, &idle_frame(16));
    assert_eq!(ctx.state, GameState::SceneLoading);
    game_tick(&mut ctx, &idle_frame(16));
    assert_eq!(ctx.state, GameState::InGame);
    assert_eq!(ctx.grounds.current_ground, Some(0));
    assert_eq!(ctx.scores.stopwatch, Some(0));
}

#[test]
fn loading_retries_until_geometry_succeeds() {
    let mut ctx = GameContext::new();
    game_tick(&mut ctx, &idle_frame(16));
    let mut failed = idle_frame(16);
    failed.geometry_ok = false;
    game_tick(&mut ctx, &failed);
    assert_eq!(ctx.state, GameState::SceneLoading);
    assert_eq!(ctx.world.entities.len(), 0);
    game_tick(&mut ctx, &idle_frame(16));
    assert_eq!(ctx.state, GameState::InGame);
}

#[test]
fn ball_rolls_over_a_run_of_platforms() {
    // The ball spawns above the first ground (current), crosses its mid
    // sensor (the next ground appears), then lands on that ground's
    // surface sensor (the chain advances and the old ground, armed since
    // it became current, is torn down with its children when its overheat
    // countdown elapses).
    let mut ctx = GameContext::new();
    game_tick(&mut ctx, &idle_frame(1000)); // menu -> loading
    game_tick(&mut ctx, &idle_frame(1000)); // loading -> in game, G0 = 0
    assert_eq!(ctx.grounds.current_ground, Some(0));

    // The ball crosses the mid sensor of the current ground: the next
    // ground (ids 8..11) is spawned and recorded.
    let mut frame = idle_frame(1000);
    frame.mid_overlaps = vec![3];
    game_tick(&mut ctx, &frame);
    assert_eq!(ctx.grounds.next_ground, Some(8));
    assert_eq!(ctx.world.next_id, 12);

    // Repeated mid overlap in the following frame spawns nothing more.
    let mut frame = idle_frame(1000);
    frame.mid_overlaps = vec![3];
    game_tick(&mut ctx, &frame);
    assert_eq!(ctx.grounds.next_ground, Some(8));
    assert_eq!(ctx.world.next_id, 12);

    // The ball lands on the new ground's surface sensor: the chain
    // advances, the old current becomes previous, the pending next is
    // cleared, and one passed platform is counted.
    let mut frame = idle_frame(1000);
    frame.surface_overlaps = vec![10];
    game_tick(&mut ctx, &frame);
    assert_eq!(ctx.grounds.previous_ground, Some(0));
    assert_eq!(ctx.grounds.current_ground, Some(8));
    assert_eq!(ctx.grounds.next_ground, None);
    assert_eq!(ctx.scores.grounds_passed, 1);

    // G0 was armed with a 5000 ms overheat countdown when it became
    // current (during loading). Its countdown has been ticking down ever
    // since; it survives until the full duration has elapsed, then the
    // cleanup scheduler removes G0 and its children, while the new
    // current ground survives.
    assert!(alive(&ctx, 0));
    game_tick(&mut ctx, &idle_frame(1000));
    assert!(alive(&ctx, 0));
    game_tick(&mut ctx, &idle_frame(1000));
    assert!(!alive(&ctx, 0));
    assert!(!alive(&ctx, 1));
    assert!(!alive(&ctx, 2));
    assert!(!alive(&ctx, 3));
    assert!(alive(&ctx, 8));
    assert!(alive(&ctx, 5)); // the ball rolls on

    // The stopwatch accumulated the in-game frames.
    assert_eq!(ctx.scores.stopwatch, Some(5000));
}

#[test]
fn falling_off_restarts_the_run() {
    let mut ctx = GameContext::new();
    game_tick(&mut ctx, &idle_frame(16));
    game_tick(&mut ctx, &idle_frame(16));
    assert_eq!(ctx.state, GameState::InGame);
    // Entity 4 is the game-over sensor; the ball overlapping it ends the
    // run: scores archived, chain reset, back to the menu.
    let mut frame = idle_frame(16);
    frame.game_over_overlaps = vec![4];
    game_tick(&mut ctx, &frame);
    assert_eq!(ctx.state, GameState::Menu);
    assert_eq!(ctx.grounds, GroundsResource::default());
    assert_eq!(ctx.previous_scores.0.len(), 1);
    // The next frame leaves the menu again and the one after respawns the
    // scene with fresh ids.
    game_tick(&mut ctx, &idle_frame(16));
    assert_eq!(ctx.state, GameState::SceneLoading);
    game_tick(&mut ctx, &idle_frame(16));
    assert_eq!(ctx.state, GameState::InGame);
    assert_eq!(ctx.grounds.current_ground, Some(8));
}

#[test]
fn ground_meshes_take_their_role_colours() {
    let mut world = GameWorld::new();
    let mut grounds = GroundsResource::default();
    assert!(scene_setup(&mut world, &mut grounds, true));
    let g1 = spawn_ground(&mut world, true).unwrap();
    let g2 = spawn_ground(&mut world, true).unwrap();
    let res = GroundsResource {
        previous_ground: Some(0),
        current_ground: Some(g1),
        next_ground: Some(g2),
    };
    color_grounds(&mut world, &res);
    let color_of = |ground: u64| {
        world
            .entities
            .iter()
            .find(|e| e.parent == Some(ground) && e.has_collider && e.visible)
            .unwrap()
            .color
    };
    assert_eq!(color_of(0), GroundColor::Yellow);
    assert_eq!(color_of(g1), GroundColor::Red);
    assert_eq!(color_of(g2), GroundColor::Blue);
}
