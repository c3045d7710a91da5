//! The entity store's queries and the game-over detector.

use keep_it_rolling_game::components::EntityKind;
use keep_it_rolling_game::events::SceneEvent;
use keep_it_rolling_game::game_over_sensor::handle_ground_game_over_sensor;
use keep_it_rolling_game::resources::GroundsResource;
use keep_it_rolling_game::scene::{scene_setup, spawn_ground};
use keep_it_rolling_game::world::GameWorld;

#[test]
fn counting_queries_track_spawns() {
    let mut world = GameWorld::new();
    assert_eq!(world.count_alive(), 0);
    let mut grounds = GroundsResource::default();
    assert!(scene_setup(&mut world, &mut grounds, true));
    assert_eq!(world.count_alive(), 8);
    assert_eq!(world.count_kind(EntityKind::Ground), 1);
    spawn_ground(&mut world, true);
    spawn_ground(&mut world, true);
    assert_eq!(world.count_alive(), 16);
    assert_eq!(world.count_kind(EntityKind::Ground), 3);
    assert_eq!(world.count_kind(EntityKind::GroundMidSensor), 3);
    assert_eq!(world.count_kind(EntityKind::RollingBall), 1);
}

#[test]
fn liveness_lookup_distinguishes_dead_and_missing() {
    let mut world = GameWorld::new();
    let mut grounds = GroundsResource::default();
    assert!(scene_setup(&mut world, &mut grounds, true));
    assert!(world.is_alive(0));
    assert!(!world.is_alive(99));
    let mut root = world.entities[0];
    root.alive = false;
    world.entities[0] = root;
    assert!(!world.is_alive(0));
    assert_eq!(world.count_alive(), 7);
}

#[test]
fn game_over_overlap_emits_one_restart_per_sensor() {
    let mut world = GameWorld::new();
    let mut grounds = GroundsResource::default();
    assert!(scene_setup(&mut world, &mut grounds, true));
    // Entity 4 is the game-over sensor.
    let events = handle_ground_game_over_sensor(&world, &vec![4]);
    assert_eq!(events, vec![SceneEvent::Restart]);
    let none = handle_ground_game_over_sensor(&world, &vec![]);
    assert!(none.is_empty());
    // Overlapping something that is no game-over sensor emits nothing.
    let wrong = handle_ground_game_over_sensor(&world, &vec![2]);
    assert!(wrong.is_empty());
}

#[test]
fn game_over_detector_needs_the_ball() {
    let mut world = GameWorld::new();
    let mut grounds = GroundsResource::default();
    assert!(scene_setup(&mut world, &mut grounds, true));
    let idx = world.entities.iter().position(|e| e.id == 5).unwrap();
    let mut ball = world.entities[idx];
    ball.alive = false;
    world.entities[idx] = ball;
    let events = handle_ground_game_over_sensor(&world, &vec![4]);
    assert!(events.is_empty());
}
