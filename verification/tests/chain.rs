//! Chain-state behaviour: surface-sensor advances and mid-sensor spawns.

use keep_it_rolling_game::components::{Cleanup, EntityKind, EntityRec, GroundColor};
use keep_it_rolling_game::ground::{
    handle_ground_sensor, handle_mid_ground_sensor, mark_cleanup_prev_grounds,
};
use keep_it_rolling_game::resources::GroundsResource;
use keep_it_rolling_game::scene::{scene_setup, spawn_ground};
use keep_it_rolling_game::world::GameWorld;

fn fresh_scene() -> (GameWorld, GroundsResource) {
    let mut world = GameWorld::new();
    let mut grounds = GroundsResource::default();
    let done = scene_setup(&mut world, &mut grounds, true);
    assert!(done);
    (world, grounds)
}

fn find(world: &GameWorld, id: u64) -> EntityRec {
    world
        .entities
        .iter()
        .find(|e| e.id == id)
        .copied()
        .expect("entity exists")
}

#[test]
fn scene_setup_registers_first_ground_as_current() {
    let (world, grounds) = fresh_scene();
    assert_eq!(grounds.current_ground, Some(0));
    assert_eq!(grounds.previous_ground, None);
    assert_eq!(grounds.next_ground, None);
    assert_eq!(world.next_id, 8);
    assert_eq!(world.entities.len(), 8);
    // The first ground is armed with the overheat countdown on becoming
    // current.
    assert_eq!(
        find(&world, 0).cleanup,
        Some(Cleanup::OnTimeout { remaining_ms: 5000 })
    );
}

#[test]
fn scene_setup_aborts_whole_on_geometry_failure() {
    let mut world = GameWorld::new();
    let mut grounds = GroundsResource::default();
    let done = scene_setup(&mut world, &mut grounds, false);
    assert!(!done);
    assert_eq!(world.entities.len(), 0);
    assert_eq!(world.next_id, 0);
    assert_eq!(grounds.current_ground, None);
}

#[test]
fn surface_hit_on_current_ground_changes_nothing() {
    let (mut world, mut grounds) = fresh_scene();
    // Entity 2 is the first ground's surface sensor.
    handle_ground_sensor(&mut world, &mut grounds, &vec![2]);
    assert_eq!(grounds.current_ground, Some(0));
    assert_eq!(grounds.previous_ground, None);
}

#[test]
fn surface_hit_on_new_ground_advances_chain() {
    let (mut world, mut grounds) = fresh_scene();
    let new_ground = spawn_ground(&mut world, true).unwrap();
    assert_eq!(new_ground, 8);
    grounds.next_ground = Some(new_ground);
    // Entity 10 is the new ground's surface sensor.
    handle_ground_sensor(&mut world, &mut grounds, &vec![10]);
    assert_eq!(grounds.previous_ground, Some(0));
    assert_eq!(grounds.current_ground, Some(8));
    assert_eq!(grounds.next_ground, None);
    // The newly current ground is armed with the overheat countdown.
    assert_eq!(
        find(&world, 8).cleanup,
        Some(Cleanup::OnTimeout { remaining_ms: 5000 })
    );
}

#[test]
fn no_ball_short_circuits_resolver() {
    let (mut world, mut grounds) = fresh_scene();
    // Remove the ball (entity 5).
    let idx = world.entities.iter().position(|e| e.id == 5).unwrap();
    let mut ball = world.entities[idx];
    ball.alive = false;
    world.entities[idx] = ball;
    let before = grounds;
    handle_ground_sensor(&mut world, &mut grounds, &vec![2]);
    assert_eq!(grounds, before);
}

#[test]
fn last_overlapping_surface_sensor_wins() {
    let (mut world, mut grounds) = fresh_scene();
    let g1 = spawn_ground(&mut world, true).unwrap();
    // Both the first ground's sensor (2) and the new one's (10) overlap;
    // the later sensor in store order decides.
    handle_ground_sensor(&mut world, &mut grounds, &vec![2, 10]);
    assert_eq!(grounds.current_ground, Some(g1));
    assert_eq!(grounds.previous_ground, Some(0));
}

#[test]
fn mid_sensor_spawns_next_ground_once() {
    let (mut world, mut grounds) = fresh_scene();
    // Entity 3 is the first ground's mid sensor.
    handle_mid_ground_sensor(&mut world, &mut grounds, &vec![3], true);
    assert_eq!(grounds.next_ground, Some(8));
    assert_eq!(world.next_id, 12);
    assert_eq!(world.entities.len(), 12);
    // A later frame that still overlaps the mid sensor spawns nothing.
    handle_mid_ground_sensor(&mut world, &mut grounds, &vec![3], true);
    assert_eq!(grounds.next_ground, Some(8));
    assert_eq!(world.next_id, 12);
    assert_eq!(world.entities.len(), 12);
}

#[test]
fn mid_sensor_of_other_ground_spawns_nothing() {
    let (mut world, mut grounds) = fresh_scene();
    let g1 = spawn_ground(&mut world, true).unwrap();
    grounds.next_ground = None;
    // Entity 11 is the mid sensor of the non-current ground.
    handle_mid_ground_sensor(&mut world, &mut grounds, &vec![11], true);
    assert_eq!(grounds.next_ground, None);
    assert_eq!(world.next_id, g1 + 4);
}

#[test]
fn mid_sensor_geometry_failure_spawns_nothing() {
    let (mut world, mut grounds) = fresh_scene();
    handle_mid_ground_sensor(&mut world, &mut grounds, &vec![3], false);
    assert_eq!(grounds.next_ground, None);
    assert_eq!(world.entities.len(), 8);
}

#[test]
fn mark_cleanup_prev_arms_left_behind_countdown() {
    let (mut world, mut grounds) = fresh_scene();
    let g1 = spawn_ground(&mut world, true).unwrap();
    handle_ground_sensor(&mut world, &mut grounds, &vec![10]);
    assert_eq!(grounds.previous_ground, Some(0));
    mark_cleanup_prev_grounds(&mut world, &grounds);
    assert_eq!(
        find(&world, 0).cleanup,
        Some(Cleanup::OnTimeout { remaining_ms: 15000 })
    );
    // The current ground keeps its own overheat countdown.
    assert_eq!(
        find(&world, g1).cleanup,
        Some(Cleanup::OnTimeout { remaining_ms: 5000 })
    );
}

#[test]
fn spawned_family_is_wired_to_its_root() {
    let mut world = GameWorld::new();
    let id = spawn_ground(&mut world, true).unwrap();
    assert_eq!(id, 0);
    let root = find(&world, 0);
    assert_eq!(root.kind, EntityKind::Ground);
    assert_eq!(root.parent, None);
    assert_eq!(root.belongs_to, Some(0));
    assert_eq!(root.color, GroundColor::Green);
    let mesh = find(&world, 1);
    assert_eq!(mesh.kind, EntityKind::GroundMesh);
    assert_eq!(mesh.parent, Some(0));
    assert_eq!(mesh.belongs_to, Some(0));
    assert!(mesh.has_collider);
    let surface = find(&world, 2);
    assert_eq!(surface.kind, EntityKind::GroundSurfaceSensor);
    assert!(!surface.visible);
    let mid = find(&world, 3);
    assert_eq!(mid.kind, EntityKind::GroundMidSensor);
    assert_eq!(mid.parent, Some(0));
}
