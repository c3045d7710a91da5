//! The wall authoring pipeline: hover, reuse, reparent, hide, commit.

use keep_it_rolling_game::events::WallEvent;
use keep_it_rolling_game::ground::handle_mid_ground_sensor;
use keep_it_rolling_game::resources::{GroundsResource, SettingsResource};
use keep_it_rolling_game::scene::scene_setup;
use keep_it_rolling_game::walls::{handle_wall_events, pick_ground_point_raycast};
use keep_it_rolling_game::world::GameWorld;

fn fresh_scene() -> (GameWorld, GroundsResource) {
    let mut world = GameWorld::new();
    let mut grounds = GroundsResource::default();
    assert!(scene_setup(&mut world, &mut grounds, true));
    (world, grounds)
}

fn temp_walls(world: &GameWorld) -> Vec<u64> {
    world
        .entities
        .iter()
        .filter(|e| e.alive && e.temp_wall)
        .map(|e| e.id)
        .collect()
}

#[test]
fn hover_on_current_ground_mesh_emits_update() {
    let (world, grounds) = fresh_scene();
    let settings = SettingsResource::default();
    let mut angle = 0i64;
    // Entity 1 is the current ground's mesh.
    let event = pick_ground_point_raycast(
        &world, &grounds, &settings, true, Some(1), false, false, false, &mut angle,
    );
    assert_eq!(event, Some(WallEvent::HoverUpdate { ground: 0, yaw: 0 }));
}

#[test]
fn rotation_accumulates_across_frames() {
    let (world, grounds) = fresh_scene();
    let settings = SettingsResource::default();
    let mut angle = 0i64;
    for _ in 0..3 {
        pick_ground_point_raycast(
            &world, &grounds, &settings, true, Some(1), true, false, false, &mut angle,
        );
    }
    assert_eq!(angle, 150_000);
    pick_ground_point_raycast(
        &world, &grounds, &settings, true, Some(1), false, true, false, &mut angle,
    );
    assert_eq!(angle, 100_000);
    // A frame without a hit leaves the accumulated angle alone.
    pick_ground_point_raycast(
        &world, &grounds, &settings, true, None, true, false, false, &mut angle,
    );
    assert_eq!(angle, 100_000);
}

#[test]
fn miss_and_foreign_surfaces_emit_stop() {
    let (world, grounds) = fresh_scene();
    let settings = SettingsResource::default();
    let mut angle = 0i64;
    let miss = pick_ground_point_raycast(
        &world, &grounds, &settings, true, None, false, false, false, &mut angle,
    );
    assert_eq!(miss, Some(WallEvent::HoverStop));
    // The ball (entity 5) is not a ground mesh.
    let foreign = pick_ground_point_raycast(
        &world, &grounds, &settings, true, Some(5), false, false, false, &mut angle,
    );
    assert_eq!(foreign, Some(WallEvent::HoverStop));
}

#[test]
fn no_cursor_emits_nothing() {
    let (world, grounds) = fresh_scene();
    let settings = SettingsResource::default();
    let mut angle = 0i64;
    let event = pick_ground_point_raycast(
        &world, &grounds, &settings, false, Some(1), false, false, false, &mut angle,
    );
    assert_eq!(event, None);
}

#[test]
fn draw_press_while_hovering_emits_draw() {
    let (world, grounds) = fresh_scene();
    let settings = SettingsResource::default();
    let mut angle = 0i64;
    let event = pick_ground_point_raycast(
        &world, &grounds, &settings, true, Some(1), false, false, true, &mut angle,
    );
    assert_eq!(event, Some(WallEvent::Draw));
}

#[test]
fn hover_spawns_a_single_preview_wall_and_reuses_it() {
    let (mut world, _grounds) = fresh_scene();
    handle_wall_events(
        &mut world,
        &vec![WallEvent::HoverUpdate { ground: 0, yaw: 5 }],
        true,
    );
    assert_eq!(temp_walls(&world), vec![8]);
    let count_before = world.entities.len();
    // A second hover reuses the existing preview instead of spawning.
    handle_wall_events(
        &mut world,
        &vec![WallEvent::HoverUpdate { ground: 0, yaw: 9 }],
        true,
    );
    assert_eq!(temp_walls(&world), vec![8]);
    assert_eq!(world.entities.len(), count_before);
    let wall = world.entities.iter().find(|e| e.id == 8).unwrap();
    assert_eq!(wall.yaw, 9);
    assert!(!wall.opaque);
    assert!(wall.visible);
}

#[test]
fn hover_reparents_preview_when_target_ground_changes() {
    let (mut world, mut grounds) = fresh_scene();
    handle_wall_events(
        &mut world,
        &vec![WallEvent::HoverUpdate { ground: 0, yaw: 0 }],
        true,
    );
    let wall_id = temp_walls(&world)[0];
    // Spawn the next ground and hover over it instead.
    handle_mid_ground_sensor(&mut world, &mut grounds, &vec![3], true);
    let next_ground = grounds.next_ground.unwrap();
    handle_wall_events(
        &mut world,
        &vec![WallEvent::HoverUpdate {
            ground: next_ground,
            yaw: 0,
        }],
        true,
    );
    let wall = world.entities.iter().find(|e| e.id == wall_id).unwrap();
    assert_eq!(wall.parent, Some(next_ground));
}

#[test]
fn hover_stop_hides_preview_without_destroying_it() {
    let (mut world, _grounds) = fresh_scene();
    handle_wall_events(
        &mut world,
        &vec![WallEvent::HoverUpdate { ground: 0, yaw: 0 }],
        true,
    );
    handle_wall_events(&mut world, &vec![WallEvent::HoverStop], true);
    let wall = world.entities.iter().find(|e| e.temp_wall).unwrap();
    assert!(wall.alive);
    assert!(!wall.visible);
}

#[test]
fn draw_commits_preview_into_permanent_wall() {
    let (mut world, _grounds) = fresh_scene();
    handle_wall_events(
        &mut world,
        &vec![WallEvent::HoverUpdate { ground: 0, yaw: 3 }],
        true,
    );
    handle_wall_events(&mut world, &vec![WallEvent::Draw], true);
    assert!(temp_walls(&world).is_empty());
    let wall = world.entities.iter().find(|e| e.wall).unwrap();
    assert!(wall.has_collider);
    assert!(wall.opaque);
    assert_eq!(wall.yaw, 3);
}

#[test]
fn draw_without_preview_is_a_noop() {
    let (mut world, _grounds) = fresh_scene();
    let count_before = world.entities.iter().filter(|e| e.alive).count();
    let entities_before = world.entities.clone();
    handle_wall_events(&mut world, &vec![WallEvent::Draw], true);
    assert_eq!(world.entities, entities_before);
    assert_eq!(
        world.entities.iter().filter(|e| e.alive).count(),
        count_before
    );
}

#[test]
fn draw_with_geometry_failure_keeps_the_preview() {
    let (mut world, _grounds) = fresh_scene();
    handle_wall_events(
        &mut world,
        &vec![WallEvent::HoverUpdate { ground: 0, yaw: 0 }],
        true,
    );
    handle_wall_events(&mut world, &vec![WallEvent::Draw], false);
    assert_eq!(temp_walls(&world).len(), 1);
}

#[test]
fn hover_on_missing_ground_spawns_nothing() {
    let (mut world, _grounds) = fresh_scene();
    let entities_before = world.entities.clone();
    handle_wall_events(
        &mut world,
        &vec![WallEvent::HoverUpdate {
            ground: 999,
            yaw: 0,
        }],
        true,
    );
    assert_eq!(world.entities, entities_before);
}
