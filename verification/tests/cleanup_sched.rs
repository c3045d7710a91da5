//! The cleanup scheduler: timed countdowns, the destruction modes, and the
//! cascade to children.

use keep_it_rolling_game::cleanup::cleanup;
use keep_it_rolling_game::components::{Cleanup, EntityKind, EntityRec, GroundColor};
use keep_it_rolling_game::world::GameWorld;

fn rec(id: u64, parent: Option<u64>, cleanup: Option<Cleanup>) -> EntityRec {
    EntityRec {
        id,
        kind: if parent.is_none() {
            EntityKind::Ground
        } else {
            EntityKind::GroundMesh
        },
        parent,
        belongs_to: None,
        alive: true,
        cleanup,
        temp_wall: false,
        wall: false,
        visible: true,
        opaque: true,
        has_collider: false,
        color: GroundColor::Green,
        yaw: 0,
    }
}

fn world_of(entities: Vec<EntityRec>) -> GameWorld {
    let next_id = entities.iter().map(|e| e.id + 1).max().unwrap_or(0);
    GameWorld { next_id, entities }
}

fn alive(world: &GameWorld, id: u64) -> bool {
    world.entities.iter().any(|e| e.id == id && e.alive)
}

#[test]
fn timed_directive_survives_before_duration_and_fires_at_it() {
    // A directive with duration 5000 ms: the entity still exists after
    // 4999 ms have passed and is removed once the full duration elapsed.
    let mut world = world_of(vec![
        rec(0, None, Some(Cleanup::OnTimeout { remaining_ms: 5000 })),
        rec(1, Some(0), None),
    ]);
    cleanup(&mut world, 4999);
    assert!(alive(&world, 0));
    assert!(alive(&world, 1));
    assert_eq!(
        world.entities[0].cleanup,
        Some(Cleanup::OnTimeout { remaining_ms: 1 })
    );
    cleanup(&mut world, 1);
    assert!(!alive(&world, 0));
    // The subtree goes down with the root.
    assert!(!alive(&world, 1));
}

#[test]
fn recursive_directive_fires_on_next_run() {
    let mut world = world_of(vec![
        rec(0, None, Some(Cleanup::Recursive)),
        rec(1, Some(0), None),
        rec(2, None, None),
    ]);
    cleanup(&mut world, 16);
    assert!(!alive(&world, 0));
    assert!(!alive(&world, 1));
    assert!(alive(&world, 2));
}

#[test]
fn only_entity_leaves_descendants_in_place() {
    let mut world = world_of(vec![
        rec(0, None, Some(Cleanup::OnlyEntity)),
        rec(1, Some(0), None),
    ]);
    cleanup(&mut world, 16);
    assert!(!alive(&world, 0));
    assert!(alive(&world, 1));
}

#[test]
fn only_descendants_leaves_the_entity_in_place() {
    let mut world = world_of(vec![
        rec(0, None, Some(Cleanup::OnlyDescendants)),
        rec(1, Some(0), None),
        rec(2, Some(0), None),
    ]);
    cleanup(&mut world, 16);
    assert!(alive(&world, 0));
    assert!(!alive(&world, 1));
    assert!(!alive(&world, 2));
    // The fired directive is consumed.
    assert_eq!(world.entities[0].cleanup, None);
}

#[test]
fn cleanup_of_dead_entity_is_a_noop() {
    let mut dead = rec(0, None, Some(Cleanup::Recursive));
    dead.alive = false;
    let mut world = world_of(vec![dead, rec(1, Some(0), None)]);
    cleanup(&mut world, 16);
    // The dead entity's directive fires nothing: the child survives.
    assert!(alive(&world, 1));
    assert!(!alive(&world, 0));
}

#[test]
fn countdown_ticks_down_across_runs() {
    let mut world = world_of(vec![rec(
        0,
        None,
        Some(Cleanup::OnTimeout { remaining_ms: 3000 }),
    )]);
    cleanup(&mut world, 1000);
    assert_eq!(
        world.entities[0].cleanup,
        Some(Cleanup::OnTimeout { remaining_ms: 2000 })
    );
    cleanup(&mut world, 1000);
    assert_eq!(
        world.entities[0].cleanup,
        Some(Cleanup::OnTimeout { remaining_ms: 1000 })
    );
    assert!(alive(&world, 0));
    cleanup(&mut world, 1000);
    assert!(!alive(&world, 0));
}

#[test]
fn entities_without_directives_are_untouched() {
    let mut world = world_of(vec![rec(0, None, None), rec(1, Some(0), None)]);
    let before = world.entities.clone();
    cleanup(&mut world, 12345);
    assert_eq!(world.entities, before);
}
