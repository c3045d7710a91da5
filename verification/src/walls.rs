//! The wall authoring pipeline: a raycast-driven preview/commit state
//! machine for player-drawn walls on the active platform.
//!
//! Each frame the driver casts a ray from the camera through the pointer
//! against the fixed, non-sensor colliders (the preview wall itself is
//! excluded from the cast) and hands the hit entity here. A hit on the mesh
//! of the chain's current or next ground updates the single preview wall;
//! any other hit, or a miss, hides it; a commit click promotes it to a
//! permanent obstacle with a collision volume.

use vstd::prelude::*;

use crate::components::{EntityKind, EntityRec, GroundColor};
use crate::events::WallEvent;
use crate::resources::{GroundsResource, SettingsResource};
use crate::world::GameWorld;

verus! {

/// A living, collidable ground mesh with a known owner: the only surfaces a
/// wall may be authored on.
pub open spec fn is_pickable_mesh(e: EntityRec) -> bool {
    &&& e.alive
    &&& e.kind == EntityKind::GroundMesh
    &&& e.has_collider
    &&& e.belongs_to is Some
}

/// The owning ground of the hit entity, when the hit is a pickable ground
/// mesh.
pub open spec fn mesh_owner(s: Seq<EntityRec>, hit: u64) -> Option<u64>
    decreases s.len(),
{
    if s.len() == 0 {
        None
    } else if s.last().id == hit && is_pickable_mesh(s.last()) {
        s.last().belongs_to
    } else {
        mesh_owner(s.drop_last(), hit)
    }
}

/// There is a living root entity (one that may carry children) with this id.
pub open spec fn is_live_root(s: Seq<EntityRec>, id: u64) -> bool {
    exists|k: int|
        0 <= k < s.len() && #[trigger] s[k].id == id && s[k].alive && s[k].parent is None
}

/// How many living preview walls the store holds. The pipeline keeps this
/// at most one.
pub open spec fn temp_wall_count(s: Seq<EntityRec>) -> nat
    decreases s.len(),
{
    if s.len() == 0 {
        0
    } else {
        temp_wall_count(s.drop_last()) + if s.last().alive && s.last().temp_wall {
            1nat
        } else {
            0nat
        }
    }
}

/// The accumulated wall yaw after one frame of rotate input, in
/// microradians: one sensitivity step per held key, pinned at the extremes.
pub open spec fn spec_next_angle(
    angle: i64,
    settings: SettingsResource,
    rotate_left: bool,
    rotate_right: bool,
) -> i64 {
    let step = settings.rotation_sensitivity as i64;
    if rotate_left {
        if angle + step <= i64::MAX {
            (angle + step) as i64
        } else {
            i64::MAX
        }
    } else if rotate_right {
        if angle - step >= i64::MIN {
            (angle - step) as i64
        } else {
            i64::MIN
        }
    } else {
        angle
    }
}

/// The picker's outcome: the event to emit (if any) and the persisted wall
/// yaw. Without a pointer nothing happens; a miss, or a hit outside the
/// meshes of the current and next ground, asks for the preview to be
/// hidden; a hit on an authorable mesh accumulates rotation input and asks
/// for a preview update, or for a commit when the draw button was pressed.
pub open spec fn spec_pick_ground_point(
    s: Seq<EntityRec>,
    res: GroundsResource,
    settings: SettingsResource,
    cursor_present: bool,
    hit: Option<u64>,
    rotate_left: bool,
    rotate_right: bool,
    draw_pressed: bool,
    angle: i64,
) -> (Option<WallEvent>, i64) {
    if !cursor_present {
        (None, angle)
    } else {
        match hit {
            None => (Some(WallEvent::HoverStop), angle),
            Some(h) => match mesh_owner(s, h) {
                None => (Some(WallEvent::HoverStop), angle),
                Some(g) => if res.current_ground == Some(g) || res.next_ground == Some(g) {
                    let a = spec_next_angle(angle, settings, rotate_left, rotate_right);
                    if draw_pressed {
                        (Some(WallEvent::Draw), a)
                    } else {
                        (Some(WallEvent::HoverUpdate { ground: g, yaw: a }), a)
                    }
                } else {
                    (Some(WallEvent::HoverStop), angle)
                },
            },
        }
    }
}

/// Exec mirror of [`mesh_owner`].
fn find_mesh_owner(world: &GameWorld, hit: u64) -> (r: Option<u64>)
    ensures
        r == mesh_owner(world.entities@, hit),
{
    let len = world.entities.len();
    let mut owner: Option<u64> = None;
    let mut i: usize = 0;
    while i < len
        invariant
            i <= len,
            len == world.entities@.len(),
            owner == mesh_owner(world.entities@.subrange(0, i as int), hit),
        decreases len - i,
    {
        proof {
            assert(world.entities@.subrange(0, i + 1).drop_last() =~= world.entities@.subrange(
                0,
                i as int,
            ));
            assert(world.entities@.subrange(0, i + 1).last() == world.entities@[i as int]);
        }
        let e = &world.entities[i];
        if e.id == hit && e.alive && e.kind == EntityKind::GroundMesh && e.has_collider {
            match e.belongs_to {
                Some(g) => {
                    owner = Some(g);
                },
                None => {},
            }
        }
        i += 1;
    }
    proof {
        assert(world.entities@.subrange(0, len as int) =~= world.entities@);
    }
    owner
}

/// The raycast picker. `hit` is the nearest fixed, non-sensor,
/// non-preview collider on the camera-to-pointer ray as the physics service
/// reports it; `cursor_present`, the rotate keys and the draw button come
/// from the frame's input. The wall yaw accumulates across frames (it is
/// not reset between hovers) at one sensitivity step per frame of held
/// input.
pub fn pick_ground_point_raycast(
    world: &GameWorld,
    res: &GroundsResource,
    settings: &SettingsResource,
    cursor_present: bool,
    hit: Option<u64>,
    rotate_left: bool,
    rotate_right: bool,
    draw_pressed: bool,
    wall_angle: &mut i64,
) -> (event: Option<WallEvent>)
    ensures
        event == spec_pick_ground_point(
            world.entities@,
            *res,
            *settings,
            cursor_present,
            hit,
            rotate_left,
            rotate_right,
            draw_pressed,
            *old(wall_angle),
        ).0,
        *final(wall_angle) == spec_pick_ground_point(
            world.entities@,
            *res,
            *settings,
            cursor_present,
            hit,
            rotate_left,
            rotate_right,
            draw_pressed,
            *old(wall_angle),
        ).1,
{
    if !cursor_present {
        return None;
    }
    let h = match hit {
        Some(h) => h,
        None => {
            return Some(WallEvent::HoverStop);
        },
    };
    let g = match find_mesh_owner(world, h) {
        Some(g) => g,
        None => {
            return Some(WallEvent::HoverStop);
        },
    };
    let authorable = match res.current_ground {
        Some(c) => c == g,
        None => false,
    } || match res.next_ground {
        Some(x) => x == g,
        None => false,
    };
    if !authorable {
        return Some(WallEvent::HoverStop);
    }
    let step = settings.rotation_sensitivity as i64;
    if rotate_left {
        if *wall_angle <= i64::MAX - step {
            *wall_angle = *wall_angle + step;
        } else {
            *wall_angle = i64::MAX;
        }
    } else if rotate_right {
        if *wall_angle >= i64::MIN + step {
            *wall_angle = *wall_angle - step;
        } else {
            *wall_angle = i64::MIN;
        }
    }
    if draw_pressed {
        Some(WallEvent::Draw)
    } else {
        Some(WallEvent::HoverUpdate { ground: g, yaw: *wall_angle })
    }
}

/// A freshly spawned preview wall: a child of the ground it is authored
/// on, visible, without a collision volume yet.
pub open spec fn temp_wall_rec(id: u64, ground: u64, yaw: i64) -> EntityRec {
    EntityRec {
        id,
        kind: EntityKind::Wall,
        parent: Some(ground),
        belongs_to: Some(ground),
        alive: true,
        cleanup: None,
        temp_wall: true,
        wall: false,
        visible: true,
        opaque: true,
        has_collider: false,
        color: GroundColor::Green,
        yaw,
    }
}

/// The store with its preview wall moved onto `ground` with the given yaw,
/// made visible and translucent.
pub open spec fn spec_update_temp_wall(s: Seq<EntityRec>, ground: u64, yaw: i64) -> Seq<EntityRec> {
    Seq::new(
        s.len(),
        |i: int|
            if s[i].alive && s[i].temp_wall {
                EntityRec {
                    parent: Some(ground),
                    visible: true,
                    opaque: false,
                    yaw,
                    ..s[i]
                }
            } else {
                s[i]
            },
    )
}

/// The store with its preview wall hidden.
pub open spec fn spec_hide_temp_wall(s: Seq<EntityRec>) -> Seq<EntityRec> {
    Seq::new(
        s.len(),
        |i: int|
            if s[i].alive && s[i].temp_wall {
                EntityRec { visible: false, ..s[i] }
            } else {
                s[i]
            },
    )
}

/// The store with its preview wall promoted to a permanent obstacle: a
/// collision volume attached, opaque, the preview marker removed.
pub open spec fn spec_commit_temp_wall(s: Seq<EntityRec>) -> Seq<EntityRec> {
    Seq::new(
        s.len(),
        |i: int|
            if s[i].alive && s[i].temp_wall {
                EntityRec {
                    temp_wall: false,
                    wall: true,
                    opaque: true,
                    has_collider: true,
                    ..s[i]
                }
            } else {
                s[i]
            },
    )
}

/// One wall event's effect on the store and the id allocator.
///
/// A hover update re-uses the single existing preview wall (re-parenting it
/// when the target ground changed) and only spawns one when none exists;
/// the target must be a living root entity or nothing happens. A hover
/// stop hides the preview. A commit with a preview present attaches its
/// collision volume (when the geometry service could build one) and strips
/// the preview marker; a commit with no preview present changes nothing.
/// With more than one preview wall present (which the pipeline never
/// produces) every variant is a no-op, mirroring a failed single-entity
/// lookup.
pub open spec fn spec_handle_wall_event(
    s: Seq<EntityRec>,
    next_id: u64,
    event: WallEvent,
    geometry_ok: bool,
) -> (Seq<EntityRec>, u64) {
    match event {
        WallEvent::HoverUpdate { ground, yaw } => {
            if !is_live_root(s, ground) {
                (s, next_id)
            } else if temp_wall_count(s) == 0 {
                if next_id == u64::MAX {
                    (s, next_id)
                } else {
                    (s + seq![temp_wall_rec(next_id, ground, yaw)], (next_id + 1) as u64)
                }
            } else if temp_wall_count(s) == 1 {
                (spec_update_temp_wall(s, ground, yaw), next_id)
            } else {
                (s, next_id)
            }
        },
        WallEvent::HoverStop => {
            if temp_wall_count(s) == 1 {
                (spec_hide_temp_wall(s), next_id)
            } else {
                (s, next_id)
            }
        },
        WallEvent::Draw => {
            if temp_wall_count(s) == 1 && geometry_ok {
                (spec_commit_temp_wall(s), next_id)
            } else {
                (s, next_id)
            }
        },
    }
}

/// A frame's batch of wall events, in order.
pub open spec fn spec_handle_wall_events(
    s: Seq<EntityRec>,
    next_id: u64,
    events: Seq<WallEvent>,
    geometry_ok: bool,
) -> (Seq<EntityRec>, u64)
    decreases events.len(),
{
    if events.len() == 0 {
        (s, next_id)
    } else {
        let (s1, n1) = spec_handle_wall_events(s, next_id, events.drop_last(), geometry_ok);
        spec_handle_wall_event(s1, n1, events.last(), geometry_ok)
    }
}

/// Exec mirror of [`temp_wall_count`].
fn count_temp_walls(world: &GameWorld) -> (n: usize)
    ensures
        n == temp_wall_count(world.entities@),
{
    let len = world.entities.len();
    let mut n: usize = 0;
    let mut i: usize = 0;
    while i < len
        invariant
            i <= len,
            n <= i,
            len == world.entities@.len(),
            n == temp_wall_count(world.entities@.subrange(0, i as int)),
        decreases len - i,
    {
        proof {
            assert(world.entities@.subrange(0, i + 1).drop_last() =~= world.entities@.subrange(
                0,
                i as int,
            ));
            assert(world.entities@.subrange(0, i + 1).last() == world.entities@[i as int]);
        }
        if world.entities[i].alive && world.entities[i].temp_wall {
            n += 1;
        }
        i += 1;
    }
    proof {
        assert(world.entities@.subrange(0, len as int) =~= world.entities@);
    }
    n
}

/// Exec mirror of [`is_live_root`].
fn find_live_root(world: &GameWorld, id: u64) -> (r: bool)
    ensures
        r == is_live_root(world.entities@, id),
{
    let len = world.entities.len();
    let mut i: usize = 0;
    while i < len
        invariant
            i <= len,
            len == world.entities@.len(),
            forall|k: int|
                0 <= k < i ==> !(#[trigger] world.entities@[k].id == id && world.entities@[k].alive
                    && world.entities@[k].parent is None),
        decreases len - i,
    {
        let e = &world.entities[i];
        if e.id == id && e.alive {
            match e.parent {
                None => {
                    return true;
                },
                Some(_) => {},
            }
        }
        i += 1;
    }
    false
}

/// Handles one wall event, as [`spec_handle_wall_event`] states.
/// `geometry_ok` is the outcome of building the committed wall's collision
/// volume from its mesh; on failure the commit is skipped and the preview
/// stays.
pub fn handle_wall_event(world: &mut GameWorld, event: &WallEvent, geometry_ok: bool)
    ensures
        final(world).entities@ == spec_handle_wall_event(
            old(world).entities@,
            old(world).next_id,
            *event,
            geometry_ok,
        ).0,
        final(world).next_id == spec_handle_wall_event(
            old(world).entities@,
            old(world).next_id,
            *event,
            geometry_ok,
        ).1,
{
    match event {
        WallEvent::HoverUpdate { ground, yaw } => {
            if !find_live_root(world, *ground) {
                return ;
            }
            let count = count_temp_walls(world);
            if count == 0 {
                if world.next_id == u64::MAX {
                    return ;
                }
                let id = world.next_id;
                world.entities.push(EntityRec {
                    id,
                    kind: EntityKind::Wall,
                    parent: Some(*ground),
                    belongs_to: Some(*ground),
                    alive: true,
                    cleanup: None,
                    temp_wall: true,
                    wall: false,
                    visible: true,
                    opaque: true,
                    has_collider: false,
                    color: GroundColor::Green,
                    yaw: *yaw,
                });
                world.next_id = id + 1;
                proof {
                    assert(world.entities@ =~= old(world).entities@ + seq![
                        temp_wall_rec(id, *ground, *yaw),
                    ]);
                }
            } else if count == 1 {
                let ghost s0 = world.entities@;
                let len = world.entities.len();
                let mut i: usize = 0;
                while i < len
                    invariant
                        i <= len,
                        len == world.entities@.len(),
                        len == s0.len(),
                        world.next_id == old(world).next_id,
                        forall|k: int|
                            0 <= k < i ==> world.entities@[k] == spec_update_temp_wall(
                                s0,
                                *ground,
                                *yaw,
                            )[k],
                        forall|k: int| i <= k < len ==> world.entities@[k] == s0[k],
                    decreases len - i,
                {
                    let e = world.entities[i];
                    if e.alive && e.temp_wall {
                        world.entities[i] = EntityRec {
                            parent: Some(*ground),
                            visible: true,
                            opaque: false,
                            yaw: *yaw,
                            ..e
                        };
                    }
                    i += 1;
                }
                proof {
                    assert(world.entities@ =~= spec_update_temp_wall(s0, *ground, *yaw));
                }
            }
        },
        WallEvent::HoverStop => {
            let count = count_temp_walls(world);
            if count != 1 {
                return ;
            }
            let ghost s0 = world.entities@;
            let len = world.entities.len();
            let mut i: usize = 0;
            while i < len
                invariant
                    i <= len,
                    len == world.entities@.len(),
                    len == s0.len(),
                    world.next_id == old(world).next_id,
                    forall|k: int|
                        0 <= k < i ==> world.entities@[k] == spec_hide_temp_wall(s0)[k],
                    forall|k: int| i <= k < len ==> world.entities@[k] == s0[k],
                decreases len - i,
            {
                let e = world.entities[i];
                if e.alive && e.temp_wall {
                    world.entities[i] = EntityRec { visible: false, ..e };
                }
                i += 1;
            }
            proof {
                assert(world.entities@ =~= spec_hide_temp_wall(s0));
            }
        },
        WallEvent::Draw => {
            let count = count_temp_walls(world);
            if count != 1 || !geometry_ok {
                return ;
            }
            let ghost s0 = world.entities@;
            let len = world.entities.len();
            let mut i: usize = 0;
            while i < len
                invariant
                    i <= len,
                    len == world.entities@.len(),
                    len == s0.len(),
                    world.next_id == old(world).next_id,
                    forall|k: int|
                        0 <= k < i ==> world.entities@[k] == spec_commit_temp_wall(s0)[k],
                    forall|k: int| i <= k < len ==> world.entities@[k] == s0[k],
                decreases len - i,
            {
                let e = world.entities[i];
                if e.alive && e.temp_wall {
                    world.entities[i] = EntityRec {
                        temp_wall: false,
                        wall: true,
                        opaque: true,
                        has_collider: true,
                        ..e
                    };
                }
                i += 1;
            }
            proof {
                assert(world.entities@ =~= spec_commit_temp_wall(s0));
            }
        },
    }
}

/// Handles a frame's batch of wall events in order.
pub fn handle_wall_events(world: &mut GameWorld, events: &Vec<WallEvent>, geometry_ok: bool)
    ensures
        final(world).entities@ == spec_handle_wall_events(
            old(world).entities@,
            old(world).next_id,
            events@,
            geometry_ok,
        ).0,
        final(world).next_id == spec_handle_wall_events(
            old(world).entities@,
            old(world).next_id,
            events@,
            geometry_ok,
        ).1,
{
    let ghost s0 = world.entities@;
    let ghost n0 = world.next_id;
    let n = events.len();
    let mut i: usize = 0;
    while i < n
        invariant
            i <= n,
            n == events@.len(),
            world.entities@ == spec_handle_wall_events(
                s0,
                n0,
                events@.subrange(0, i as int),
                geometry_ok,
            ).0,
            world.next_id == spec_handle_wall_events(
                s0,
                n0,
                events@.subrange(0, i as int),
                geometry_ok,
            ).1,
        decreases n - i,
    {
        proof {
            assert(events@.subrange(0, i + 1).drop_last() =~= events@.subrange(0, i as int));
            assert(events@.subrange(0, i + 1).last() == events@[i as int]);
        }
        handle_wall_event(world, &events[i], geometry_ok);
        i += 1;
    }
    proof {
        assert(events@.subrange(0, n as int) =~= events@);
    }
}

} // verus!
