//! The ground sensor resolver: maps the ball/sensor intersection sets the
//! physics service reports each frame onto ground-chain transitions.
//!
//! The chain state is written here and nowhere else during gameplay; the
//! colouring, camera, light, wall-gating and scoring systems only read it.

use vstd::prelude::*;

use crate::components::{Cleanup, EntityKind, EntityRec, GroundColor};
use crate::constants::{GROUND_OVERHEAT_DURATION_MS, PREV_GROUND_CLEANUP_MS};
use crate::resources::GroundsResource;
use crate::scene::{ground_family, spawn_ground};
use crate::world::{has_live_id, ids_contain, GameWorld};

verus! {

/// A living, collidable ball. The resolvers run only when exactly one such
/// entity exists; its absence short-circuits them without any mutation.
pub open spec fn is_live_ball(e: EntityRec) -> bool {
    e.alive && e.kind == EntityKind::RollingBall && e.has_collider
}

/// How many living, collidable balls the store holds.
pub open spec fn ball_count(s: Seq<EntityRec>) -> nat
    decreases s.len(),
{
    if s.len() == 0 {
        0
    } else {
        ball_count(s.drop_last()) + if is_live_ball(s.last()) {
            1nat
        } else {
            0nat
        }
    }
}

/// This entity is a living surface sensor that the ball currently overlaps,
/// with a known owning ground.
pub open spec fn is_surface_sensor_hit(e: EntityRec, overlaps: Seq<u64>) -> bool {
    &&& e.alive
    &&& e.kind == EntityKind::GroundSurfaceSensor
    &&& e.has_collider
    &&& e.belongs_to is Some
    &&& overlaps.contains(e.id)
}

/// The ground whose surface sensor the ball overlaps, resolved
/// deterministically over the store order: the last overlapping sensor wins.
pub open spec fn spec_active_ground(s: Seq<EntityRec>, overlaps: Seq<u64>) -> Option<u64>
    decreases s.len(),
{
    if s.len() == 0 {
        None
    } else if is_surface_sensor_hit(s.last(), overlaps) {
        s.last().belongs_to
    } else {
        spec_active_ground(s.drop_last(), overlaps)
    }
}

/// Every living entity with this id (there is at most one) gets the given
/// countdown directive; everything else is untouched.
pub open spec fn arm_overheat(s: Seq<EntityRec>, ground: u64, duration_ms: u64) -> Seq<EntityRec> {
    Seq::new(
        s.len(),
        |i: int|
            if s[i].id == ground && s[i].alive {
                EntityRec {
                    cleanup: Some(Cleanup::OnTimeout { remaining_ms: duration_ms }),
                    ..s[i]
                }
            } else {
                s[i]
            },
    )
}

/// The surface sensor resolver's effect on the store and the chain state.
/// With no unique ball or no overlapped sensor nothing changes; when the
/// overlapped ground differs from the current one the chain advances and an
/// overheat countdown is armed on the ground that just became current.
pub open spec fn spec_handle_ground_sensor(
    s: Seq<EntityRec>,
    res: GroundsResource,
    overlaps: Seq<u64>,
) -> (Seq<EntityRec>, GroundsResource) {
    if ball_count(s) != 1 {
        (s, res)
    } else {
        match spec_active_ground(s, overlaps) {
            None => (s, res),
            Some(g) => if res.current_ground == Some(g) {
                (s, res)
            } else {
                (arm_overheat(s, g, GROUND_OVERHEAT_DURATION_MS), res.spec_advance(g))
            },
        }
    }
}

/// Exec mirror of [`ball_count`].
pub fn count_balls(world: &GameWorld) -> (n: usize)
    ensures
        n == ball_count(world.entities@),
{
    let len = world.entities.len();
    let mut n: usize = 0;
    let mut i: usize = 0;
    while i < len
        invariant
            i <= len,
            n <= i,
            len == world.entities@.len(),
            n == ball_count(world.entities@.subrange(0, i as int)),
        decreases len - i,
    {
        proof {
            assert(world.entities@.subrange(0, i + 1).drop_last() =~= world.entities@.subrange(
                0,
                i as int,
            ));
            assert(world.entities@.subrange(0, i + 1).last() == world.entities@[i as int]);
        }
        let e = &world.entities[i];
        if e.alive && e.kind == EntityKind::RollingBall && e.has_collider {
            n += 1;
        }
        i += 1;
    }
    proof {
        assert(world.entities@.subrange(0, len as int) =~= world.entities@);
    }
    n
}

/// Exec mirror of [`spec_active_ground`].
fn active_ground(world: &GameWorld, overlaps: &Vec<u64>) -> (r: Option<u64>)
    ensures
        r == spec_active_ground(world.entities@, overlaps@),
{
    let len = world.entities.len();
    let mut active: Option<u64> = None;
    let mut i: usize = 0;
    while i < len
        invariant
            i <= len,
            len == world.entities@.len(),
            active == spec_active_ground(world.entities@.subrange(0, i as int), overlaps@),
        decreases len - i,
    {
        proof {
            assert(world.entities@.subrange(0, i + 1).drop_last() =~= world.entities@.subrange(
                0,
                i as int,
            ));
            assert(world.entities@.subrange(0, i + 1).last() == world.entities@[i as int]);
        }
        let e = &world.entities[i];
        if e.alive && e.kind == EntityKind::GroundSurfaceSensor && e.has_collider {
            match e.belongs_to {
                Some(g) => {
                    if ids_contain(overlaps, e.id) {
                        active = Some(g);
                    }
                },
                None => {},
            }
        }
        i += 1;
    }
    proof {
        assert(world.entities@.subrange(0, len as int) =~= world.entities@);
    }
    active
}

/// The surface sensor resolver. `overlaps` is the set of sensor entity ids
/// the physics service reports as intersecting the ball this frame. If the
/// overlapped ground differs from the chain's current ground, the chain
/// advances (the old current becomes previous, the pending next ground is
/// cleared) and the newly current ground is armed with the overheat
/// countdown. Without a unique ball, or without any overlapped surface
/// sensor, nothing changes.
pub fn handle_ground_sensor(world: &mut GameWorld, res: &mut GroundsResource, overlaps: &Vec<u64>)
    ensures
        final(world).next_id == old(world).next_id,
        final(world).entities@ == spec_handle_ground_sensor(
            old(world).entities@,
            *old(res),
            overlaps@,
        ).0,
        *final(res) == spec_handle_ground_sensor(old(world).entities@, *old(res), overlaps@).1,
{
    if count_balls(world) != 1 {
        return ;
    }
    let active = active_ground(world, overlaps);
    let g = match active {
        Some(g) => g,
        None => {
            return ;
        },
    };
    let unchanged = match res.current_ground {
        Some(c) => c == g,
        None => false,
    };
    if unchanged {
        return ;
    }
    res.previous_ground = res.current_ground;
    res.current_ground = Some(g);
    res.next_ground = None;

    // Arm the overheat countdown on the ground that just became current.
    let ghost s0 = world.entities@;
    let len = world.entities.len();
    let mut i: usize = 0;
    while i < len
        invariant
            i <= len,
            len == world.entities@.len(),
            len == s0.len(),
            world.next_id == old(world).next_id,
            forall|k: int|
                0 <= k < i ==> world.entities@[k] == arm_overheat(
                    s0,
                    g,
                    GROUND_OVERHEAT_DURATION_MS,
                )[k],
            forall|k: int| i <= k < len ==> world.entities@[k] == s0[k],
        decreases len - i,
    {
        let e = world.entities[i];
        if e.id == g && e.alive {
            world.entities[i] = EntityRec {
                cleanup: Some(Cleanup::OnTimeout { remaining_ms: GROUND_OVERHEAT_DURATION_MS }),
                ..e
            };
        }
        i += 1;
    }
    proof {
        assert(world.entities@ =~= arm_overheat(s0, g, GROUND_OVERHEAT_DURATION_MS));
    }
}

/// This entity is a living mid sensor of the chain's current ground that
/// the ball currently overlaps.
pub open spec fn is_mid_sensor_hit(e: EntityRec, overlaps: Seq<u64>, res: GroundsResource) -> bool {
    &&& e.alive
    &&& e.kind == EntityKind::GroundMidSensor
    &&& e.has_collider
    &&& e.belongs_to is Some
    &&& overlaps.contains(e.id)
    &&& res.current_ground == Some(e.belongs_to.unwrap())
}

/// Some living mid sensor of the current ground is overlapped this frame.
pub open spec fn mid_trigger(s: Seq<EntityRec>, overlaps: Seq<u64>, res: GroundsResource) -> bool {
    exists|i: int| 0 <= i < s.len() && is_mid_sensor_hit(#[trigger] s[i], overlaps, res)
}

/// The mid sensor resolver's effect. A new ground is spawned ahead of the
/// chain, and recorded as the pending next ground, exactly when: a unique
/// ball exists, no next ground is pending yet (spawning is idempotent), the
/// ball overlaps a mid sensor belonging to the current ground, that current
/// ground is still alive, and the collision-volume construction succeeds.
pub open spec fn spec_handle_mid_ground_sensor(
    s: Seq<EntityRec>,
    next_id: u64,
    res: GroundsResource,
    overlaps: Seq<u64>,
    geometry_ok: bool,
) -> (Seq<EntityRec>, u64, GroundsResource) {
    if ball_count(s) != 1 {
        (s, next_id, res)
    } else if res.next_ground is Some {
        (s, next_id, res)
    } else if !mid_trigger(s, overlaps, res) {
        (s, next_id, res)
    } else if !(res.current_ground matches Some(c) && has_live_id(s, c)) {
        (s, next_id, res)
    } else if !geometry_ok || next_id > u64::MAX - 4 {
        (s, next_id, res)
    } else {
        (
            s + ground_family(next_id),
            (next_id + 4) as u64,
            GroundsResource { next_ground: Some(next_id), ..res },
        )
    }
}

/// The mid sensor resolver. When the ball crosses a mid sensor of the
/// current ground and no next ground is pending, a new ground is spawned
/// (positioned by the driver relative to the current ground) and recorded as
/// `next_ground`. A frame that observes `next_ground` already set spawns
/// nothing.
pub fn handle_mid_ground_sensor(
    world: &mut GameWorld,
    res: &mut GroundsResource,
    overlaps: &Vec<u64>,
    geometry_ok: bool,
)
    ensures
        final(world).entities@ == spec_handle_mid_ground_sensor(
            old(world).entities@,
            old(world).next_id,
            *old(res),
            overlaps@,
            geometry_ok,
        ).0,
        final(world).next_id == spec_handle_mid_ground_sensor(
            old(world).entities@,
            old(world).next_id,
            *old(res),
            overlaps@,
            geometry_ok,
        ).1,
        *final(res) == spec_handle_mid_ground_sensor(
            old(world).entities@,
            old(world).next_id,
            *old(res),
            overlaps@,
            geometry_ok,
        ).2,
{
    if count_balls(world) != 1 {
        return ;
    }
    match res.next_ground {
        Some(_) => {
            return ;
        },
        None => {},
    }

    // Look for a mid sensor of the current ground that the ball overlaps.
    let len = world.entities.len();
    let mut found = false;
    let mut i: usize = 0;
    while i < len
        invariant
            i <= len,
            len == world.entities@.len(),
            found == mid_trigger(world.entities@.subrange(0, i as int), overlaps@, *res),
        decreases len - i,
    {
        let ghost pre = world.entities@.subrange(0, i as int);
        let e = &world.entities[i];
        let mut hit = false;
        if e.alive && e.kind == EntityKind::GroundMidSensor && e.has_collider {
            match e.belongs_to {
                Some(b) => {
                    if ids_contain(overlaps, e.id) {
                        hit = match res.current_ground {
                            Some(c) => c == b,
                            None => false,
                        };
                    }
                },
                None => {},
            }
        }
        proof {
            assert(hit == is_mid_sensor_hit(world.entities@[i as int], overlaps@, *res));
            assert forall|k: int|
                0 <= k < i + 1 && is_mid_sensor_hit(
                    #[trigger] world.entities@.subrange(0, i + 1)[k],
                    overlaps@,
                    *res,
                ) implies mid_trigger(world.entities@.subrange(0, i + 1), overlaps@, *res) by {}
            assert(world.entities@.subrange(0, i + 1).drop_last() =~= pre);
        }
        if hit {
            found = true;
        }
        proof {
            if found {
                if hit {
                    assert(is_mid_sensor_hit(
                        world.entities@.subrange(0, i + 1)[i as int],
                        overlaps@,
                        *res,
                    ));
                } else {
                    let k = choose|k: int|
                        0 <= k < pre.len() && is_mid_sensor_hit(#[trigger] pre[k], overlaps@, *res);
                    assert(is_mid_sensor_hit(
                        world.entities@.subrange(0, i + 1)[k],
                        overlaps@,
                        *res,
                    ));
                }
            } else {
                if mid_trigger(world.entities@.subrange(0, i + 1), overlaps@, *res) {
                    let k = choose|k: int|
                        0 <= k < i + 1 && is_mid_sensor_hit(
                            #[trigger] world.entities@.subrange(0, i + 1)[k],
                            overlaps@,
                            *res,
                        );
                    if k < i {
                        assert(is_mid_sensor_hit(pre[k], overlaps@, *res));
                    }
                    assert(false);
                }
            }
        }
        i += 1;
    }
    proof {
        assert(world.entities@.subrange(0, len as int) =~= world.entities@);
    }
    if !found {
        return ;
    }

    // The overlapped sensor belongs to the current ground, so the chain has
    // a current ground; it must still be alive to position the new ground
    // relative to it.
    let c = match res.current_ground {
        Some(c) => c,
        None => {
            proof {
                let k = choose|k: int|
                    0 <= k < world.entities@.len() && is_mid_sensor_hit(
                        #[trigger] world.entities@[k],
                        overlaps@,
                        *res,
                    );
            }
            return ;
        },
    };
    if !world.is_alive(c) {
        return ;
    }
    if !geometry_ok || world.next_id > u64::MAX - 4 {
        return ;
    }
    let spawned = spawn_ground(world, true);
    match spawned {
        Some(g) => {
            res.next_ground = Some(g);
        },
        None => {
            proof {
                assert(false);
            }
        },
    }
}

/// The colour a ground's mesh should show under the given chain state: blue
/// for the pending next ground, red for the current one, yellow for the
/// previous one, otherwise whatever it already shows.
pub open spec fn role_color(res: GroundsResource, ground: u64, current: GroundColor) -> GroundColor {
    if res.next_ground == Some(ground) {
        GroundColor::Blue
    } else if res.current_ground == Some(ground) {
        GroundColor::Red
    } else if res.previous_ground == Some(ground) {
        GroundColor::Yellow
    } else {
        current
    }
}

/// Every living ground mesh painted with its owning ground's role colour.
pub open spec fn spec_color_grounds(s: Seq<EntityRec>, res: GroundsResource) -> Seq<EntityRec> {
    Seq::new(
        s.len(),
        |i: int|
            if s[i].alive && s[i].kind == EntityKind::GroundMesh && s[i].belongs_to is Some {
                EntityRec { color: role_color(res, s[i].belongs_to.unwrap(), s[i].color), ..s[i] }
            } else {
                s[i]
            },
    )
}

/// Paints every living ground mesh after its owning ground's chain role:
/// the previous ground yellow, the current one red, the pending next one
/// blue. Meshes of grounds outside the chain keep their colour.
pub fn color_grounds(world: &mut GameWorld, res: &GroundsResource)
    ensures
        final(world).next_id == old(world).next_id,
        final(world).entities@ == spec_color_grounds(old(world).entities@, *res),
{
    let ghost s0 = world.entities@;
    let len = world.entities.len();
    let mut i: usize = 0;
    while i < len
        invariant
            i <= len,
            len == world.entities@.len(),
            len == s0.len(),
            world.next_id == old(world).next_id,
            forall|k: int| 0 <= k < i ==> world.entities@[k] == spec_color_grounds(s0, *res)[k],
            forall|k: int| i <= k < len ==> world.entities@[k] == s0[k],
        decreases len - i,
    {
        let e = world.entities[i];
        if e.alive && e.kind == EntityKind::GroundMesh {
            match e.belongs_to {
                Some(g) => {
                    let is_next = match res.next_ground {
                        Some(x) => x == g,
                        None => false,
                    };
                    let is_current = match res.current_ground {
                        Some(x) => x == g,
                        None => false,
                    };
                    let is_previous = match res.previous_ground {
                        Some(x) => x == g,
                        None => false,
                    };
                    let color = if is_next {
                        GroundColor::Blue
                    } else if is_current {
                        GroundColor::Red
                    } else if is_previous {
                        GroundColor::Yellow
                    } else {
                        e.color
                    };
                    world.entities[i] = EntityRec { color, ..e };
                },
                None => {},
            }
        }
        i += 1;
    }
    proof {
        assert(world.entities@ =~= spec_color_grounds(s0, *res));
    }
}

/// The previous ground armed with the left-behind countdown; the store is
/// untouched when no previous ground exists (or it is already gone).
pub open spec fn spec_mark_cleanup_prev_grounds(
    s: Seq<EntityRec>,
    res: GroundsResource,
) -> Seq<EntityRec> {
    match res.previous_ground {
        Some(p) => arm_overheat(s, p, PREV_GROUND_CLEANUP_MS),
        None => s,
    }
}

/// Arms a left-behind countdown on the ground that was just passed, so a
/// platform the ball rolled off is torn down even if it never overheats.
/// Runs when the chain state changed; a miss (no previous ground, or one
/// already destroyed) is a silent no-op.
pub fn mark_cleanup_prev_grounds(world: &mut GameWorld, res: &GroundsResource)
    ensures
        final(world).next_id == old(world).next_id,
        final(world).entities@ == spec_mark_cleanup_prev_grounds(old(world).entities@, *res),
{
    let p = match res.previous_ground {
        Some(p) => p,
        None => {
            return ;
        },
    };
    let ghost s0 = world.entities@;
    let len = world.entities.len();
    let mut i: usize = 0;
    while i < len
        invariant
            i <= len,
            len == world.entities@.len(),
            len == s0.len(),
            world.next_id == old(world).next_id,
            forall|k: int|
                0 <= k < i ==> world.entities@[k] == arm_overheat(s0, p, PREV_GROUND_CLEANUP_MS)[k],
            forall|k: int| i <= k < len ==> world.entities@[k] == s0[k],
        decreases len - i,
    {
        let e = world.entities[i];
        if e.id == p && e.alive {
            world.entities[i] = EntityRec {
                cleanup: Some(Cleanup::OnTimeout { remaining_ms: PREV_GROUND_CLEANUP_MS }),
                ..e
            };
        }
        i += 1;
    }
    proof {
        assert(world.entities@ =~= arm_overheat(s0, p, PREV_GROUND_CLEANUP_MS));
    }
}

/// Repainting changes no id, parent or liveness: well-formedness of the
/// store survives it.
pub proof fn lemma_color_grounds_preserves_wf(s: Seq<EntityRec>, next_id: u64, res: GroundsResource)
    requires
        crate::world::ids_increasing(s),
        crate::world::ids_bounded(s, next_id),
        crate::world::parent_ids_bounded(s, next_id),
        crate::world::belongs_ids_bounded(s, next_id),
        crate::world::parents_are_roots(s),
    ensures
        crate::world::ids_increasing(spec_color_grounds(s, res)),
        crate::world::ids_bounded(spec_color_grounds(s, res), next_id),
        crate::world::parent_ids_bounded(spec_color_grounds(s, res), next_id),
        crate::world::belongs_ids_bounded(spec_color_grounds(s, res), next_id),
        crate::world::parents_are_roots(spec_color_grounds(s, res)),
{
    let s1 = spec_color_grounds(s, res);
    assert(forall|i: int| 0 <= i < s.len() ==> #[trigger] s1[i].id == s[i].id);
    assert(forall|i: int| 0 <= i < s.len() ==> #[trigger] s1[i].parent == s[i].parent);
    assert(forall|i: int| 0 <= i < s.len() ==> #[trigger] s1[i].belongs_to == s[i].belongs_to);
}

/// Arming a countdown changes no id, parent or liveness: well-formedness of
/// the store survives it.
pub proof fn lemma_arm_overheat_preserves_wf(
    s: Seq<EntityRec>,
    next_id: u64,
    ground: u64,
    duration_ms: u64,
)
    requires
        crate::world::ids_increasing(s),
        crate::world::ids_bounded(s, next_id),
        crate::world::parent_ids_bounded(s, next_id),
        crate::world::belongs_ids_bounded(s, next_id),
        crate::world::parents_are_roots(s),
    ensures
        crate::world::ids_increasing(arm_overheat(s, ground, duration_ms)),
        crate::world::ids_bounded(arm_overheat(s, ground, duration_ms), next_id),
        crate::world::parent_ids_bounded(arm_overheat(s, ground, duration_ms), next_id),
        crate::world::belongs_ids_bounded(arm_overheat(s, ground, duration_ms), next_id),
        crate::world::parents_are_roots(arm_overheat(s, ground, duration_ms)),
{
    let s1 = arm_overheat(s, ground, duration_ms);
    assert(forall|i: int| 0 <= i < s.len() ==> #[trigger] s1[i].id == s[i].id);
    assert(forall|i: int| 0 <= i < s.len() ==> #[trigger] s1[i].parent == s[i].parent);
    assert(forall|i: int| 0 <= i < s.len() ==> #[trigger] s1[i].belongs_to == s[i].belongs_to);
}

} // verus!
