//! Scene construction and teardown: spawning a ground with its children,
//! setting up the initial scene, and handling scene events (restart).

use vstd::prelude::*;

use crate::components::{Cleanup, EntityKind, EntityRec, GroundColor};
use crate::constants::GROUND_OVERHEAT_DURATION_MS;
use crate::events::SceneEvent;
use crate::resources::{GroundsResource, PreviousScoresRes, ScoresResource};
use crate::state::GameState;
use crate::world::GameWorld;

verus! {

/// The root record of a freshly spawned ground. It belongs to itself, so
/// that a sensor-to-owner lookup on the root resolves like one on a child.
pub open spec fn ground_root_rec(id: u64) -> EntityRec {
    EntityRec {
        id,
        kind: EntityKind::Ground,
        parent: None,
        belongs_to: Some(id),
        alive: true,
        cleanup: None,
        temp_wall: false,
        wall: false,
        visible: true,
        opaque: true,
        has_collider: false,
        color: GroundColor::Green,
        yaw: 0,
    }
}

/// The visible, collidable mesh child of a ground.
pub open spec fn ground_mesh_rec(id: u64, ground: u64) -> EntityRec {
    EntityRec {
        id,
        kind: EntityKind::GroundMesh,
        parent: Some(ground),
        belongs_to: Some(ground),
        alive: true,
        cleanup: None,
        temp_wall: false,
        wall: false,
        visible: true,
        opaque: true,
        has_collider: true,
        color: GroundColor::Green,
        yaw: 0,
    }
}

/// An invisible sensor child of a ground (surface or mid sensor).
pub open spec fn ground_sensor_rec(id: u64, ground: u64, kind: EntityKind) -> EntityRec {
    EntityRec {
        id,
        kind,
        parent: Some(ground),
        belongs_to: Some(ground),
        alive: true,
        cleanup: None,
        temp_wall: false,
        wall: false,
        visible: false,
        opaque: true,
        has_collider: true,
        color: GroundColor::Blue,
        yaw: 0,
    }
}

/// The four records a ground spawn appends: root, mesh, surface sensor, mid
/// sensor, with consecutive ids starting at `id`.
pub open spec fn ground_family(id: u64) -> Seq<EntityRec> {
    seq![
        ground_root_rec(id),
        ground_mesh_rec((id + 1) as u64, id),
        ground_sensor_rec((id + 2) as u64, id, EntityKind::GroundSurfaceSensor),
        ground_sensor_rec((id + 3) as u64, id, EntityKind::GroundMidSensor),
    ]
}

/// Outcome of a ground spawn: the entity store, the id allocator, and the id
/// of the new ground if one was spawned. The spawn aborts, leaving no
/// partial entity behind, when the collision-volume construction reported
/// failure or the id space is exhausted.
pub open spec fn spec_spawn_ground(s: Seq<EntityRec>, next_id: u64, geometry_ok: bool) -> (
    Seq<EntityRec>,
    u64,
    Option<u64>,
) {
    if !geometry_ok || next_id > u64::MAX - 4 {
        (s, next_id, None)
    } else {
        (s + ground_family(next_id), (next_id + 4) as u64, Some(next_id))
    }
}

/// Spawns a platform: a ground root with a mesh, a surface sensor and a mid
/// sensor as children. `geometry_ok` is the outcome the external geometry
/// service reported for building the collision volumes from the meshes; on
/// failure nothing is spawned.
pub fn spawn_ground(world: &mut GameWorld, geometry_ok: bool) -> (r: Option<u64>)
    ensures
        final(world).entities@ == spec_spawn_ground(
            old(world).entities@,
            old(world).next_id,
            geometry_ok,
        ).0,
        final(world).next_id == spec_spawn_ground(
            old(world).entities@,
            old(world).next_id,
            geometry_ok,
        ).1,
        r == spec_spawn_ground(old(world).entities@, old(world).next_id, geometry_ok).2,
{
    if !geometry_ok || world.next_id > u64::MAX - 4 {
        return None;
    }
    let id = world.next_id;
    world.entities.push(EntityRec {
        id,
        kind: EntityKind::Ground,
        parent: None,
        belongs_to: Some(id),
        alive: true,
        cleanup: None,
        temp_wall: false,
        wall: false,
        visible: true,
        opaque: true,
        has_collider: false,
        color: GroundColor::Green,
        yaw: 0,
    });
    world.entities.push(EntityRec {
        id: id + 1,
        kind: EntityKind::GroundMesh,
        parent: Some(id),
        belongs_to: Some(id),
        alive: true,
        cleanup: None,
        temp_wall: false,
        wall: false,
        visible: true,
        opaque: true,
        has_collider: true,
        color: GroundColor::Green,
        yaw: 0,
    });
    world.entities.push(EntityRec {
        id: id + 2,
        kind: EntityKind::GroundSurfaceSensor,
        parent: Some(id),
        belongs_to: Some(id),
        alive: true,
        cleanup: None,
        temp_wall: false,
        wall: false,
        visible: false,
        opaque: true,
        has_collider: true,
        color: GroundColor::Blue,
        yaw: 0,
    });
    world.entities.push(EntityRec {
        id: id + 3,
        kind: EntityKind::GroundMidSensor,
        parent: Some(id),
        belongs_to: Some(id),
        alive: true,
        cleanup: None,
        temp_wall: false,
        wall: false,
        visible: false,
        opaque: true,
        has_collider: true,
        color: GroundColor::Blue,
        yaw: 0,
    });
    world.next_id = id + 4;
    proof {
        assert(world.entities@ =~= old(world).entities@ + ground_family(id));
    }
    Some(id)
}

/// The hidden game-over sensor volume kept below and past the current
/// platform.
pub open spec fn game_over_sensor_rec(id: u64) -> EntityRec {
    EntityRec {
        id,
        kind: EntityKind::GameOverSensor,
        parent: None,
        belongs_to: None,
        alive: true,
        cleanup: None,
        temp_wall: false,
        wall: false,
        visible: false,
        opaque: true,
        has_collider: true,
        color: GroundColor::Blue,
        yaw: 0,
    }
}

/// The rolling ball.
pub open spec fn ball_rec(id: u64) -> EntityRec {
    EntityRec {
        id,
        kind: EntityKind::RollingBall,
        parent: None,
        belongs_to: None,
        alive: true,
        cleanup: None,
        temp_wall: false,
        wall: false,
        visible: true,
        opaque: true,
        has_collider: true,
        color: GroundColor::Green,
        yaw: 0,
    }
}

/// A scene fixture without a collider: the light or the camera.
pub open spec fn fixture_rec(id: u64, kind: EntityKind) -> EntityRec {
    EntityRec {
        id,
        kind,
        parent: None,
        belongs_to: None,
        alive: true,
        cleanup: None,
        temp_wall: false,
        wall: false,
        visible: true,
        opaque: true,
        has_collider: false,
        color: GroundColor::Green,
        yaw: 0,
    }
}

/// The eight records scene setup appends: the first ground's family (its
/// root already armed with the overheat countdown, since it becomes the
/// current ground at once), the game-over sensor, the ball, the light and
/// the camera.
pub open spec fn scene_entities(id: u64) -> Seq<EntityRec> {
    seq![
        EntityRec {
            cleanup: Some(Cleanup::OnTimeout { remaining_ms: GROUND_OVERHEAT_DURATION_MS }),
            ..ground_root_rec(id)
        },
        ground_mesh_rec((id + 1) as u64, id),
        ground_sensor_rec((id + 2) as u64, id, EntityKind::GroundSurfaceSensor),
        ground_sensor_rec((id + 3) as u64, id, EntityKind::GroundMidSensor),
        game_over_sensor_rec((id + 4) as u64),
        ball_rec((id + 5) as u64),
        fixture_rec((id + 6) as u64, EntityKind::MyLight),
        fixture_rec((id + 7) as u64, EntityKind::MyCamera),
    ]
}

/// Outcome of scene setup: the store, the id allocator, and the chain state
/// registering the first ground as current. Nothing at all is spawned when
/// the collision-volume construction failed or the id space is exhausted:
/// the setup aborts whole, leaving no partial scene, and is retried on the
/// next frame.
pub open spec fn spec_scene_setup(
    s: Seq<EntityRec>,
    next_id: u64,
    res: GroundsResource,
    geometry_ok: bool,
) -> (Seq<EntityRec>, u64, GroundsResource, bool) {
    if !geometry_ok || next_id > u64::MAX - 8 {
        (s, next_id, res, false)
    } else {
        (
            s + scene_entities(next_id),
            (next_id + 8) as u64,
            GroundsResource {
                previous_ground: None,
                current_ground: Some(next_id),
                next_ground: None,
            },
            true,
        )
    }
}

/// Sets the scene up: spawns the first ground with its children, the
/// game-over sensor, the ball, the light and the camera, registers the
/// ground as the chain's current ground and arms its overheat countdown.
/// Returns whether setup completed; on a geometry failure nothing is
/// spawned and the caller retries next frame.
pub fn scene_setup(world: &mut GameWorld, res: &mut GroundsResource, geometry_ok: bool) -> (done:
    bool)
    ensures
        final(world).entities@ == spec_scene_setup(
            old(world).entities@,
            old(world).next_id,
            *old(res),
            geometry_ok,
        ).0,
        final(world).next_id == spec_scene_setup(
            old(world).entities@,
            old(world).next_id,
            *old(res),
            geometry_ok,
        ).1,
        *final(res) == spec_scene_setup(
            old(world).entities@,
            old(world).next_id,
            *old(res),
            geometry_ok,
        ).2,
        done == spec_scene_setup(
            old(world).entities@,
            old(world).next_id,
            *old(res),
            geometry_ok,
        ).3,
{
    if !geometry_ok || world.next_id > u64::MAX - 8 {
        return false;
    }
    let id = world.next_id;
    world.entities.push(EntityRec {
        id,
        kind: EntityKind::Ground,
        parent: None,
        belongs_to: Some(id),
        alive: true,
        cleanup: Some(Cleanup::OnTimeout { remaining_ms: GROUND_OVERHEAT_DURATION_MS }),
        temp_wall: false,
        wall: false,
        visible: true,
        opaque: true,
        has_collider: false,
        color: GroundColor::Green,
        yaw: 0,
    });
    world.entities.push(EntityRec {
        id: id + 1,
        kind: EntityKind::GroundMesh,
        parent: Some(id),
        belongs_to: Some(id),
        alive: true,
        cleanup: None,
        temp_wall: false,
        wall: false,
        visible: true,
        opaque: true,
        has_collider: true,
        color: GroundColor::Green,
        yaw: 0,
    });
    world.entities.push(EntityRec {
        id: id + 2,
        kind: EntityKind::GroundSurfaceSensor,
        parent: Some(id),
        belongs_to: Some(id),
        alive: true,
        cleanup: None,
        temp_wall: false,
        wall: false,
        visible: false,
        opaque: true,
        has_collider: true,
        color: GroundColor::Blue,
        yaw: 0,
    });
    world.entities.push(EntityRec {
        id: id + 3,
        kind: EntityKind::GroundMidSensor,
        parent: Some(id),
        belongs_to: Some(id),
        alive: true,
        cleanup: None,
        temp_wall: false,
        wall: false,
        visible: false,
        opaque: true,
        has_collider: true,
        color: GroundColor::Blue,
        yaw: 0,
    });
    world.entities.push(EntityRec {
        id: id + 4,
        kind: EntityKind::GameOverSensor,
        parent: None,
        belongs_to: None,
        alive: true,
        cleanup: None,
        temp_wall: false,
        wall: false,
        visible: false,
        opaque: true,
        has_collider: true,
        color: GroundColor::Blue,
        yaw: 0,
    });
    world.entities.push(EntityRec {
        id: id + 5,
        kind: EntityKind::RollingBall,
        parent: None,
        belongs_to: None,
        alive: true,
        cleanup: None,
        temp_wall: false,
        wall: false,
        visible: true,
        opaque: true,
        has_collider: true,
        color: GroundColor::Green,
        yaw: 0,
    });
    world.entities.push(EntityRec {
        id: id + 6,
        kind: EntityKind::MyLight,
        parent: None,
        belongs_to: None,
        alive: true,
        cleanup: None,
        temp_wall: false,
        wall: false,
        visible: true,
        opaque: true,
        has_collider: false,
        color: GroundColor::Green,
        yaw: 0,
    });
    world.entities.push(EntityRec {
        id: id + 7,
        kind: EntityKind::MyCamera,
        parent: None,
        belongs_to: None,
        alive: true,
        cleanup: None,
        temp_wall: false,
        wall: false,
        visible: true,
        opaque: true,
        has_collider: false,
        color: GroundColor::Green,
        yaw: 0,
    });
    world.next_id = id + 8;
    res.previous_ground = None;
    res.current_ground = Some(id);
    res.next_ground = None;
    proof {
        assert(world.entities@ =~= old(world).entities@ + scene_entities(id));
    }
    true
}

/// The entity kinds a restart marks for recursive cleanup: the ball, the
/// grounds, the lights, the cameras and the game-over sensors. Their
/// children go down with them when the scheduler runs.
pub open spec fn marked_on_restart(kind: EntityKind) -> bool {
    match kind {
        EntityKind::RollingBall => true,
        EntityKind::Ground => true,
        EntityKind::MyLight => true,
        EntityKind::MyCamera => true,
        EntityKind::GameOverSensor => true,
        _ => false,
    }
}

/// Every living entity of a marked kind carrying a recursive cleanup
/// directive; everything else untouched.
pub open spec fn spec_mark_restart(s: Seq<EntityRec>) -> Seq<EntityRec> {
    Seq::new(
        s.len(),
        |i: int|
            if s[i].alive && marked_on_restart(s[i].kind) {
                EntityRec { cleanup: Some(Cleanup::Recursive), ..s[i] }
            } else {
                s[i]
            },
    )
}

/// One scene event's effect: a restart archives the live scores, resets the
/// chain to its default, marks the scene for recursive cleanup and requests
/// the menu state; a start signal is reserved and does nothing.
pub open spec fn spec_handle_scene_event(
    s: Seq<EntityRec>,
    res: GroundsResource,
    scores: ScoresResource,
    prev: Seq<ScoresResource>,
    event: SceneEvent,
) -> (Seq<EntityRec>, GroundsResource, Seq<ScoresResource>, Option<GameState>) {
    match event {
        SceneEvent::Start => (s, res, prev, None),
        SceneEvent::Restart => (
            spec_mark_restart(s),
            GroundsResource::spec_default(),
            prev.push(scores),
            Some(GameState::Menu),
        ),
    }
}

/// A whole batch of scene events, in order; the last requested state wins.
pub open spec fn spec_handle_scene_events(
    s: Seq<EntityRec>,
    res: GroundsResource,
    scores: ScoresResource,
    prev: Seq<ScoresResource>,
    events: Seq<SceneEvent>,
) -> (Seq<EntityRec>, GroundsResource, Seq<ScoresResource>, Option<GameState>)
    decreases events.len(),
{
    if events.len() == 0 {
        (s, res, prev, None)
    } else {
        let (s1, r1, p1, n1) = spec_handle_scene_events(s, res, scores, prev, events.drop_last());
        let (s2, r2, p2, n2) = spec_handle_scene_event(s1, r1, scores, p1, events.last());
        (s2, r2, p2, if n2 is Some {
            n2
        } else {
            n1
        })
    }
}

/// Handles one scene event. On restart: the live score record is appended
/// to the archive, the chain state returns to its default, every ball,
/// ground, light, camera and game-over sensor is marked for recursive
/// cleanup, and the menu state is requested.
pub fn handle_scene_event(
    world: &mut GameWorld,
    res: &mut GroundsResource,
    scores: &ScoresResource,
    prev_scores: &mut PreviousScoresRes,
    event: &SceneEvent,
) -> (next: Option<GameState>)
    ensures
        final(world).next_id == old(world).next_id,
        final(world).entities@ == spec_handle_scene_event(
            old(world).entities@,
            *old(res),
            *scores,
            old(prev_scores).0@,
            *event,
        ).0,
        *final(res) == spec_handle_scene_event(
            old(world).entities@,
            *old(res),
            *scores,
            old(prev_scores).0@,
            *event,
        ).1,
        final(prev_scores).0@ == spec_handle_scene_event(
            old(world).entities@,
            *old(res),
            *scores,
            old(prev_scores).0@,
            *event,
        ).2,
        next == spec_handle_scene_event(
            old(world).entities@,
            *old(res),
            *scores,
            old(prev_scores).0@,
            *event,
        ).3,
{
    match event {
        SceneEvent::Start => None,
        SceneEvent::Restart => {
            prev_scores.0.push(*scores);
            res.previous_ground = None;
            res.current_ground = None;
            res.next_ground = None;
            let ghost s0 = world.entities@;
            let len = world.entities.len();
            let mut i: usize = 0;
            while i < len
                invariant
                    i <= len,
                    len == world.entities@.len(),
                    len == s0.len(),
                    world.next_id == old(world).next_id,
                    forall|k: int| 0 <= k < i ==> world.entities@[k] == spec_mark_restart(s0)[k],
                    forall|k: int| i <= k < len ==> world.entities@[k] == s0[k],
                decreases len - i,
            {
                let e = world.entities[i];
                let marked = match e.kind {
                    EntityKind::RollingBall => true,
                    EntityKind::Ground => true,
                    EntityKind::MyLight => true,
                    EntityKind::MyCamera => true,
                    EntityKind::GameOverSensor => true,
                    _ => false,
                };
                if e.alive && marked {
                    world.entities[i] = EntityRec { cleanup: Some(Cleanup::Recursive), ..e };
                }
                i += 1;
            }
            proof {
                assert(world.entities@ =~= spec_mark_restart(s0));
            }
            Some(GameState::Menu)
        },
    }
}

/// Handles a frame's batch of scene events in order.
pub fn handle_scene_events(
    world: &mut GameWorld,
    res: &mut GroundsResource,
    scores: &ScoresResource,
    prev_scores: &mut PreviousScoresRes,
    events: &Vec<SceneEvent>,
) -> (next: Option<GameState>)
    ensures
        final(world).next_id == old(world).next_id,
        final(world).entities@ == spec_handle_scene_events(
            old(world).entities@,
            *old(res),
            *scores,
            old(prev_scores).0@,
            events@,
        ).0,
        *final(res) == spec_handle_scene_events(
            old(world).entities@,
            *old(res),
            *scores,
            old(prev_scores).0@,
            events@,
        ).1,
        final(prev_scores).0@ == spec_handle_scene_events(
            old(world).entities@,
            *old(res),
            *scores,
            old(prev_scores).0@,
            events@,
        ).2,
        next == spec_handle_scene_events(
            old(world).entities@,
            *old(res),
            *scores,
            old(prev_scores).0@,
            events@,
        ).3,
{
    let ghost s0 = world.entities@;
    let ghost r0 = *res;
    let ghost p0 = prev_scores.0@;
    let mut next: Option<GameState> = None;
    let n = events.len();
    let mut i: usize = 0;
    while i < n
        invariant
            i <= n,
            n == events@.len(),
            world.next_id == old(world).next_id,
            world.entities@ == spec_handle_scene_events(
                s0,
                r0,
                *scores,
                p0,
                events@.subrange(0, i as int),
            ).0,
            *res == spec_handle_scene_events(s0, r0, *scores, p0, events@.subrange(0, i as int)).1,
            prev_scores.0@ == spec_handle_scene_events(
                s0,
                r0,
                *scores,
                p0,
                events@.subrange(0, i as int),
            ).2,
            next == spec_handle_scene_events(
                s0,
                r0,
                *scores,
                p0,
                events@.subrange(0, i as int),
            ).3,
        decreases n - i,
    {
        proof {
            assert(events@.subrange(0, i + 1).drop_last() =~= events@.subrange(0, i as int));
            assert(events@.subrange(0, i + 1).last() == events@[i as int]);
        }
        let step = handle_scene_event(world, res, scores, prev_scores, &events[i]);
        match step {
            Some(state) => {
                next = Some(state);
            },
            None => {},
        }
        i += 1;
    }
    proof {
        assert(events@.subrange(0, n as int) =~= events@);
    }
    next
}

/// Marking for cleanup changes no id, parent or liveness: well-formedness
/// of the store survives a restart.
pub proof fn lemma_mark_restart_preserves_wf(s: Seq<EntityRec>, next_id: u64)
    requires
        crate::world::ids_increasing(s),
        crate::world::ids_bounded(s, next_id),
        crate::world::parent_ids_bounded(s, next_id),
        crate::world::belongs_ids_bounded(s, next_id),
        crate::world::parents_are_roots(s),
    ensures
        crate::world::ids_increasing(spec_mark_restart(s)),
        crate::world::ids_bounded(spec_mark_restart(s), next_id),
        crate::world::parent_ids_bounded(spec_mark_restart(s), next_id),
        crate::world::belongs_ids_bounded(spec_mark_restart(s), next_id),
        crate::world::parents_are_roots(spec_mark_restart(s)),
{
    let s1 = spec_mark_restart(s);
    assert(forall|i: int| 0 <= i < s.len() ==> #[trigger] s1[i].id == s[i].id);
    assert(forall|i: int| 0 <= i < s.len() ==> #[trigger] s1[i].parent == s[i].parent);
    assert(forall|i: int| 0 <= i < s.len() ==> #[trigger] s1[i].belongs_to == s[i].belongs_to);
}

/// Scene setup appends fresh ids above every stored one and only root
/// entities or children of the new root: the store stays well-formed.
pub proof fn lemma_scene_setup_preserves_wf(
    s: Seq<EntityRec>,
    next_id: u64,
    res: GroundsResource,
    geometry_ok: bool,
)
    requires
        crate::world::ids_increasing(s),
        crate::world::ids_bounded(s, next_id),
        crate::world::parent_ids_bounded(s, next_id),
        crate::world::belongs_ids_bounded(s, next_id),
        crate::world::parents_are_roots(s),
    ensures
        crate::world::ids_increasing(spec_scene_setup(s, next_id, res, geometry_ok).0),
        crate::world::ids_bounded(
            spec_scene_setup(s, next_id, res, geometry_ok).0,
            spec_scene_setup(s, next_id, res, geometry_ok).1,
        ),
        crate::world::parent_ids_bounded(
            spec_scene_setup(s, next_id, res, geometry_ok).0,
            spec_scene_setup(s, next_id, res, geometry_ok).1,
        ),
        crate::world::belongs_ids_bounded(
            spec_scene_setup(s, next_id, res, geometry_ok).0,
            spec_scene_setup(s, next_id, res, geometry_ok).1,
        ),
        crate::world::parents_are_roots(spec_scene_setup(s, next_id, res, geometry_ok).0),
{
    if geometry_ok && next_id <= u64::MAX - 8 {
        let s1 = s + scene_entities(next_id);
        assert forall|i: int, j: int|
            #![trigger s1[i].parent, s1[j].id]
            0 <= i < s1.len() && 0 <= j < s1.len() && s1[i].parent == Some(s1[j].id)
                implies s1[j].parent is None by {
            if i < s.len() && j >= s.len() {
                assert(s[i].parent == Some(s1[j].id));
                assert(false);
            }
        }
    }
}

/// A ground spawn appends fresh ids above every stored one, children whose
/// parent is the new root, and touches nothing else: the store stays
/// well-formed.
pub proof fn lemma_spawn_ground_preserves_wf(s: Seq<EntityRec>, next_id: u64, geometry_ok: bool)
    requires
        crate::world::ids_increasing(s),
        crate::world::ids_bounded(s, next_id),
        crate::world::parent_ids_bounded(s, next_id),
        crate::world::belongs_ids_bounded(s, next_id),
        crate::world::parents_are_roots(s),
    ensures
        crate::world::ids_increasing(spec_spawn_ground(s, next_id, geometry_ok).0),
        crate::world::ids_bounded(
            spec_spawn_ground(s, next_id, geometry_ok).0,
            spec_spawn_ground(s, next_id, geometry_ok).1,
        ),
        crate::world::parent_ids_bounded(
            spec_spawn_ground(s, next_id, geometry_ok).0,
            spec_spawn_ground(s, next_id, geometry_ok).1,
        ),
        crate::world::belongs_ids_bounded(
            spec_spawn_ground(s, next_id, geometry_ok).0,
            spec_spawn_ground(s, next_id, geometry_ok).1,
        ),
        crate::world::parents_are_roots(spec_spawn_ground(s, next_id, geometry_ok).0),
{
    if geometry_ok && next_id <= u64::MAX - 4 {
        let s1 = s + ground_family(next_id);
        assert forall|i: int, j: int|
            #![trigger s1[i].parent, s1[j].id]
            0 <= i < s1.len() && 0 <= j < s1.len() && s1[i].parent == Some(s1[j].id)
                implies s1[j].parent is None by {
            if i < s.len() && j >= s.len() {
                assert(s[i].parent == Some(s1[j].id));
                assert(false);
            }
        }
    }
}

} // verus!
