//! The library's laws: the whole-game invariant and the proofs that the
//! per-frame systems keep it, together with the properties the chain state,
//! the scoring and the wall pipeline promise.

use vstd::prelude::*;

use crate::cleanup::{lemma_cleanup_preserves_wf, spec_cleanup};
use crate::components::{Cleanup, EntityRec};
use crate::events::{SceneEvent, WallEvent};
use crate::game::{spec_game_tick, spec_run, FrameInput, TickState};
use crate::game_over_sensor::spec_handle_ground_game_over_sensor;
use crate::ground::{
    lemma_arm_overheat_preserves_wf, lemma_color_grounds_preserves_wf, spec_active_ground,
    spec_color_grounds, spec_handle_ground_sensor, spec_handle_mid_ground_sensor,
};
use crate::resources::{GroundsResource, ScoresResource};
use crate::scene::{
    ground_family, lemma_mark_restart_preserves_wf, lemma_scene_setup_preserves_wf,
    lemma_spawn_ground_preserves_wf, scene_entities, spec_handle_scene_event,
    spec_handle_scene_events, spec_mark_restart, spec_scene_setup,
};
use crate::state::GameState;
use crate::walls::{
    is_live_root, spec_commit_temp_wall, spec_handle_wall_event, spec_hide_temp_wall,
    spec_pick_ground_point, spec_update_temp_wall, temp_wall_count, temp_wall_rec,
};
use crate::world::{
    belongs_ids_bounded, ids_bounded, ids_increasing, parent_ids_bounded, parents_are_roots,
};

verus! {

/// Every ground id the chain state holds was handed out by the allocator.
pub open spec fn chain_ids_bounded(res: GroundsResource, next_id: u64) -> bool {
    &&& (res.previous_ground matches Some(g) ==> g < next_id)
    &&& (res.current_ground matches Some(g) ==> g < next_id)
    &&& (res.next_ground matches Some(g) ==> g < next_id)
}

/// The entity store's well-formedness, over its mathematical state.
pub open spec fn store_wf(s: Seq<EntityRec>, next_id: u64) -> bool {
    &&& ids_increasing(s)
    &&& ids_bounded(s, next_id)
    &&& parent_ids_bounded(s, next_id)
    &&& belongs_ids_bounded(s, next_id)
    &&& parents_are_roots(s)
}

/// A preview wall is always somebody's child, never a root.
pub open spec fn temp_walls_not_roots(s: Seq<EntityRec>) -> bool {
    forall|i: int| 0 <= i < s.len() && (#[trigger] s[i]).temp_wall ==> s[i].parent is Some
}

/// The whole-game invariant: a well-formed store, a chain state over known
/// ids that never names the same ground as current and next, and at most
/// one preview wall.
pub open spec fn game_inv(t: TickState) -> bool {
    &&& store_wf(t.entities, t.next_id)
    &&& chain_ids_bounded(t.grounds, t.next_id)
    &&& t.grounds.chain_ok()
    &&& temp_wall_count(t.entities) <= 1
    &&& temp_walls_not_roots(t.entities)
}

/// Where every live preview wall of `s2` was already one in `s1`, there are
/// no more of them in `s2` than in `s1`.
pub proof fn lemma_temp_wall_count_le(s1: Seq<EntityRec>, s2: Seq<EntityRec>)
    requires
        s1.len() == s2.len(),
        forall|i: int|
            0 <= i < s1.len() ==> ((#[trigger] s2[i]).alive && s2[i].temp_wall ==> s1[i].alive
                && s1[i].temp_wall),
    ensures
        temp_wall_count(s2) <= temp_wall_count(s1),
    decreases s1.len(),
{
    if s1.len() > 0 {
        lemma_temp_wall_count_le(s1.drop_last(), s2.drop_last());
    }
}

/// Appending one record adds it to the preview-wall count.
pub proof fn lemma_temp_wall_count_push(s: Seq<EntityRec>, e: EntityRec)
    ensures
        temp_wall_count(s.push(e)) == temp_wall_count(s) + (if e.alive && e.temp_wall {
            1nat
        } else {
            0nat
        }),
{
    assert(s.push(e).drop_last() =~= s);
    assert(s.push(e).last() == e);
}

/// A ground spawn adds no preview wall.
pub proof fn lemma_ground_family_temp_count(s: Seq<EntityRec>, id: u64)
    ensures
        temp_wall_count(s + ground_family(id)) == temp_wall_count(s),
{
    let f = ground_family(id);
    assert(s + f =~= s.push(f[0]).push(f[1]).push(f[2]).push(f[3]));
    lemma_temp_wall_count_push(s, f[0]);
    lemma_temp_wall_count_push(s.push(f[0]), f[1]);
    lemma_temp_wall_count_push(s.push(f[0]).push(f[1]), f[2]);
    lemma_temp_wall_count_push(s.push(f[0]).push(f[1]).push(f[2]), f[3]);
}

/// Scene setup adds no preview wall.
pub proof fn lemma_scene_entities_temp_count(s: Seq<EntityRec>, id: u64)
    ensures
        temp_wall_count(s + scene_entities(id)) == temp_wall_count(s),
{
    let f = scene_entities(id);
    assert(s + f =~= s.push(f[0]).push(f[1]).push(f[2]).push(f[3]).push(f[4]).push(f[5]).push(
        f[6],
    ).push(f[7]));
    lemma_temp_wall_count_push(s, f[0]);
    lemma_temp_wall_count_push(s.push(f[0]), f[1]);
    lemma_temp_wall_count_push(s.push(f[0]).push(f[1]), f[2]);
    lemma_temp_wall_count_push(s.push(f[0]).push(f[1]).push(f[2]), f[3]);
    lemma_temp_wall_count_push(s.push(f[0]).push(f[1]).push(f[2]).push(f[3]), f[4]);
    lemma_temp_wall_count_push(s.push(f[0]).push(f[1]).push(f[2]).push(f[3]).push(f[4]), f[5]);
    lemma_temp_wall_count_push(
        s.push(f[0]).push(f[1]).push(f[2]).push(f[3]).push(f[4]).push(f[5]),
        f[6],
    );
    lemma_temp_wall_count_push(
        s.push(f[0]).push(f[1]).push(f[2]).push(f[3]).push(f[4]).push(f[5]).push(f[6]),
        f[7],
    );
}

/// The resolved active ground is a stored back-reference, so it is below
/// the allocator's next id.
pub proof fn lemma_active_ground_bounded(s: Seq<EntityRec>, overlaps: Seq<u64>, next_id: u64)
    requires
        belongs_ids_bounded(s, next_id),
    ensures
        spec_active_ground(s, overlaps) matches Some(g) ==> g < next_id,
    decreases s.len(),
{
    if s.len() > 0 {
        assert(s.last() == s[s.len() - 1]);
        lemma_active_ground_bounded(s.drop_last(), overlaps, next_id);
    }
}

/// The surface sensor resolver keeps the invariant: the store only gains a
/// countdown, and an advanced chain points previous at the old current,
/// current at a stored back-reference and next at nothing.
pub proof fn lemma_ground_sensor_preserves_inv(
    s: Seq<EntityRec>,
    next_id: u64,
    res: GroundsResource,
    overlaps: Seq<u64>,
)
    requires
        store_wf(s, next_id),
        chain_ids_bounded(res, next_id),
        res.chain_ok(),
        temp_wall_count(s) <= 1,
        temp_walls_not_roots(s),
    ensures
        store_wf(spec_handle_ground_sensor(s, res, overlaps).0, next_id),
        chain_ids_bounded(spec_handle_ground_sensor(s, res, overlaps).1, next_id),
        spec_handle_ground_sensor(s, res, overlaps).1.chain_ok(),
        temp_wall_count(spec_handle_ground_sensor(s, res, overlaps).0) <= 1,
        temp_walls_not_roots(spec_handle_ground_sensor(s, res, overlaps).0),
{
    let (s1, r1) = spec_handle_ground_sensor(s, res, overlaps);
    lemma_active_ground_bounded(s, overlaps, next_id);
    if s1 != s {
        let g = spec_active_ground(s, overlaps).unwrap();
        lemma_arm_overheat_preserves_wf(s, next_id, g, crate::constants::GROUND_OVERHEAT_DURATION_MS);
    }
    assert(forall|i: int| 0 <= i < s.len() ==> (#[trigger] s1[i]).alive == s[i].alive);
    assert(forall|i: int| 0 <= i < s.len() ==> (#[trigger] s1[i]).temp_wall == s[i].temp_wall);
    assert(forall|i: int| 0 <= i < s.len() ==> (#[trigger] s1[i]).parent == s[i].parent);
    lemma_temp_wall_count_le(s, s1);
}

/// The mid sensor resolver keeps the invariant: a pending next ground is a
/// freshly allocated id, distinct from the bounded current one.
pub proof fn lemma_mid_sensor_preserves_inv(
    s: Seq<EntityRec>,
    next_id: u64,
    res: GroundsResource,
    overlaps: Seq<u64>,
    geometry_ok: bool,
)
    requires
        store_wf(s, next_id),
        chain_ids_bounded(res, next_id),
        res.chain_ok(),
        temp_wall_count(s) <= 1,
        temp_walls_not_roots(s),
    ensures
        store_wf(
            spec_handle_mid_ground_sensor(s, next_id, res, overlaps, geometry_ok).0,
            spec_handle_mid_ground_sensor(s, next_id, res, overlaps, geometry_ok).1,
        ),
        chain_ids_bounded(
            spec_handle_mid_ground_sensor(s, next_id, res, overlaps, geometry_ok).2,
            spec_handle_mid_ground_sensor(s, next_id, res, overlaps, geometry_ok).1,
        ),
        spec_handle_mid_ground_sensor(s, next_id, res, overlaps, geometry_ok).2.chain_ok(),
        temp_wall_count(spec_handle_mid_ground_sensor(s, next_id, res, overlaps, geometry_ok).0)
            <= 1,
        temp_walls_not_roots(
            spec_handle_mid_ground_sensor(s, next_id, res, overlaps, geometry_ok).0,
        ),
        next_id <= spec_handle_mid_ground_sensor(s, next_id, res, overlaps, geometry_ok).1,
{
    let (s1, n1, r1) = spec_handle_mid_ground_sensor(s, next_id, res, overlaps, geometry_ok);
    if s1 != s {
        lemma_spawn_ground_preserves_wf(s, next_id, true);
        lemma_ground_family_temp_count(s, next_id);
        assert(forall|i: int|
            0 <= i < s.len() ==> (s + ground_family(next_id))[i] == #[trigger] s[i]);
        assert forall|i: int|
            0 <= i < s1.len() && (#[trigger] s1[i]).temp_wall implies s1[i].parent is Some by {
            if i >= s.len() {
                assert(s1[i] == ground_family(next_id)[i - s.len()]);
            }
        }
    }
}

/// One wall event keeps the invariant: a spawned preview is the only one
/// and a child of a living root, a reused preview stays a child, a commit
/// only turns the preview permanent.
pub proof fn lemma_wall_event_preserves_inv(
    s: Seq<EntityRec>,
    next_id: u64,
    event: WallEvent,
    geometry_ok: bool,
)
    requires
        store_wf(s, next_id),
        temp_wall_count(s) <= 1,
        temp_walls_not_roots(s),
    ensures
        store_wf(
            spec_handle_wall_event(s, next_id, event, geometry_ok).0,
            spec_handle_wall_event(s, next_id, event, geometry_ok).1,
        ),
        temp_wall_count(spec_handle_wall_event(s, next_id, event, geometry_ok).0) <= 1,
        temp_walls_not_roots(spec_handle_wall_event(s, next_id, event, geometry_ok).0),
        next_id <= spec_handle_wall_event(s, next_id, event, geometry_ok).1,
{
    let (s1, n1) = spec_handle_wall_event(s, next_id, event, geometry_ok);
    match event {
        WallEvent::HoverUpdate { ground, yaw } => {
            if is_live_root(s, ground) {
                let w = choose|k: int|
                    0 <= k < s.len() && #[trigger] s[k].id == ground && s[k].alive && s[k].parent
                        is None;
                assert(s[w].id < next_id);
                if temp_wall_count(s) == 0 && next_id != u64::MAX {
                    let e = temp_wall_rec(next_id, ground, yaw);
                    assert(s1 =~= s.push(e));
                    lemma_temp_wall_count_push(s, e);
                    assert forall|i: int, j: int|
                        #![trigger s1[i].parent, s1[j].id]
                        0 <= i < s1.len() && 0 <= j < s1.len() && s1[i].parent == Some(s1[j].id)
                            implies s1[j].parent is None by {
                        if i < s.len() {
                            if j < s.len() {
                            } else {
                                assert(s[i].parent == Some(next_id));
                                assert(false);
                            }
                        } else {
                            assert(s1[i].parent == Some(ground));
                            if j < s.len() {
                                assert(s[j].id == ground);
                                if j != w {
                                    if j < w {
                                        assert(s[j].id < s[w].id);
                                    } else {
                                        assert(s[w].id < s[j].id);
                                    }
                                    assert(false);
                                }
                            } else {
                                assert(s1[j].id == next_id);
                                assert(ground == next_id);
                                assert(false);
                            }
                        }
                    }
                } else if temp_wall_count(s) == 1 {
                    assert(s1 == spec_update_temp_wall(s, ground, yaw));
                    assert(forall|i: int|
                        0 <= i < s.len() ==> (#[trigger] s1[i]).id == s[i].id
                            && s1[i].alive == s[i].alive && s1[i].temp_wall == s[i].temp_wall
                            && s1[i].belongs_to == s[i].belongs_to);
                    lemma_temp_wall_count_le(s, s1);
                    lemma_temp_wall_count_le(s1, s);
                    assert forall|i: int, j: int|
                        #![trigger s1[i].parent, s1[j].id]
                        0 <= i < s1.len() && 0 <= j < s1.len() && s1[i].parent == Some(s1[j].id)
                            implies s1[j].parent is None by {
                        if s[i].alive && s[i].temp_wall {
                            // The preview wall now points at the living root.
                            assert(s1[i].parent == Some(ground));
                            assert(s[j].id == ground);
                            if j != w {
                                if j < w {
                                    assert(s[j].id < s[w].id);
                                } else {
                                    assert(s[w].id < s[j].id);
                                }
                                assert(false);
                            }
                            assert(!(s[w].alive && s[w].temp_wall));
                        } else {
                            assert(s1[i].parent == s[i].parent);
                            assert(s[j].parent is None);
                            assert(!(s[j].alive && s[j].temp_wall));
                        }
                    }
                }
            }
        },
        WallEvent::HoverStop => {
            if temp_wall_count(s) == 1 {
                assert(s1 == spec_hide_temp_wall(s));
                assert(forall|i: int|
                    0 <= i < s.len() ==> (#[trigger] s1[i]).id == s[i].id && s1[i].alive
                        == s[i].alive && s1[i].temp_wall == s[i].temp_wall && s1[i].parent
                        == s[i].parent && s1[i].belongs_to == s[i].belongs_to);
                lemma_temp_wall_count_le(s, s1);
                lemma_temp_wall_count_le(s1, s);
            }
        },
        WallEvent::Draw => {
            if temp_wall_count(s) == 1 && geometry_ok {
                assert(s1 == spec_commit_temp_wall(s));
                assert(forall|i: int|
                    0 <= i < s.len() ==> (#[trigger] s1[i]).id == s[i].id && s1[i].alive
                        == s[i].alive && s1[i].parent == s[i].parent && s1[i].belongs_to
                        == s[i].belongs_to);
                lemma_temp_wall_count_le(s, s1);
            }
        },
    }
}

/// One scene event keeps the invariant: a restart only adds directives and
/// resets the chain to its (trivially well-formed) default.
pub proof fn lemma_scene_event_preserves_inv(
    s: Seq<EntityRec>,
    next_id: u64,
    res: GroundsResource,
    scores: ScoresResource,
    prev: Seq<ScoresResource>,
    event: SceneEvent,
)
    requires
        store_wf(s, next_id),
        chain_ids_bounded(res, next_id),
        res.chain_ok(),
        temp_wall_count(s) <= 1,
        temp_walls_not_roots(s),
    ensures
        store_wf(spec_handle_scene_event(s, res, scores, prev, event).0, next_id),
        chain_ids_bounded(spec_handle_scene_event(s, res, scores, prev, event).1, next_id),
        spec_handle_scene_event(s, res, scores, prev, event).1.chain_ok(),
        temp_wall_count(spec_handle_scene_event(s, res, scores, prev, event).0) <= 1,
        temp_walls_not_roots(spec_handle_scene_event(s, res, scores, prev, event).0),
{
    let (s1, r1, p1, n1) = spec_handle_scene_event(s, res, scores, prev, event);
    match event {
        SceneEvent::Start => {},
        SceneEvent::Restart => {
            lemma_mark_restart_preserves_wf(s, next_id);
            assert(s1 == spec_mark_restart(s));
            assert(forall|i: int|
                0 <= i < s.len() ==> (#[trigger] s1[i]).alive == s[i].alive && s1[i].temp_wall
                    == s[i].temp_wall && s1[i].parent == s[i].parent);
            lemma_temp_wall_count_le(s, s1);
            lemma_temp_wall_count_le(s1, s);
        },
    }
}

/// A whole batch of scene events keeps the invariant.
pub proof fn lemma_scene_events_preserve_inv(
    s: Seq<EntityRec>,
    next_id: u64,
    res: GroundsResource,
    scores: ScoresResource,
    prev: Seq<ScoresResource>,
    events: Seq<SceneEvent>,
)
    requires
        store_wf(s, next_id),
        chain_ids_bounded(res, next_id),
        res.chain_ok(),
        temp_wall_count(s) <= 1,
        temp_walls_not_roots(s),
    ensures
        store_wf(spec_handle_scene_events(s, res, scores, prev, events).0, next_id),
        chain_ids_bounded(spec_handle_scene_events(s, res, scores, prev, events).1, next_id),
        spec_handle_scene_events(s, res, scores, prev, events).1.chain_ok(),
        temp_wall_count(spec_handle_scene_events(s, res, scores, prev, events).0) <= 1,
        temp_walls_not_roots(spec_handle_scene_events(s, res, scores, prev, events).0),
    decreases events.len(),
{
    if events.len() > 0 {
        lemma_scene_events_preserve_inv(s, next_id, res, scores, prev, events.drop_last());
        let (s1, r1, p1, n1) = spec_handle_scene_events(s, res, scores, prev, events.drop_last());
        lemma_scene_event_preserves_inv(s1, next_id, r1, scores, p1, events.last());
    }
}

/// One whole frame keeps the invariant.
pub proof fn lemma_tick_preserves_inv(t: TickState, input: FrameInput)
    requires
        game_inv(t),
    ensures
        game_inv(spec_game_tick(t, input)),
{
    let s0 = t.entities;
    let c = spec_cleanup(s0, input.delta_ms);
    lemma_cleanup_preserves_wf(s0, t.next_id, input.delta_ms);
    assert(forall|i: int| 0 <= i < s0.len() ==> ((#[trigger] c[i]).alive ==> s0[i].alive));
    assert(forall|i: int| 0 <= i < s0.len() ==> (#[trigger] c[i]).temp_wall == s0[i].temp_wall);
    assert(forall|i: int| 0 <= i < s0.len() ==> (#[trigger] c[i]).parent == s0[i].parent);
    lemma_temp_wall_count_le(s0, c);
    let t1 = TickState { entities: c, ..t };
    assert(game_inv(t1));
    match t1.state {
        GameState::Menu => {},
        GameState::SceneLoading => {
            let (s2, n2, g2, done) = spec_scene_setup(c, t.next_id, t.grounds, input.geometry_ok);
            if done {
                lemma_scene_setup_preserves_wf(c, t.next_id, t.grounds, input.geometry_ok);
                lemma_scene_entities_temp_count(c, t.next_id);
                assert(forall|i: int|
                    0 <= i < c.len() ==> (c + scene_entities(t.next_id))[i] == #[trigger] c[i]);
                assert forall|i: int|
                    0 <= i < s2.len() && (#[trigger] s2[i]).temp_wall implies s2[i].parent
                    is Some by {
                    if i >= c.len() {
                        assert(s2[i] == scene_entities(t.next_id)[i - c.len()]);
                    }
                }
            }
        },
        GameState::InGame => {
            let (s1, g1) = spec_handle_ground_sensor(c, t.grounds, input.surface_overlaps@);
            lemma_ground_sensor_preserves_inv(c, t.next_id, t.grounds, input.surface_overlaps@);
            let (s2, n2, g2) = spec_handle_mid_ground_sensor(
                s1,
                t.next_id,
                g1,
                input.mid_overlaps@,
                input.geometry_ok,
            );
            lemma_mid_sensor_preserves_inv(
                s1,
                t.next_id,
                g1,
                input.mid_overlaps@,
                input.geometry_ok,
            );
            let s3 = spec_color_grounds(s2, g2);
            lemma_color_grounds_preserves_wf(s2, n2, g2);
            assert(forall|i: int|
                0 <= i < s2.len() ==> (#[trigger] s3[i]).alive == s2[i].alive && s3[i].temp_wall
                    == s2[i].temp_wall && s3[i].parent == s2[i].parent);
            lemma_temp_wall_count_le(s2, s3);
            lemma_temp_wall_count_le(s3, s2);
            let sc1 = crate::scoring::spec_update_stopwatch(t.scores, input.delta_ms);
            let (sc2, last2) = crate::scoring::spec_update_grounds_passed(
                g2,
                sc1,
                t.last_counted,
            );
            let (ev, angle2) = spec_pick_ground_point(
                s3,
                g2,
                t.settings,
                input.cursor_present,
                input.raycast_hit,
                input.rotate_left,
                input.rotate_right,
                input.draw_pressed,
                t.wall_angle,
            );
            let (s4, n4) = match ev {
                Some(e) => spec_handle_wall_event(s3, n2, e, input.geometry_ok),
                None => (s3, n2),
            };
            match ev {
                Some(e) => {
                    lemma_wall_event_preserves_inv(s3, n2, e, input.geometry_ok);
                },
                None => {},
            }
            let evs = spec_handle_ground_game_over_sensor(s4, input.game_over_overlaps@);
            lemma_scene_events_preserve_inv(s4, n4, g2, sc2, t.previous_scores, evs);
        },
    }
}

/// The invariant holds after any sequence of frames, whatever the physics
/// service, the clock and the player do.
pub proof fn lemma_run_preserves_inv(t: TickState, inputs: Seq<FrameInput>)
    requires
        game_inv(t),
    ensures
        game_inv(spec_run(t, inputs)),
    decreases inputs.len(),
{
    if inputs.len() > 0 {
        lemma_run_preserves_inv(t, inputs.drop_last());
        lemma_tick_preserves_inv(spec_run(t, inputs.drop_last()), inputs.last());
    }
}

/// The state a fresh game starts from satisfies the invariant.
pub proof fn lemma_initial_inv()
    ensures
        game_inv(crate::game::initial_state()),
{
}

/// Over every sequence of frames — whatever intersection sets, raycasts,
/// inputs and clock readings they carry — the chain state never names the
/// same ground as current and pending next: `next_ground`, when set, always
/// differs from `current_ground`.
pub proof fn lemma_chain_never_current_as_next(t: TickState, inputs: Seq<FrameInput>)
    requires
        game_inv(t),
    ensures
        spec_run(t, inputs).grounds.next_ground is Some ==> spec_run(
            t,
            inputs,
        ).grounds.next_ground != spec_run(t, inputs).grounds.current_ground,
{
    lemma_run_preserves_inv(t, inputs);
}

/// Whenever the surface sensor resolver changes the chain at all, it sets
/// `previous_ground` to the chain's prior current ground — never an older
/// one — points `current_ground` at the resolved active ground, and clears
/// `next_ground`.
pub proof fn lemma_advance_updates_chain(
    s: Seq<EntityRec>,
    res: GroundsResource,
    overlaps: Seq<u64>,
)
    ensures
        spec_handle_ground_sensor(s, res, overlaps).1 != res ==> {
            &&& spec_handle_ground_sensor(s, res, overlaps).1.previous_ground
                == res.current_ground
            &&& spec_handle_ground_sensor(s, res, overlaps).1.next_ground is None
            &&& spec_handle_ground_sensor(s, res, overlaps).1.current_ground
                == spec_active_ground(s, overlaps)
        },
{
}

/// Spawning the next ground is idempotent: once a pending next ground is
/// recorded, a later frame's mid sensor resolver — whatever overlaps it
/// observes — changes nothing, so at most one ground is spawned per
/// distinct current ground.
pub proof fn lemma_next_spawn_idempotent(
    s: Seq<EntityRec>,
    next_id: u64,
    res: GroundsResource,
    overlaps: Seq<u64>,
    geometry_ok: bool,
    later_overlaps: Seq<u64>,
    later_geometry_ok: bool,
)
    requires
        spec_handle_mid_ground_sensor(s, next_id, res, overlaps, geometry_ok).2.next_ground
            is Some,
    ensures
        spec_handle_mid_ground_sensor(
            spec_handle_mid_ground_sensor(s, next_id, res, overlaps, geometry_ok).0,
            spec_handle_mid_ground_sensor(s, next_id, res, overlaps, geometry_ok).1,
            spec_handle_mid_ground_sensor(s, next_id, res, overlaps, geometry_ok).2,
            later_overlaps,
            later_geometry_ok,
        ) == spec_handle_mid_ground_sensor(s, next_id, res, overlaps, geometry_ok),
{
}

/// Restart is idempotent in effect: however many entities exist, handling
/// a restart leaves the chain state at its default, grows the score
/// archive by exactly one record (the live scores), requests the menu, and
/// marks every ball, ground, light, camera and game-over sensor for
/// recursive cleanup.
pub proof fn lemma_restart_resets(
    s: Seq<EntityRec>,
    res: GroundsResource,
    scores: ScoresResource,
    prev: Seq<ScoresResource>,
)
    ensures
        spec_handle_scene_event(s, res, scores, prev, SceneEvent::Restart).1
            == GroundsResource::spec_default(),
        spec_handle_scene_event(s, res, scores, prev, SceneEvent::Restart).2 == prev.push(scores),
        spec_handle_scene_event(s, res, scores, prev, SceneEvent::Restart).2.len() == prev.len()
            + 1,
        spec_handle_scene_event(s, res, scores, prev, SceneEvent::Restart).3 == Some(
            GameState::Menu,
        ),
        forall|i: int|
            0 <= i < s.len() && (#[trigger] s[i]).alive && crate::scene::marked_on_restart(
                s[i].kind,
            ) ==> spec_handle_scene_event(s, res, scores, prev, SceneEvent::Restart).0[i].cleanup
                == Some(Cleanup::Recursive),
{
}

/// The passed-platform counter counts distinct previous-ground transitions
/// exactly once: it increments by exactly one when a new previous ground
/// appears, and running the update again on the resulting state — as a
/// repeated frame with the same previous ground does — changes nothing.
pub proof fn lemma_passed_counter(
    res: GroundsResource,
    scores: ScoresResource,
    last_counted: Option<u64>,
)
    ensures
        (res.previous_ground is Some && last_counted != res.previous_ground
            && scores.grounds_passed < u64::MAX) ==> {
            &&& crate::scoring::spec_update_grounds_passed(
                res,
                scores,
                last_counted,
            ).0.grounds_passed == scores.grounds_passed + 1
            &&& crate::scoring::spec_update_grounds_passed(res, scores, last_counted).1
                == res.previous_ground
        },
        res.previous_ground is None ==> crate::scoring::spec_update_grounds_passed(
            res,
            scores,
            last_counted,
        ) == (scores, last_counted),
        crate::scoring::spec_update_grounds_passed(
            res,
            crate::scoring::spec_update_grounds_passed(res, scores, last_counted).0,
            crate::scoring::spec_update_grounds_passed(res, scores, last_counted).1,
        ) == crate::scoring::spec_update_grounds_passed(res, scores, last_counted),
{
}

/// A commit with no preview wall present is a no-op: the store, and with
/// it the number of living entities, is exactly what it was.
pub proof fn lemma_draw_without_preview_is_noop(s: Seq<EntityRec>, next_id: u64, geometry_ok: bool)
    requires
        temp_wall_count(s) == 0,
    ensures
        spec_handle_wall_event(s, next_id, WallEvent::Draw, geometry_ok).0 == s,
        spec_handle_wall_event(s, next_id, WallEvent::Draw, geometry_ok).1 == next_id,
        crate::world::alive_count(
            spec_handle_wall_event(s, next_id, WallEvent::Draw, geometry_ok).0,
        ) == crate::world::alive_count(s),
{
}

/// A timed directive of duration `t_ms` on a living root entity leaves the
/// entity alive through any cleanup run that falls short of the duration
/// (its countdown ticking down), and a run that reaches the duration
/// removes the entity and all its children.
pub proof fn lemma_timed_cleanup(s: Seq<EntityRec>, delta_ms: u64, i: int, t_ms: u64)
    requires
        0 <= i < s.len(),
        s[i].alive,
        s[i].parent is None,
        s[i].cleanup == Some(Cleanup::OnTimeout { remaining_ms: t_ms }),
    ensures
        t_ms > delta_ms ==> spec_cleanup(s, delta_ms)[i].alive && spec_cleanup(
            s,
            delta_ms,
        )[i].cleanup == Some(Cleanup::OnTimeout { remaining_ms: (t_ms - delta_ms) as u64 }),
        t_ms <= delta_ms ==> !spec_cleanup(s, delta_ms)[i].alive,
        t_ms <= delta_ms ==> forall|j: int|
            0 <= j < s.len() && (#[trigger] s[j]).parent == Some(s[i].id) ==> !spec_cleanup(
                s,
                delta_ms,
            )[j].alive,
{
    if t_ms <= delta_ms {
        assert forall|j: int|
            0 <= j < s.len() && (#[trigger] s[j]).parent == Some(s[i].id) implies !spec_cleanup(
            s,
            delta_ms,
        )[j].alive by {
            assert(crate::cleanup::fires_descendants(s[i], delta_ms));
            assert(crate::cleanup::is_dooming_id(s, delta_ms, s[i].id));
        }
    }
}

} // verus!
