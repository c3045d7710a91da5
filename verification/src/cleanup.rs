//! The cleanup scheduler: deferred destruction of entities.
//!
//! Any system may attach a [`Cleanup`] directive to an entity; only this
//! scheduler performs the destruction, once per frame and before all
//! gameplay systems, so no system ever observes an entity mid-destruction.
//! Timed directives count down and destroy the entity's subtree on expiry;
//! the other variants perform their destruction mode on the next run.
//! Destroying an already dead entity is a no-op, never an error.

use vstd::prelude::*;

use crate::components::{Cleanup, EntityRec};
use crate::world::{ids_contain, GameWorld};

verus! {

/// The directive of this living entity fires this frame in a way that
/// destroys the entity together with its descendants.
pub open spec fn fires_subtree(e: EntityRec, delta_ms: u64) -> bool {
    e.alive && match e.cleanup {
        Some(Cleanup::OnTimeout { remaining_ms }) => remaining_ms <= delta_ms,
        Some(Cleanup::Recursive) => true,
        _ => false,
    }
}

/// The directive of this living entity fires this frame in a way that
/// destroys the entity's descendants (whether or not the entity itself dies).
pub open spec fn fires_descendants(e: EntityRec, delta_ms: u64) -> bool {
    fires_subtree(e, delta_ms) || (e.alive && e.cleanup matches Some(Cleanup::OnlyDescendants))
}

/// The directive of this living entity fires this frame in a way that
/// destroys the entity itself (whether or not its descendants die).
pub open spec fn fires_self(e: EntityRec, delta_ms: u64) -> bool {
    fires_subtree(e, delta_ms) || (e.alive && e.cleanup matches Some(Cleanup::OnlyEntity))
}

/// `id` is the id of a living entity whose directive destroys its
/// descendants this run.
pub open spec fn is_dooming_id(s: Seq<EntityRec>, delta_ms: u64, id: u64) -> bool {
    exists|j: int|
        0 <= j < s.len() && #[trigger] s[j].id == id && fires_descendants(s[j], delta_ms)
}

/// Entity `i` dies because its parent's directive destroys its descendants.
pub open spec fn parent_dooms(s: Seq<EntityRec>, delta_ms: u64, i: int) -> bool {
    s[i].parent matches Some(p) && is_dooming_id(s, delta_ms, p)
}

/// Entity `i` is destroyed by this frame's cleanup run.
pub open spec fn removed(s: Seq<EntityRec>, delta_ms: u64, i: int) -> bool {
    fires_self(s[i], delta_ms) || parent_dooms(s, delta_ms, i)
}

/// What is left of a directive after a run: expired or fired directives are
/// consumed, a still-running countdown keeps ticking.
pub open spec fn directive_after(c: Option<Cleanup>, delta_ms: u64) -> Option<Cleanup> {
    match c {
        Some(Cleanup::OnTimeout { remaining_ms }) => if remaining_ms <= delta_ms {
            None
        } else {
            Some(Cleanup::OnTimeout { remaining_ms: (remaining_ms - delta_ms) as u64 })
        },
        Some(_) => None,
        None => None,
    }
}

/// Entity `i` after the run: possibly dead, its directive ticked or
/// consumed; every other field untouched. Directives of entities that were
/// already dead are left alone.
pub open spec fn cleanup_rec(s: Seq<EntityRec>, delta_ms: u64, i: int) -> EntityRec {
    let e = s[i];
    EntityRec {
        alive: e.alive && !removed(s, delta_ms, i),
        cleanup: if e.alive {
            directive_after(e.cleanup, delta_ms)
        } else {
            e.cleanup
        },
        ..e
    }
}

/// The whole store after one cleanup run with `delta_ms` elapsed since the
/// previous one.
pub open spec fn spec_cleanup(s: Seq<EntityRec>, delta_ms: u64) -> Seq<EntityRec> {
    Seq::new(s.len(), |i: int| cleanup_rec(s, delta_ms, i))
}

/// Exec mirror of [`fires_subtree`].
fn entity_fires_subtree(e: &EntityRec, delta_ms: u64) -> (r: bool)
    ensures
        r == fires_subtree(*e, delta_ms),
{
    e.alive && match e.cleanup {
        Some(Cleanup::OnTimeout { remaining_ms }) => remaining_ms <= delta_ms,
        Some(Cleanup::Recursive) => true,
        _ => false,
    }
}

/// Exec mirror of [`fires_descendants`].
fn entity_fires_descendants(e: &EntityRec, delta_ms: u64) -> (r: bool)
    ensures
        r == fires_descendants(*e, delta_ms),
{
    entity_fires_subtree(e, delta_ms) || (e.alive && match e.cleanup {
        Some(Cleanup::OnlyDescendants) => true,
        _ => false,
    })
}

/// Exec mirror of [`fires_self`].
fn entity_fires_self(e: &EntityRec, delta_ms: u64) -> (r: bool)
    ensures
        r == fires_self(*e, delta_ms),
{
    entity_fires_subtree(e, delta_ms) || (e.alive && match e.cleanup {
        Some(Cleanup::OnlyEntity) => true,
        _ => false,
    })
}

/// Exec mirror of [`directive_after`].
fn directive_after_run(c: &Option<Cleanup>, delta_ms: u64) -> (r: Option<Cleanup>)
    ensures
        r == directive_after(*c, delta_ms),
{
    match c {
        Some(Cleanup::OnTimeout { remaining_ms }) => {
            if *remaining_ms <= delta_ms {
                None
            } else {
                Some(Cleanup::OnTimeout { remaining_ms: *remaining_ms - delta_ms })
            }
        },
        Some(_) => None,
        None => None,
    }
}

/// One cleanup run. Every living entity whose directive fires is destroyed
/// according to the directive's mode, destruction of a subtree cascades to
/// the children, running countdowns tick down by `delta_ms`, and fired
/// directives are consumed. Nothing else about the store changes.
pub fn cleanup(world: &mut GameWorld, delta_ms: u64)
    ensures
        final(world).next_id == old(world).next_id,
        final(world).entities@ == spec_cleanup(old(world).entities@, delta_ms),
{
    let ghost s0 = world.entities@;
    let n = world.entities.len();

    // First pass: remember the ids of the living entities whose directive
    // destroys their descendants this run.
    let mut dooming: Vec<u64> = Vec::new();
    let mut i: usize = 0;
    while i < n
        invariant
            i <= n,
            n == world.entities@.len(),
            world.entities@ == s0,
            forall|k: int|
                0 <= k < dooming@.len() ==> is_dooming_id(s0, delta_ms, #[trigger] dooming@[k]),
            forall|j: int|
                0 <= j < i && #[trigger] fires_descendants(s0[j], delta_ms) ==> dooming@.contains(
                    s0[j].id,
                ),
        decreases n - i,
    {
        let ghost d0 = dooming@;
        if entity_fires_descendants(&world.entities[i], delta_ms) {
            dooming.push(world.entities[i].id);
            proof {
                assert(is_dooming_id(s0, delta_ms, s0[i as int].id)) by {
                    assert(s0[i as int].id == s0[i as int].id && fires_descendants(
                        s0[i as int],
                        delta_ms,
                    ));
                }
                assert forall|j: int|
                    0 <= j <= i && #[trigger] fires_descendants(s0[j], delta_ms)
                        implies dooming@.contains(s0[j].id) by {
                    if j < i {
                        let k = choose|k: int| 0 <= k < d0.len() && d0[k] == s0[j].id;
                        assert(dooming@[k] == s0[j].id);
                    } else {
                        assert(dooming@[dooming@.len() - 1] == s0[j].id);
                    }
                }
            }
        }
        i += 1;
    }

    // Second pass: apply the run to each record, reading only this record
    // (untouched so far) and the id list gathered from the old state.
    let mut i: usize = 0;
    while i < n
        invariant
            i <= n,
            n == world.entities@.len(),
            n == s0.len(),
            world.next_id == old(world).next_id,
            forall|k: int| 0 <= k < i ==> world.entities@[k] == cleanup_rec(s0, delta_ms, k),
            forall|k: int| i <= k < n ==> world.entities@[k] == s0[k],
            forall|k: int|
                0 <= k < dooming@.len() ==> is_dooming_id(s0, delta_ms, #[trigger] dooming@[k]),
            forall|j: int|
                0 <= j < n && #[trigger] fires_descendants(s0[j], delta_ms) ==> dooming@.contains(
                    s0[j].id,
                ),
        decreases n - i,
    {
        let e = world.entities[i];
        let doomed_by_parent = match e.parent {
            Some(p) => ids_contain(&dooming, p),
            None => false,
        };
        proof {
            assert(e == s0[i as int]);
            assert(doomed_by_parent == parent_dooms(s0, delta_ms, i as int)) by {
                match e.parent {
                    Some(p) => {
                        if doomed_by_parent {
                            let k = choose|k: int| 0 <= k < dooming@.len() && dooming@[k] == p;
                            assert(is_dooming_id(s0, delta_ms, dooming@[k]));
                        } else {
                            if is_dooming_id(s0, delta_ms, p) {
                                let j = choose|j: int|
                                    0 <= j < s0.len() && #[trigger] s0[j].id == p
                                        && fires_descendants(s0[j], delta_ms);
                                assert(dooming@.contains(s0[j].id));
                            }
                        }
                    },
                    None => {},
                }
            }
        }
        let fired_self = entity_fires_self(&e, delta_ms);
        let new_cleanup = if e.alive {
            directive_after_run(&e.cleanup, delta_ms)
        } else {
            e.cleanup
        };
        let updated = EntityRec {
            alive: e.alive && !(fired_self || doomed_by_parent),
            cleanup: new_cleanup,
            ..e
        };
        world.entities[i] = updated;
        i += 1;
    }
    proof {
        assert(world.entities@ =~= spec_cleanup(s0, delta_ms));
    }
}

/// A cleanup run never touches ids, kinds or parent links, so the store's
/// well-formedness survives it.
pub proof fn lemma_cleanup_preserves_wf(s: Seq<EntityRec>, next_id: u64, delta_ms: u64)
    requires
        crate::world::ids_increasing(s),
        crate::world::ids_bounded(s, next_id),
        crate::world::parent_ids_bounded(s, next_id),
        crate::world::belongs_ids_bounded(s, next_id),
        crate::world::parents_are_roots(s),
    ensures
        crate::world::ids_increasing(spec_cleanup(s, delta_ms)),
        crate::world::ids_bounded(spec_cleanup(s, delta_ms), next_id),
        crate::world::parent_ids_bounded(spec_cleanup(s, delta_ms), next_id),
        crate::world::belongs_ids_bounded(spec_cleanup(s, delta_ms), next_id),
        crate::world::parents_are_roots(spec_cleanup(s, delta_ms)),
{
    let s1 = spec_cleanup(s, delta_ms);
    assert(forall|i: int| 0 <= i < s.len() ==> #[trigger] s1[i].id == s[i].id);
    assert(forall|i: int| 0 <= i < s.len() ==> #[trigger] s1[i].parent == s[i].parent);
    assert(forall|i: int| 0 <= i < s.len() ==> #[trigger] s1[i].belongs_to == s[i].belongs_to);
}

} // verus!
