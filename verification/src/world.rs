//! The entity store: an arena of entity records keyed by stable, strictly
//! increasing ids.
//!
//! Systems never hold pointers into the store; they look entities up by id.
//! Destruction marks a record dead rather than removing it, so a later lookup
//! of a stale id simply misses.

use vstd::prelude::*;

use crate::components::{EntityKind, EntityRec};

verus! {

/// The entity store. `next_id` is the id the next spawned entity will get.
#[derive(Clone, Debug)]
pub struct GameWorld {
    pub next_id: u64,
    pub entities: Vec<EntityRec>,
}

/// Entity ids appear in strictly increasing order: ids are unique and a
/// record's position never changes.
pub open spec fn ids_increasing(s: Seq<EntityRec>) -> bool {
    forall|i: int, j: int| 0 <= i < j < s.len() ==> s[i].id < s[j].id
}

/// Every stored id is below the allocator's next id, so a freshly allocated
/// id never collides with a stored one.
pub open spec fn ids_bounded(s: Seq<EntityRec>, next_id: u64) -> bool {
    forall|i: int| 0 <= i < s.len() ==> #[trigger] s[i].id < next_id
}

/// Every parent link refers below the allocator's next id, so a fresh id
/// never collides with a stored parent link either.
pub open spec fn parent_ids_bounded(s: Seq<EntityRec>, next_id: u64) -> bool {
    forall|i: int|
        0 <= i < s.len() ==> match #[trigger] s[i].parent {
            Some(p) => p < next_id,
            None => true,
        }
}

/// Every ground back-reference refers below the allocator's next id, so the
/// chain state only ever learns of ids the allocator has handed out.
pub open spec fn belongs_ids_bounded(s: Seq<EntityRec>, next_id: u64) -> bool {
    forall|i: int|
        0 <= i < s.len() ==> match #[trigger] s[i].belongs_to {
            Some(b) => b < next_id,
            None => true,
        }
}

/// The hierarchy is two levels deep: every entity that is referred to as a
/// parent is itself a root. Grounds, the ball, lights, cameras and game-over
/// sensors are roots; meshes, sensors and walls are leaves.
pub open spec fn parents_are_roots(s: Seq<EntityRec>) -> bool {
    forall|i: int, j: int|
        #![trigger s[i].parent, s[j].id]
        0 <= i < s.len() && 0 <= j < s.len() && s[i].parent == Some(s[j].id)
            ==> s[j].parent is None
}

/// There is a living entity with this id.
pub open spec fn has_live_id(s: Seq<EntityRec>, id: u64) -> bool {
    exists|k: int| 0 <= k < s.len() && #[trigger] s[k].id == id && s[k].alive
}

/// How many living entities of this kind the store holds.
pub open spec fn kind_count(s: Seq<EntityRec>, kind: EntityKind) -> nat
    decreases s.len(),
{
    if s.len() == 0 {
        0
    } else {
        kind_count(s.drop_last(), kind) + if s.last().alive && s.last().kind == kind {
            1nat
        } else {
            0nat
        }
    }
}

/// How many living entities the store holds.
pub open spec fn alive_count(s: Seq<EntityRec>) -> nat
    decreases s.len(),
{
    if s.len() == 0 {
        0
    } else {
        alive_count(s.drop_last()) + if s.last().alive {
            1nat
        } else {
            0nat
        }
    }
}

impl GameWorld {
    /// Well-formedness of the store, preserved by every system.
    pub open spec fn wf(self) -> bool {
        &&& ids_increasing(self.entities@)
        &&& ids_bounded(self.entities@, self.next_id)
        &&& parent_ids_bounded(self.entities@, self.next_id)
        &&& belongs_ids_bounded(self.entities@, self.next_id)
        &&& parents_are_roots(self.entities@)
    }

    /// An empty store.
    pub fn new() -> (w: GameWorld)
        ensures
            w.next_id == 0,
            w.entities@ == Seq::<EntityRec>::empty(),
            w.wf(),
    {
        let w = GameWorld { next_id: 0, entities: Vec::new() };
        proof {
            assert(w.entities@ =~= Seq::<EntityRec>::empty());
        }
        w
    }

    /// Whether a living entity with this id exists.
    pub fn is_alive(&self, id: u64) -> (r: bool)
        ensures
            r == has_live_id(self.entities@, id),
    {
        let n = self.entities.len();
        let mut i: usize = 0;
        while i < n
            invariant
                i <= n,
                n == self.entities@.len(),
                forall|k: int| 0 <= k < i ==> !(#[trigger] self.entities@[k].id == id
                    && self.entities@[k].alive),
            decreases n - i,
        {
            if self.entities[i].id == id && self.entities[i].alive {
                return true;
            }
            i += 1;
        }
        false
    }

    /// How many living entities the store holds.
    pub fn count_alive(&self) -> (n: usize)
        ensures
            n == alive_count(self.entities@),
    {
        let len = self.entities.len();
        let mut n: usize = 0;
        let mut i: usize = 0;
        while i < len
            invariant
                i <= len,
                n <= i,
                len == self.entities@.len(),
                n == alive_count(self.entities@.subrange(0, i as int)),
            decreases len - i,
        {
            proof {
                assert(self.entities@.subrange(0, i + 1).drop_last() =~= self.entities@.subrange(
                    0,
                    i as int,
                ));
                assert(self.entities@.subrange(0, i + 1).last() == self.entities@[i as int]);
            }
            if self.entities[i].alive {
                n += 1;
            }
            i += 1;
        }
        proof {
            assert(self.entities@.subrange(0, len as int) =~= self.entities@);
        }
        n
    }

    /// How many living entities of this kind the store holds.
    pub fn count_kind(&self, kind: EntityKind) -> (n: usize)
        ensures
            n == kind_count(self.entities@, kind),
    {
        let len = self.entities.len();
        let mut n: usize = 0;
        let mut i: usize = 0;
        while i < len
            invariant
                i <= len,
                n <= i,
                len == self.entities@.len(),
                n == kind_count(self.entities@.subrange(0, i as int), kind),
            decreases len - i,
        {
            proof {
                assert(self.entities@.subrange(0, i + 1).drop_last() =~= self.entities@.subrange(
                    0,
                    i as int,
                ));
                assert(self.entities@.subrange(0, i + 1).last() == self.entities@[i as int]);
            }
            if self.entities[i].alive && self.entities[i].kind == kind {
                n += 1;
            }
            i += 1;
        }
        proof {
            assert(self.entities@.subrange(0, len as int) =~= self.entities@);
        }
        n
    }
}

/// Whether this id sequence contains the given id. Mirrors `Seq::contains`
/// for the overlap sets the physics service reports.
pub fn ids_contain(v: &Vec<u64>, id: u64) -> (r: bool)
    ensures
        r == v@.contains(id),
{
    let n = v.len();
    let mut i: usize = 0;
    while i < n
        invariant
            i <= n,
            n == v@.len(),
            forall|k: int| 0 <= k < i ==> #[trigger] v@[k] != id,
        decreases n - i,
    {
        if v[i] == id {
            return true;
        }
        i += 1;
    }
    false
}

} // verus!
