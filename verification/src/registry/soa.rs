use vstd::prelude::*;
use fixedbitset::FixedBitSet;
use super::bitset::{
    bitset_ones, bitset_len, bitset_with_capacity, bitset_contains, bitset_insert, bitset_set,
    bitset_count_ones,
};
use crate::belief::store::BeliefStore;
use crate::core_types::action::{ActionCandidate, ActionKind, Intent};
use crate::core_types::id::{EntityId, HierarchyLevel, NONE_ID};
use crate::core_types::math::{Scalar, Vec3};
use crate::core_types::rng::{DeterministicRng, chacha_from_seed};

verus! {

/// The number of entity slots.
pub const MAX_ENTITIES: usize = 16384;

/// The number of candidate actions an entity can hold.
pub const MAX_CANDIDATES: usize = 16;

/// Bit pattern of `1.0f32`.
pub const ONE_BITS: u32 = 0x3F80_0000u32;

/// Bit pattern of `0.5f32`.
pub const HALF_BITS: u32 = 0x3F00_0000u32;

/// Every per-entity column, one entry per slot, and the sets of slots in
/// use (`active`) and in need of a new decision (`dirty_flag`).
pub struct SoARegistry {
    pub positions: Vec<Vec3>,
    pub beliefs: Vec<BeliefStore>,
    pub candidates: Vec<[Option<ActionCandidate>; MAX_CANDIDATES]>,
    pub chosen_action: Vec<ActionKind>,
    pub health: Vec<Scalar>,
    pub ammo: Vec<Scalar>,
    pub morale: Vec<Scalar>,
    pub hunger: Vec<Scalar>,
    pub fatigue: Vec<Scalar>,
    pub curiosity: Vec<Scalar>,
    pub self_preservation: Vec<Scalar>,
    pub current_intent: Vec<Option<Intent>>,
    pub hierarchy_level: Vec<HierarchyLevel>,
    pub parent_ids: Vec<Option<EntityId>>,
    pub children_ids: Vec<Vec<EntityId>>,
    pub rng: Vec<DeterministicRng>,
    pub active: FixedBitSet,
    pub dirty_flag: FixedBitSet,
    pub decision_traces: Vec<Vec<(ActionKind, Scalar)>>,
}

/// Whether every column has one entry per slot.
pub open spec fn columns_sized(r: SoARegistry) -> bool {
    &&& r.positions@.len() == MAX_ENTITIES
    &&& r.beliefs@.len() == MAX_ENTITIES
    &&& r.candidates@.len() == MAX_ENTITIES
    &&& r.chosen_action@.len() == MAX_ENTITIES
    &&& r.health@.len() == MAX_ENTITIES
    &&& r.ammo@.len() == MAX_ENTITIES
    &&& r.morale@.len() == MAX_ENTITIES
    &&& r.hunger@.len() == MAX_ENTITIES
    &&& r.fatigue@.len() == MAX_ENTITIES
    &&& r.curiosity@.len() == MAX_ENTITIES
    &&& r.self_preservation@.len() == MAX_ENTITIES
    &&& r.current_intent@.len() == MAX_ENTITIES
    &&& r.hierarchy_level@.len() == MAX_ENTITIES
    &&& r.parent_ids@.len() == MAX_ENTITIES
    &&& r.children_ids@.len() == MAX_ENTITIES
    &&& r.rng@.len() == MAX_ENTITIES
    &&& r.decision_traces@.len() == MAX_ENTITIES
}

/// Whether `s` is a slot set of the registry's size with no bit beyond it.
pub open spec fn slot_set_wf(s: FixedBitSet) -> bool {
    &&& bitset_len(s) == MAX_ENTITIES
    &&& forall|j: int| #[trigger] bitset_ones(s).contains(j) ==> 0 <= j < MAX_ENTITIES
}

/// The registry's invariant: every column sized, every belief store well
/// formed, and both slot sets within range.
pub open spec fn registry_wf(r: SoARegistry) -> bool {
    &&& columns_sized(r)
    &&& forall|i: int| 0 <= i < MAX_ENTITIES ==> (#[trigger] r.beliefs@[i]).wf()
    &&& slot_set_wf(r.active)
    &&& slot_set_wf(r.dirty_flag)
}

/// Whether slot `i` holds what a newly spawned entity of rank `level` has,
/// apart from its position.
pub open spec fn is_fresh(r: SoARegistry, i: int, level: HierarchyLevel) -> bool {
    &&& forall|k: int| 0 <= k < r.beliefs@[i]@.len() ==> (#[trigger] r.beliefs@[i]@[k]) is None
    &&& r.chosen_action@[i] is Idle
    &&& forall|k: int| 0 <= k < MAX_CANDIDATES ==> (#[trigger] r.candidates@[i]@[k]) is None
    &&& r.health@[i].0 == ONE_BITS
    &&& r.ammo@[i].0 == ONE_BITS
    &&& r.morale@[i].0 == ONE_BITS
    &&& r.hunger@[i].0 == 0
    &&& r.fatigue@[i].0 == 0
    &&& r.curiosity@[i].0 == HALF_BITS
    &&& r.self_preservation@[i].0 == HALF_BITS
    &&& r.current_intent@[i] is None
    &&& r.hierarchy_level@[i] == level
    &&& r.parent_ids@[i] is None
    &&& r.children_ids@[i]@.len() == 0
    &&& r.decision_traces@[i]@.len() == 0
}

/// A fresh slot holds the documented defaults: health, ammunition and
/// morale at one, hunger and fatigue at zero, curiosity and
/// self-preservation at one half.
pub proof fn lemma_fresh_defaults(r: SoARegistry, i: int, level: HierarchyLevel)
    requires
        is_fresh(r, i, level),
    ensures
        r.health@[i].0 == 0x3F80_0000u32,
        r.ammo@[i].0 == 0x3F80_0000u32,
        r.morale@[i].0 == 0x3F80_0000u32,
        r.hunger@[i].0 == 0,
        r.fatigue@[i].0 == 0,
        r.curiosity@[i].0 == 0x3F00_0000u32,
        r.self_preservation@[i].0 == 0x3F00_0000u32,
        r.hierarchy_level@[i] == level,
{
}

/// Every slot of a registry as `SoARegistry::new` makes it holds the
/// documented defaults.
pub proof fn lemma_new_defaults(r: SoARegistry)
    requires
        all_fresh(r, MAX_ENTITIES as int),
    ensures
        forall|i: int| 0 <= i < MAX_ENTITIES ==> #[trigger] fresh_vitals(r, i),
{
    assert forall|i: int| 0 <= i < MAX_ENTITIES implies #[trigger] fresh_vitals(r, i) by {
        assert(is_fresh(r, i, HierarchyLevel::Soldier));
        lemma_fresh_defaults(r, i, HierarchyLevel::Soldier);
    }
}

/// Whether slot `i` holds full health, ammunition and morale, no hunger or
/// fatigue, and curiosity and self-preservation at one half.
pub open spec fn fresh_vitals(r: SoARegistry, i: int) -> bool {
    &&& r.health@[i].0 == 0x3F80_0000u32
    &&& r.ammo@[i].0 == 0x3F80_0000u32
    &&& r.morale@[i].0 == 0x3F80_0000u32
    &&& r.hunger@[i].0 == 0
    &&& r.fatigue@[i].0 == 0
    &&& r.curiosity@[i].0 == 0x3F00_0000u32
    &&& r.self_preservation@[i].0 == 0x3F00_0000u32
}

/// Whether the two registries hold the same in slot `j`, in every column.
pub open spec fn slot_agrees(a: SoARegistry, b: SoARegistry, j: int) -> bool {
    &&& a.positions@[j] == b.positions@[j]
    &&& a.beliefs@[j] == b.beliefs@[j]
    &&& a.candidates@[j] == b.candidates@[j]
    &&& a.chosen_action@[j] == b.chosen_action@[j]
    &&& a.health@[j] == b.health@[j]
    &&& a.ammo@[j] == b.ammo@[j]
    &&& a.morale@[j] == b.morale@[j]
    &&& a.hunger@[j] == b.hunger@[j]
    &&& a.fatigue@[j] == b.fatigue@[j]
    &&& a.curiosity@[j] == b.curiosity@[j]
    &&& a.self_preservation@[j] == b.self_preservation@[j]
    &&& a.current_intent@[j] == b.current_intent@[j]
    &&& a.hierarchy_level@[j] == b.hierarchy_level@[j]
    &&& a.parent_ids@[j] == b.parent_ids@[j]
    &&& a.children_ids@[j] == b.children_ids@[j]
    &&& a.rng@[j] == b.rng@[j]
    &&& a.decision_traces@[j] == b.decision_traces@[j]
}

/// `i` is the lowest slot not in use in `r`.
pub open spec fn first_free(r: SoARegistry, i: int) -> bool {
    &&& 0 <= i < MAX_ENTITIES
    &&& !bitset_ones(r.active).contains(i)
    &&& forall|j: int| 0 <= j < i ==> #[trigger] bitset_ones(r.active).contains(j)
}

/// `b` is `a` with an entity of rank `level` spawned at `pos` in slot `i`:
/// the slot joins the active and dirty sets and is reset, and every other
/// slot is untouched.
pub open spec fn spawned_at(
    a: SoARegistry,
    b: SoARegistry,
    i: int,
    pos: Vec3,
    level: HierarchyLevel,
) -> bool {
    &&& bitset_ones(b.active) == bitset_ones(a.active).insert(i)
    &&& bitset_ones(b.dirty_flag) == bitset_ones(a.dirty_flag).insert(i)
    &&& b.positions@[i] == pos
    &&& is_fresh(b, i, level)
    &&& b.rng@[i] == a.rng@[i]
    &&& forall|j: int| 0 <= j < MAX_ENTITIES && j != i ==> #[trigger] slot_agrees(a, b, j)
}

/// What a spawn of rank `level` at `pos` does to `a`, giving `b` and `id`:
/// the lowest free slot is taken, or, when every slot is in use, nothing
/// changes and the result is the identifier that names no entity.
pub open spec fn spawn_outcome(
    a: SoARegistry,
    b: SoARegistry,
    id: EntityId,
    pos: Vec3,
    level: HierarchyLevel,
) -> bool {
    ||| (id.0 == NONE_ID && (forall|j: int|
        0 <= j < MAX_ENTITIES ==> #[trigger] bitset_ones(a.active).contains(j)) && b == a)
    ||| (first_free(a, id.0 as int) && spawned_at(a, b, id.0 as int, pos, level))
}

/// Whether every slot of `r` holds what `SoARegistry::new` puts there.
pub open spec fn all_fresh(r: SoARegistry, n: int) -> bool {
    forall|i: int|
        0 <= i < n ==> {
            &&& #[trigger] is_fresh(r, i, HierarchyLevel::Soldier)
            &&& r.positions@[i].x.0 == 0 && r.positions@[i].y.0 == 0 && r.positions@[i].z.0 == 0
            &&& r.rng@[i].seed() == i
            &&& r.rng@[i].state() == chacha_from_seed(i as u64)
            &&& r.beliefs@[i].wf()
        }
}

/// `b` is `a` with entity `id` out of use: `id` leaves the active set,
/// and every column and the dirty set keep their values.
pub open spec fn despawned(a: SoARegistry, b: SoARegistry, id: EntityId) -> bool {
    &&& bitset_ones(b.active) == bitset_ones(a.active).remove(id.0 as int)
    &&& bitset_len(b.active) == bitset_len(a.active)
    &&& b.dirty_flag == a.dirty_flag
    &&& forall|j: int| 0 <= j < MAX_ENTITIES ==> #[trigger] slot_agrees(a, b, j)
}

/// `b` is `a` with `parent` recorded as the parent of `child` (when `child`
/// names a slot) and `child` appended to the children of `parent` (when
/// `parent` names a slot and does not list `child` yet); nothing else
/// changes.
pub open spec fn linked(a: SoARegistry, b: SoARegistry, child: EntityId, parent: EntityId) -> bool {
    &&& b.parent_ids@ == if child.0 < MAX_ENTITIES {
        a.parent_ids@.update(child.0 as int, Some(parent))
    } else {
        a.parent_ids@
    }
    &&& b.children_ids@.len() == a.children_ids@.len()
    &&& forall|j: int|
        0 <= j < MAX_ENTITIES && j != parent.0 ==> #[trigger] b.children_ids@[j] == a.children_ids@[j]
    &&& parent.0 < MAX_ENTITIES ==> b.children_ids@[parent.0 as int]@ == if a.children_ids@[parent.0 as int]@.contains(child) {
        a.children_ids@[parent.0 as int]@
    } else {
        a.children_ids@[parent.0 as int]@.push(child)
    }
    &&& b.active == a.active
    &&& b.dirty_flag == a.dirty_flag
    &&& b.positions == a.positions
    &&& b.beliefs == a.beliefs
    &&& b.candidates == a.candidates
    &&& b.chosen_action == a.chosen_action
    &&& b.health == a.health
    &&& b.ammo == a.ammo
    &&& b.morale == a.morale
    &&& b.hunger == a.hunger
    &&& b.fatigue == a.fatigue
    &&& b.curiosity == a.curiosity
    &&& b.self_preservation == a.self_preservation
    &&& b.current_intent == a.current_intent
    &&& b.hierarchy_level == a.hierarchy_level
    &&& b.rng == a.rng
    &&& b.decision_traces == a.decision_traces
}

impl SoARegistry {
    /// A registry with every slot free and reset: position at the origin,
    /// no belief, no candidate, chosen action `Idle`, health, ammo and
    /// morale at one, hunger and fatigue at zero, curiosity and
    /// self-preservation at one half, no intent, rank `Soldier`, no parent,
    /// no child, and a generator seeded with the slot's index.
    pub fn new() -> (r: SoARegistry)
        ensures
            r.wf(),
            r.active_set() == Set::<int>::empty(),
            r.dirty_set() == Set::<int>::empty(),
            all_fresh(r, MAX_ENTITIES as int),
            forall|i: int| 0 <= i < MAX_ENTITIES ==> #[trigger] fresh_vitals(r, i),
    {
        let mut r = SoARegistry {
            positions: Vec::new(),
            beliefs: Vec::new(),
            candidates: Vec::new(),
            chosen_action: Vec::new(),
            health: Vec::new(),
            ammo: Vec::new(),
            morale: Vec::new(),
            hunger: Vec::new(),
            fatigue: Vec::new(),
            curiosity: Vec::new(),
            self_preservation: Vec::new(),
            current_intent: Vec::new(),
            hierarchy_level: Vec::new(),
            parent_ids: Vec::new(),
            children_ids: Vec::new(),
            rng: Vec::new(),
            active: bitset_with_capacity(MAX_ENTITIES),
            dirty_flag: bitset_with_capacity(MAX_ENTITIES),
            decision_traces: Vec::new(),
        };
        let mut i: usize = 0;
        while i < MAX_ENTITIES
            invariant
                i <= MAX_ENTITIES,
                r.positions@.len() == i,
                r.beliefs@.len() == i,
                r.candidates@.len() == i,
                r.chosen_action@.len() == i,
                r.health@.len() == i,
                r.ammo@.len() == i,
                r.morale@.len() == i,
                r.hunger@.len() == i,
                r.fatigue@.len() == i,
                r.curiosity@.len() == i,
                r.self_preservation@.len() == i,
                r.current_intent@.len() == i,
                r.hierarchy_level@.len() == i,
                r.parent_ids@.len() == i,
                r.children_ids@.len() == i,
                r.rng@.len() == i,
                r.decision_traces@.len() == i,
                bitset_ones(r.active) == Set::<int>::empty(),
                bitset_ones(r.dirty_flag) == Set::<int>::empty(),
                bitset_len(r.active) == MAX_ENTITIES,
                bitset_len(r.dirty_flag) == MAX_ENTITIES,
                all_fresh(r, i as int),
            decreases MAX_ENTITIES - i,
        {
            let ghost prev = r;
            r.positions.push(Vec3::zero());
            r.beliefs.push(BeliefStore::new());
            r.candidates.push([None; 16]);
            r.chosen_action.push(ActionKind::Idle);
            r.health.push(Scalar(ONE_BITS));
            r.ammo.push(Scalar(ONE_BITS));
            r.morale.push(Scalar(ONE_BITS));
            r.hunger.push(Scalar(0));
            r.fatigue.push(Scalar(0));
            r.curiosity.push(Scalar(HALF_BITS));
            r.self_preservation.push(Scalar(HALF_BITS));
            r.current_intent.push(None);
            r.hierarchy_level.push(HierarchyLevel::Soldier);
            r.parent_ids.push(None);
            r.children_ids.push(Vec::new());
            r.rng.push(DeterministicRng::new(i as u64));
            r.decision_traces.push(Vec::new());
            proof {
                assert forall|j: int| 0 <= j < i + 1 implies {
                    &&& #[trigger] is_fresh(r, j, HierarchyLevel::Soldier)
                    &&& r.positions@[j].x.0 == 0 && r.positions@[j].y.0 == 0 && r.positions@[j].z.0
                        == 0
                    &&& r.rng@[j].seed() == j
                    &&& r.rng@[j].state() == chacha_from_seed(j as u64)
                    &&& r.beliefs@[j].wf()
                } by {
                    if j < i {
                        assert(is_fresh(prev, j, HierarchyLevel::Soldier));
                    }
                }
            }
            i = i + 1;
        }
        proof {
            assert forall|j: int| 0 <= j < MAX_ENTITIES implies (#[trigger] r.beliefs@[j]).wf() by {
                assert(is_fresh(r, j, HierarchyLevel::Soldier));
            }
            lemma_new_defaults(r);
        }
        r
    }

    /// The invariant the registry keeps.
    pub open spec fn wf(&self) -> bool {
        registry_wf(*self)
    }

    /// The slots in use.
    pub open spec fn active_set(&self) -> Set<int> {
        bitset_ones(self.active)
    }

    /// The slots in need of a new decision.
    pub open spec fn dirty_set(&self) -> Set<int> {
        bitset_ones(self.dirty_flag)
    }

    /// Takes the lowest slot not in use for a new entity at `pos`, resets
    /// every column of that slot, and marks it active and dirty. When every
    /// slot is in use nothing changes and the identifier that names no
    /// entity is returned.
    pub fn spawn(&mut self, pos: Vec3) -> (id: EntityId)
        requires
            old(self).wf(),
        ensures
            final(self).wf(),
            spawn_outcome(*old(self), *final(self), id, pos, HierarchyLevel::Soldier),
            id.0 != NONE_ID ==> {
                &&& final(self).health@[id.0 as int].0 == 0x3F80_0000u32
                &&& final(self).ammo@[id.0 as int].0 == 0x3F80_0000u32
                &&& final(self).morale@[id.0 as int].0 == 0x3F80_0000u32
                &&& final(self).hunger@[id.0 as int].0 == 0
                &&& final(self).fatigue@[id.0 as int].0 == 0
                &&& final(self).curiosity@[id.0 as int].0 == 0x3F00_0000u32
                &&& final(self).self_preservation@[id.0 as int].0 == 0x3F00_0000u32
            },
    {
        let mut i: usize = 0;
        while i < MAX_ENTITIES
            invariant
                i <= MAX_ENTITIES,
                *self == *old(self),
                self.wf(),
                forall|j: int| 0 <= j < i ==> #[trigger] bitset_ones(self.active).contains(j),
            decreases MAX_ENTITIES - i,
        {
            if !bitset_contains(&self.active, i) {
                let ghost before = *self;
                bitset_insert(&mut self.active, i);
                bitset_insert(&mut self.dirty_flag, i);
                self.positions.set(i, pos);
                self.beliefs.set(i, BeliefStore::new());
                self.chosen_action.set(i, ActionKind::Idle);
                self.candidates.set(i, [None; 16]);
                self.health.set(i, Scalar(ONE_BITS));
                self.ammo.set(i, Scalar(ONE_BITS));
                self.morale.set(i, Scalar(ONE_BITS));
                self.hunger.set(i, Scalar(0));
                self.fatigue.set(i, Scalar(0));
                self.curiosity.set(i, Scalar(HALF_BITS));
                self.self_preservation.set(i, Scalar(HALF_BITS));
                self.current_intent.set(i, None);
                self.hierarchy_level.set(i, HierarchyLevel::Soldier);
                self.parent_ids.set(i, None);
                self.children_ids.set(i, Vec::new());
                self.decision_traces.set(i, Vec::new());
                proof {
                    assert(first_free(before, i as int));
                    assert forall|j: int| 0 <= j < MAX_ENTITIES && j != i implies #[trigger] slot_agrees(
                        before,
                        *self,
                        j,
                    ) by {}
                    assert forall|j: int| #[trigger] bitset_ones(self.active).contains(j) implies 0 <= j
                        < MAX_ENTITIES by {
                        if j != i {
                            assert(bitset_ones(before.active).contains(j));
                        }
                    }
                    assert forall|j: int| #[trigger] bitset_ones(self.dirty_flag).contains(j) implies 0
                        <= j < MAX_ENTITIES by {
                        if j != i {
                            assert(bitset_ones(before.dirty_flag).contains(j));
                        }
                    }
                    assert forall|k: int| 0 <= k < MAX_ENTITIES implies (#[trigger] self.beliefs@[k]).wf() by {
                        if k != i {
                            assert(before.beliefs@[k].wf());
                        }
                    }
                }
                return EntityId(i as u32);
            }
            i = i + 1;
        }
        EntityId(NONE_ID)
    }

    /// Spawns as `spawn` does, and gives the new entity the rank `level`.
    pub fn spawn_with_role(&mut self, pos: Vec3, level: HierarchyLevel) -> (id: EntityId)
        requires
            old(self).wf(),
        ensures
            final(self).wf(),
            spawn_outcome(*old(self), *final(self), id, pos, level),
            id.0 != NONE_ID ==> {
                &&& final(self).health@[id.0 as int].0 == 0x3F80_0000u32
                &&& final(self).ammo@[id.0 as int].0 == 0x3F80_0000u32
                &&& final(self).morale@[id.0 as int].0 == 0x3F80_0000u32
                &&& final(self).hunger@[id.0 as int].0 == 0
                &&& final(self).fatigue@[id.0 as int].0 == 0
                &&& final(self).curiosity@[id.0 as int].0 == 0x3F00_0000u32
                &&& final(self).self_preservation@[id.0 as int].0 == 0x3F00_0000u32
            },
    {
        let id = self.spawn(pos);
        if id.0 != NONE_ID {
            let ghost before = *self;
            self.hierarchy_level.set(id.0 as usize, level);
            proof {
                assert forall|j: int| 0 <= j < MAX_ENTITIES && j != id.0 implies #[trigger] slot_agrees(
                    *old(self),
                    *self,
                    j,
                ) by {
                    assert(slot_agrees(*old(self), before, j));
                }
            }
        }
        id
    }

    /// Takes the entity `id` out of use, when it names a slot in use; the
    /// slot's columns keep their values.
    pub fn despawn(&mut self, id: EntityId)
        requires
            old(self).wf(),
        ensures
            final(self).wf(),
            despawned(*old(self), *final(self), id),
    {
        let idx = id.index();
        if idx < MAX_ENTITIES && bitset_contains(&self.active, idx) {
            bitset_set(&mut self.active, idx, false);
        } else {
            proof {
                assert(old(self).active_set().remove(id.0 as int) =~= old(self).active_set());
            }
        }
    }

    /// Records `parent` as the parent of `child`, when `child` names a slot,
    /// and `child` among the children of `parent`, when `parent` names a
    /// slot and `child` is not listed there yet.
    pub fn set_parent(&mut self, child: EntityId, parent: EntityId)
        requires
            old(self).wf(),
        ensures
            final(self).wf(),
            linked(*old(self), *final(self), child, parent),
    {
        let child_idx = child.index();
        let parent_idx = parent.index();
        if child_idx < MAX_ENTITIES {
            self.parent_ids.set(child_idx, Some(parent));
        }
        if parent_idx < MAX_ENTITIES {
            let mut listed = false;
            let mut k: usize = 0;
            while k < self.children_ids[parent_idx].len()
                invariant
                    parent_idx < self.children_ids@.len(),
                    k <= self.children_ids@[parent_idx as int]@.len(),
                    listed == exists|m: int|
                        0 <= m < k && #[trigger] self.children_ids@[parent_idx as int]@[m] == child,
                decreases self.children_ids@[parent_idx as int]@.len() - k,
            {
                if self.children_ids[parent_idx][k].0 == child.0 {
                    listed = true;
                }
                k = k + 1;
            }
            if !listed {
                let mut kids = Vec::new();
                std::mem::swap(&mut kids, &mut self.children_ids[parent_idx]);
                kids.push(child);
                self.children_ids.set(parent_idx, kids);
            } else {
                proof {
                    assert(self.children_ids@[parent_idx as int]@.contains(child));
                }
            }
        }
    }

    /// Whether slot `idx` needs a new decision: only such an entity gets
    /// new candidates.
    pub fn is_dirty(&self, idx: usize) -> (r: bool)
        requires
            self.wf(),
        ensures
            r == self.dirty_set().contains(idx as int),
    {
        bitset_contains(&self.dirty_flag, idx)
    }

    /// The number of slots in use.
    pub fn entity_count(&self) -> (r: usize)
        requires
            self.wf(),
        ensures
            r == self.active_set().len(),
    {
        proof {
            assert(bitset_ones(self.active).filter(|j: int| 0 <= j < bitset_len(self.active))
                =~= bitset_ones(self.active));
        }
        bitset_count_ones(&self.active)
    }
}

impl Default for SoARegistry {
    /// The registry `SoARegistry::new` makes.
    fn default() -> (r: SoARegistry)
        ensures
            r.wf(),
            r.active_set() == Set::<int>::empty(),
            r.dirty_set() == Set::<int>::empty(),
            all_fresh(r, MAX_ENTITIES as int),
    {
        SoARegistry::new()
    }
}

/// The slots in use are finitely many, at most one per slot.
pub proof fn lemma_active_finite(r: SoARegistry)
    requires
        registry_wf(r),
    ensures
        bitset_ones(r.active).finite(),
        bitset_ones(r.active).len() <= MAX_ENTITIES,
{
    vstd::set_lib::lemma_int_range(0, MAX_ENTITIES as int);
    assert(bitset_ones(r.active).subset_of(vstd::set_lib::set_int_range(0, MAX_ENTITIES as int)));
    vstd::set_lib::lemma_len_subset(
        bitset_ones(r.active),
        vstd::set_lib::set_int_range(0, MAX_ENTITIES as int),
    );
}

/// A spawn either takes a slot that was free, which is in use afterwards,
/// and counts one entity more; or, with every slot in use, changes nothing.
pub proof fn lemma_spawn_counts_one(
    a: SoARegistry,
    b: SoARegistry,
    id: EntityId,
    pos: Vec3,
    level: HierarchyLevel,
)
    requires
        registry_wf(a),
        spawn_outcome(a, b, id, pos, level),
    ensures
        id.0 == NONE_ID ==> b == a && bitset_ones(a.active).len() == MAX_ENTITIES,
        id.0 != NONE_ID ==> {
            &&& id.0 < MAX_ENTITIES
            &&& !bitset_ones(a.active).contains(id.0 as int)
            &&& bitset_ones(b.active).contains(id.0 as int)
            &&& bitset_ones(b.active).len() == bitset_ones(a.active).len() + 1
        },
{
    lemma_active_finite(a);
    vstd::set_lib::lemma_int_range(0, MAX_ENTITIES as int);
    if id.0 == NONE_ID {
        if first_free(a, id.0 as int) {
            assert(false);
        }
        assert(bitset_ones(a.active) =~= vstd::set_lib::set_int_range(0, MAX_ENTITIES as int));
    } else {
        vstd::set::axiom_set_insert_len(bitset_ones(a.active), id.0 as int);
    }
}

/// A despawn of an entity in use counts one entity fewer; of any other
/// identifier, changes no count.
pub proof fn lemma_despawn_counts_one(a: SoARegistry, b: SoARegistry, id: EntityId)
    requires
        registry_wf(a),
        despawned(a, b, id),
    ensures
        bitset_ones(b.active).len() + (if bitset_ones(a.active).contains(id.0 as int) {
            1int
        } else {
            0int
        }) == bitset_ones(a.active).len(),
        !bitset_ones(b.active).contains(id.0 as int),
{
    lemma_active_finite(a);
    vstd::set::axiom_set_remove_len(bitset_ones(a.active), id.0 as int);
}

/// Recording the same parent twice does what recording it once does: a
/// child is listed once.
pub proof fn lemma_link_idempotent(
    a: SoARegistry,
    b: SoARegistry,
    c: SoARegistry,
    child: EntityId,
    parent: EntityId,
)
    requires
        columns_sized(a),
        linked(a, b, child, parent),
        linked(b, c, child, parent),
    ensures
        c.parent_ids@ == b.parent_ids@,
        c.children_ids@.len() == b.children_ids@.len(),
        forall|j: int|
            0 <= j < MAX_ENTITIES ==> (#[trigger] c.children_ids@[j])@ == b.children_ids@[j]@,
{
    if parent.0 < MAX_ENTITIES {
        let p = parent.0 as int;
        assert(b.children_ids@[p]@.contains(child)) by {
            if !a.children_ids@[p]@.contains(child) {
                assert(b.children_ids@[p]@[b.children_ids@[p]@.len() - 1] == child);
            }
        }
        assert(c.children_ids@[p]@ == b.children_ids@[p]@);
    }
}

/// A children list without repeats stays without repeats.
pub proof fn lemma_link_keeps_children_distinct(
    a: SoARegistry,
    b: SoARegistry,
    child: EntityId,
    parent: EntityId,
)
    requires
        columns_sized(a),
        linked(a, b, child, parent),
        parent.0 < MAX_ENTITIES,
        a.children_ids@[parent.0 as int]@.no_duplicates(),
    ensures
        b.children_ids@[parent.0 as int]@.no_duplicates(),
{
}

} // verus!
