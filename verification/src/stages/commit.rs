use vstd::prelude::*;
use crate::core_types::action::{ActionCandidate, ActionKind};
use crate::core_types::math::{float_le, float_lt, is_nan_bits};
use crate::registry::bitset::{bitset_ones, bitset_ones_list, bitset_set};
use crate::registry::soa::{SoARegistry, MAX_ENTITIES, MAX_CANDIDATES};

verus! {

/// The candidate kept after scanning `c` in order: a candidate replaces
/// the one kept so far unless its score is `<=` the kept one's, as `f32`
/// compares (so the first of equal best scores stays).
pub open spec fn best_of(c: Seq<Option<ActionCandidate>>) -> Option<ActionCandidate>
    decreases c.len(),
{
    if c.len() == 0 {
        None
    } else {
        let prev = best_of(c.drop_last());
        match c.last() {
            None => prev,
            Some(cand) => match prev {
                Some(b) => if float_le(cand.score.0, b.score.0) {
                    prev
                } else {
                    Some(cand)
                },
                None => Some(cand),
            },
        }
    }
}

/// The action an entity with candidates `c` commits to: the kind of the
/// best candidate, or `Idle` when it has none.
pub open spec fn committed(c: Seq<Option<ActionCandidate>>) -> ActionKind {
    match best_of(c) {
        Some(b) => b.kind,
        None => ActionKind::Idle,
    }
}

fn choose_action(candidates: &[Option<ActionCandidate>; MAX_CANDIDATES]) -> (r: ActionKind)
    ensures
        r == committed(candidates@),
{
    let mut best: Option<ActionCandidate> = None;
    let mut i: usize = 0;
    while i < MAX_CANDIDATES
        invariant
            i <= MAX_CANDIDATES,
            candidates@.len() == MAX_CANDIDATES,
            best == best_of(candidates@.subrange(0, i as int)),
        decreases MAX_CANDIDATES - i,
    {
        proof {
            assert(candidates@.subrange(0, i as int + 1).drop_last() == candidates@.subrange(
                0,
                i as int,
            ));
        }
        if let Some(candidate) = candidates[i] {
            match best {
                Some(b) => {
                    if !candidate.score.le(b.score) {
                        best = Some(candidate);
                    }
                },
                None => {
                    best = Some(candidate);
                },
            }
        }
        i = i + 1;
    }
    proof {
        assert(candidates@.subrange(0, MAX_CANDIDATES as int) == candidates@);
    }
    match best {
        Some(b) => b.kind,
        None => ActionKind::Idle,
    }
}

/// For every active entity: commits to its best candidate (or `Idle`) and
/// clears its dirty mark. Nothing else changes.
pub fn run(registry: &mut SoARegistry)
    requires
        old(registry).wf(),
    ensures
        final(registry).wf(),
        forall|j: int|
            0 <= j < MAX_ENTITIES ==> #[trigger] final(registry).chosen_action@[j] == if old(
                registry,
            ).active_set().contains(j) {
                committed(old(registry).candidates@[j]@)
            } else {
                old(registry).chosen_action@[j]
            },
        final(registry).dirty_set() == old(registry).dirty_set().difference(
            old(registry).active_set(),
        ),
        final(registry).active == old(registry).active,
        final(registry).positions == old(registry).positions,
        final(registry).beliefs == old(registry).beliefs,
        final(registry).candidates == old(registry).candidates,
        final(registry).health == old(registry).health,
        final(registry).ammo == old(registry).ammo,
        final(registry).morale == old(registry).morale,
        final(registry).hunger == old(registry).hunger,
        final(registry).fatigue == old(registry).fatigue,
        final(registry).curiosity == old(registry).curiosity,
        final(registry).self_preservation == old(registry).self_preservation,
        final(registry).current_intent == old(registry).current_intent,
        final(registry).hierarchy_level == old(registry).hierarchy_level,
        final(registry).parent_ids == old(registry).parent_ids,
        final(registry).children_ids == old(registry).children_ids,
        final(registry).rng == old(registry).rng,
        final(registry).decision_traces == old(registry).decision_traces,
{
    let ghost start = *registry;
    let list = bitset_ones_list(&registry.active);
    let mut k: usize = 0;
    while k < list.len()
        invariant
            k <= list@.len(),
            registry.wf(),
            start == *old(registry),
            forall|a: int, b: int| 0 <= a < b < list@.len() ==> list@[a] < list@[b],
            forall|m: int|
                0 <= m < list@.len() ==> start.active_set().contains(#[trigger] list@[m] as int),
            forall|j: int|
                0 <= j < MAX_ENTITIES ==> #[trigger] registry.chosen_action@[j] == if list@.subrange(
                    0,
                    k as int,
                ).contains(j as usize) {
                    committed(start.candidates@[j]@)
                } else {
                    start.chosen_action@[j]
                },
            forall|j: int|
                #[trigger] registry.dirty_set().contains(j) <==> (start.dirty_set().contains(j)
                    && !(0 <= j < MAX_ENTITIES && list@.subrange(0, k as int).contains(j as usize))),
            registry.active == start.active,
            registry.positions == start.positions,
            registry.beliefs == start.beliefs,
            registry.candidates == start.candidates,
            registry.health == start.health,
            registry.ammo == start.ammo,
            registry.morale == start.morale,
            registry.hunger == start.hunger,
            registry.fatigue == start.fatigue,
            registry.curiosity == start.curiosity,
            registry.self_preservation == start.self_preservation,
            registry.current_intent == start.current_intent,
            registry.hierarchy_level == start.hierarchy_level,
            registry.parent_ids == start.parent_ids,
            registry.children_ids == start.children_ids,
            registry.rng == start.rng,
            registry.decision_traces == start.decision_traces,
        decreases list@.len() - k,
    {
        let idx = list[k];
        let ghost before = *registry;
        proof {
            assert(start.active_set().contains(list@[k as int] as int));
            assert(list@.subrange(0, k as int + 1) == list@.subrange(0, k as int).push(idx));
        }
        let kind = choose_action(&registry.candidates[idx]);
        registry.chosen_action.set(idx, kind);
        bitset_set(&mut registry.dirty_flag, idx, false);
        proof {
            let pre = list@.subrange(0, k as int);
            let post = list@.subrange(0, k as int + 1);
            assert forall|j: int|
                0 <= j < MAX_ENTITIES implies #[trigger] registry.chosen_action@[j] == if post.contains(
                j as usize,
            ) {
                committed(start.candidates@[j]@)
            } else {
                start.chosen_action@[j]
            } by {
                assert(before.chosen_action@[j] == if pre.contains(j as usize) {
                    committed(start.candidates@[j]@)
                } else {
                    start.chosen_action@[j]
                });
                if j != idx {
                    assert(post.contains(j as usize) == pre.contains(j as usize));
                } else {
                    assert(post[k as int] == idx);
                }
            }
            assert forall|j: int|
                #[trigger] registry.dirty_set().contains(j) <==> (start.dirty_set().contains(j)
                    && !(0 <= j < MAX_ENTITIES && post.contains(j as usize))) by {
                assert(before.dirty_set().contains(j) <==> (start.dirty_set().contains(j) && !(0 <= j
                    < MAX_ENTITIES && pre.contains(j as usize))));
                if 0 <= j < MAX_ENTITIES && j != idx {
                    assert(post.contains(j as usize) == pre.contains(j as usize));
                }
                if j == idx {
                    assert(post[k as int] == idx);
                }
            }
        }
        k = k + 1;
    }
    proof {
        assert(list@.subrange(0, list@.len() as int) == list@);
        assert forall|j: int| 0 <= j < MAX_ENTITIES implies list@.contains(j as usize)
            == start.active_set().contains(j) by {
            if list@.contains(j as usize) {
                let m = choose|m: int| 0 <= m < list@.len() && list@[m] == j as usize;
                assert(start.active_set().contains(list@[m] as int));
            }
        }
        assert(registry.dirty_set() =~= start.dirty_set().difference(start.active_set()));
    }
}

/// Whether candidate slot `o` holds a candidate whose score is not NaN,
/// or nothing.
pub open spec fn score_is_number(o: Option<ActionCandidate>) -> bool {
    match o {
        Some(c) => !is_nan_bits(c.score.0),
        None => true,
    }
}

/// The action committed to is `Idle` when there is no candidate, and
/// otherwise the kind of one of the candidates.
pub proof fn lemma_committed_is_a_candidate(c: Seq<Option<ActionCandidate>>)
    ensures
        best_of(c) is None <==> forall|k: int| 0 <= k < c.len() ==> (#[trigger] c[k]) is None,
        best_of(c) is Some ==> exists|k: int| 0 <= k < c.len() && #[trigger] c[k] == best_of(c),
    decreases c.len(),
{
    if c.len() > 0 {
        let p = c.drop_last();
        lemma_committed_is_a_candidate(p);
        assert forall|k: int| 0 <= k < p.len() implies #[trigger] p[k] == c[k] by {}
        if best_of(p) is Some && best_of(c) == best_of(p) {
            let k = choose|k: int| 0 <= k < p.len() && #[trigger] p[k] == best_of(p);
            assert(c[k] == best_of(c));
        }
        if best_of(c) is None {
            assert forall|k: int| 0 <= k < c.len() implies (#[trigger] c[k]) is None by {
                if k < p.len() {
                    assert(p[k] == c[k]);
                }
            }
        }
        if forall|k: int| 0 <= k < c.len() ==> (#[trigger] c[k]) is None {
            assert forall|k: int| 0 <= k < p.len() implies (#[trigger] p[k]) is None by {
                assert(c[k] is None);
            }
            assert(c[c.len() - 1] is None);
        }
    }
}

/// When no score is NaN, the candidate committed to has the greatest score
/// and comes first among those with that score.
pub proof fn lemma_best_is_first_greatest(c: Seq<Option<ActionCandidate>>)
    requires
        forall|k: int| 0 <= k < c.len() ==> score_is_number(#[trigger] c[k]),
    ensures
        best_of(c) is Some ==> exists|k: int|
            {
                &&& 0 <= k < c.len()
                &&& #[trigger] c[k] == best_of(c)
                &&& forall|m: int|
                    0 <= m < c.len() && (#[trigger] c[m]) is Some ==> float_le(
                        c[m].unwrap().score.0,
                        best_of(c).unwrap().score.0,
                    )
                &&& forall|m: int|
                    0 <= m < k && (#[trigger] c[m]) is Some ==> float_lt(
                        c[m].unwrap().score.0,
                        best_of(c).unwrap().score.0,
                    )
            },
    decreases c.len(),
{
    if c.len() > 0 {
        let p = c.drop_last();
        assert forall|k: int| 0 <= k < p.len() implies #[trigger] p[k] == c[k] by {}
        assert forall|k: int| 0 <= k < p.len() implies score_is_number(#[trigger] p[k]) by {
            assert(p[k] == c[k]);
        }
        lemma_best_is_first_greatest(p);
        lemma_committed_is_a_candidate(p);
        let last = c.len() - 1;
        assert(score_is_number(c[last]));
        match best_of(p) {
            Some(b) => {
                let k = choose|k: int|
                    {
                        &&& 0 <= k < p.len()
                        &&& #[trigger] p[k] == best_of(p)
                        &&& forall|m: int|
                            0 <= m < p.len() && (#[trigger] p[m]) is Some ==> float_le(
                                p[m].unwrap().score.0,
                                best_of(p).unwrap().score.0,
                            )
                        &&& forall|m: int|
                            0 <= m < k && (#[trigger] p[m]) is Some ==> float_lt(
                                p[m].unwrap().score.0,
                                best_of(p).unwrap().score.0,
                            )
                    };
                if best_of(c) == best_of(p) {
                    assert(c[k] == best_of(c));
                    assert forall|m: int|
                        0 <= m < c.len() && (#[trigger] c[m]) is Some implies float_le(
                        c[m].unwrap().score.0,
                        best_of(c).unwrap().score.0,
                    ) by {
                        if m < p.len() {
                            assert(p[m] == c[m]);
                        }
                    }
                    assert forall|m: int|
                        0 <= m < k && (#[trigger] c[m]) is Some implies float_lt(
                        c[m].unwrap().score.0,
                        best_of(c).unwrap().score.0,
                    ) by {
                        assert(p[m] == c[m]);
                    }
                } else {
                    assert(c[last] == best_of(c));
                    assert forall|m: int|
                        0 <= m < c.len() && (#[trigger] c[m]) is Some implies float_le(
                        c[m].unwrap().score.0,
                        best_of(c).unwrap().score.0,
                    ) by {
                        if m < p.len() {
                            assert(p[m] == c[m]);
                            assert(float_le(p[m].unwrap().score.0, b.score.0));
                        }
                    }
                    assert forall|m: int|
                        0 <= m < last && (#[trigger] c[m]) is Some implies float_lt(
                        c[m].unwrap().score.0,
                        best_of(c).unwrap().score.0,
                    ) by {
                        assert(p[m] == c[m]);
                        assert(float_le(p[m].unwrap().score.0, b.score.0));
                    }
                }
            },
            None => {
                if best_of(c) is Some {
                    assert(c[last] == best_of(c));
                    assert forall|m: int|
                        0 <= m < c.len() && (#[trigger] c[m]) is Some implies float_le(
                        c[m].unwrap().score.0,
                        best_of(c).unwrap().score.0,
                    ) by {
                        if m < p.len() {
                            assert(p[m] == c[m]);
                            assert(p[m] is None);
                        }
                    }
                    assert forall|m: int|
                        0 <= m < last && (#[trigger] c[m]) is Some implies float_lt(
                        c[m].unwrap().score.0,
                        best_of(c).unwrap().score.0,
                    ) by {
                        assert(p[m] == c[m]);
                        assert(p[m] is None);
                    }
                }
            },
        }
    }
}

} // verus!
