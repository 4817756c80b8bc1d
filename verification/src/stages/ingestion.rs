use vstd::prelude::*;
use std::collections::hash_map::DefaultHasher;
use crate::belief::record::{BeliefKind, BeliefRecord};
use crate::belief::store::{
    BeliefStore, after_insert, lemma_insert_changed_slot, lemma_insert_changes_one_slot,
    lemma_insert_into_empty,
};
use crate::core_types::id::EntityId;
use crate::core_types::math::Scalar;
use crate::core_types::time::Tick;
use crate::registry::bitset::{bitset_ones, bitset_set};
use crate::registry::soa::{SoARegistry, MAX_ENTITIES};

verus! {

/// What an entity perceived this tick, before it becomes a belief.
#[derive(Clone, Copy, Debug)]
pub struct RawPerceptionEvent {
    pub receiver: EntityId,
    pub target: EntityId,
    pub source_entity: EntityId,
    pub kind: BeliefKind,
    pub confidence: Scalar,
}

/// The hash that `DefaultHasher::new()` gives after hashing the entity
/// identifier `id` (its `u32`).
pub uninterp spec fn entity_hash(id: u32) -> u64;

/// Hashes `id` with a fresh `std::collections::hash_map::DefaultHasher`:
/// `DefaultHasher::new`, `Hash::hash`, `Hasher::finish`. Every hasher that
/// `new` makes starts alike, so the result depends on `id` alone; its value
/// is left unsaid.
#[verifier::external_body]
fn source_hash(id: EntityId) -> (r: u64)
    ensures
        r == entity_hash(id.0),
{
    let mut hasher = DefaultHasher::new();
    std::hash::Hash::hash(&id.0, &mut hasher);
    std::hash::Hasher::finish(&hasher)
}

/// The belief that `e` becomes at tick `now`.
pub open spec fn record_of(e: RawPerceptionEvent, now: Tick) -> BeliefRecord {
    BeliefRecord {
        subject_id: e.target,
        kind: e.kind,
        observed_at: now,
        received_at: now,
        confidence: e.confidence,
        source_chain_hash: entity_hash(e.source_entity.0),
    }
}

/// The slots of store `slot` after the events, in order, were offered to it:
/// each event addressed to `slot` is inserted as its belief.
pub open spec fn ingested(
    s: Seq<Option<BeliefRecord>>,
    events: Seq<RawPerceptionEvent>,
    slot: int,
    now: Tick,
) -> Seq<Option<BeliefRecord>>
    decreases events.len(),
{
    if events.len() == 0 {
        s
    } else {
        let prev = ingested(s, events.drop_last(), slot, now);
        if events.last().receiver.0 == slot {
            after_insert(prev, record_of(events.last(), now))
        } else {
            prev
        }
    }
}

/// Offering events keeps the number of slots, and every slot it changes
/// holds the belief made from one of the events addressed to the store: its
/// subject, kind and confidence are the event's, observed and received now.
pub proof fn lemma_ingested_slots_come_from_events(
    s: Seq<Option<BeliefRecord>>,
    events: Seq<RawPerceptionEvent>,
    slot: int,
    now: Tick,
)
    requires
        s.len() > 0,
    ensures
        ingested(s, events, slot, now).len() == s.len(),
        forall|k: int|
            0 <= k < s.len() && #[trigger] ingested(s, events, slot, now)[k] != s[k] ==> exists|n: int|
                0 <= n < events.len() && events[n].receiver.0 == slot && ingested(s, events, slot, now)[k]
                    == Some(
                    BeliefRecord {
                        subject_id: events[n].target,
                        kind: events[n].kind,
                        observed_at: now,
                        received_at: now,
                        confidence: events[n].confidence,
                        source_chain_hash: entity_hash(events[n].source_entity.0),
                    },
                ),
    decreases events.len(),
{
    if events.len() > 0 {
        let p = events.drop_last();
        lemma_ingested_slots_come_from_events(s, p, slot, now);
        let prev = ingested(s, p, slot, now);
        let cur = ingested(s, events, slot, now);
        let e = events.last();
        if e.receiver.0 == slot {
            lemma_insert_changes_one_slot(prev, record_of(e, now));
        }
        assert forall|k: int|
            0 <= k < s.len() && #[trigger] ingested(s, events, slot, now)[k] != s[k] implies exists|n: int|
                0 <= n < events.len() && events[n].receiver.0 == slot && ingested(s, events, slot, now)[k]
                    == Some(
                    BeliefRecord {
                        subject_id: events[n].target,
                        kind: events[n].kind,
                        observed_at: now,
                        received_at: now,
                        confidence: events[n].confidence,
                        source_chain_hash: entity_hash(events[n].source_entity.0),
                    },
                ) by {
            if e.receiver.0 == slot && cur[k] != prev[k] {
                lemma_insert_changed_slot(prev, record_of(e, now), k);
                assert(events[events.len() - 1] == e);
            } else {
                assert(cur[k] == prev[k]);
                assert(prev[k] != s[k]);
                let n = choose|n: int|
                    0 <= n < p.len() && p[n].receiver.0 == slot && prev[k] == Some(
                        BeliefRecord {
                            subject_id: p[n].target,
                            kind: p[n].kind,
                            observed_at: now,
                            received_at: now,
                            confidence: p[n].confidence,
                            source_chain_hash: entity_hash(p[n].source_entity.0),
                        },
                    );
                assert(events[n] == p[n]);
            }
        }
    }
}

/// Offering `a` and then `b` is offering `a + b`.
proof fn lemma_ingested_concat(
    s: Seq<Option<BeliefRecord>>,
    a: Seq<RawPerceptionEvent>,
    b: Seq<RawPerceptionEvent>,
    slot: int,
    now: Tick,
)
    ensures
        ingested(s, a + b, slot, now) == ingested(ingested(s, a, slot, now), b, slot, now),
    decreases b.len(),
{
    if b.len() == 0 {
        assert(a + b =~= a);
    } else {
        lemma_ingested_concat(s, a, b.drop_last(), slot, now);
        assert((a + b).drop_last() =~= a + b.drop_last());
        assert((a + b).last() == b.last());
    }
}

/// Events addressed elsewhere leave a store as it is.
proof fn lemma_ingested_elsewhere(
    s: Seq<Option<BeliefRecord>>,
    events: Seq<RawPerceptionEvent>,
    slot: int,
    now: Tick,
)
    requires
        forall|n: int| 0 <= n < events.len() ==> (#[trigger] events[n]).receiver.0 != slot,
    ensures
        ingested(s, events, slot, now) == s,
    decreases events.len(),
{
    if events.len() > 0 {
        let p = events.drop_last();
        assert forall|n: int| 0 <= n < p.len() implies (#[trigger] p[n]).receiver.0 != slot by {
            assert(p[n] == events[n]);
        }
        lemma_ingested_elsewhere(s, p, slot, now);
        assert(events[events.len() - 1] == events.last());
    }
}

/// A store with every slot empty, offered exactly one event addressed to
/// it, holds the belief made from that event in its first slot, with the
/// event's subject, kind and confidence.
pub proof fn lemma_single_perception_lands(
    s: Seq<Option<BeliefRecord>>,
    events: Seq<RawPerceptionEvent>,
    slot: int,
    now: Tick,
    n: int,
)
    requires
        s.len() > 0,
        forall|k: int| 0 <= k < s.len() ==> (#[trigger] s[k]) is None,
        0 <= n < events.len(),
        events[n].receiver.0 == slot,
        forall|m: int| 0 <= m < events.len() && m != n ==> (#[trigger] events[m]).receiver.0 != slot,
    ensures
        ingested(s, events, slot, now)[0] == Some(
            BeliefRecord {
                subject_id: events[n].target,
                kind: events[n].kind,
                observed_at: now,
                received_at: now,
                confidence: events[n].confidence,
                source_chain_hash: entity_hash(events[n].source_entity.0),
            },
        ),
{
    let pre = events.subrange(0, n);
    let mid = events.subrange(0, n + 1);
    let post = events.subrange(n + 1, events.len() as int);
    assert(events =~= mid + post);
    assert forall|m: int| 0 <= m < pre.len() implies (#[trigger] pre[m]).receiver.0 != slot by {
        assert(pre[m] == events[m]);
    }
    assert forall|m: int| 0 <= m < post.len() implies (#[trigger] post[m]).receiver.0 != slot by {
        assert(post[m] == events[n + 1 + m]);
    }
    lemma_ingested_elsewhere(s, pre, slot, now);
    assert(mid.drop_last() =~= pre);
    assert(mid.last() == events[n]);
    lemma_insert_into_empty(s, record_of(events[n], now));
    lemma_ingested_concat(s, mid, post, slot, now);
    lemma_ingested_elsewhere(ingested(s, mid, slot, now), post, slot, now);
}

/// Whether some event is addressed to slot `j`.
pub open spec fn addressed(events: Seq<RawPerceptionEvent>, j: int) -> bool {
    exists|k: int| 0 <= k < events.len() && #[trigger] events[k].receiver.0 == j
}

/// Turns each perception addressed to a slot of the registry into a belief
/// of its receiver, observed and received at `current_tick`, and marks the
/// receiver dirty. Events addressed beyond the slots are dropped.
pub fn run(registry: &mut SoARegistry, events: &[RawPerceptionEvent], current_tick: Tick)
    requires
        old(registry).wf(),
    ensures
        final(registry).wf(),
        forall|j: int|
            0 <= j < MAX_ENTITIES ==> (#[trigger] final(registry).beliefs@[j])@ == ingested(
                old(registry).beliefs@[j]@,
                events@,
                j,
                current_tick,
            ),
        forall|j: int|
            #[trigger] final(registry).dirty_set().contains(j) <==> (old(registry).dirty_set().contains(j)
                || (0 <= j < MAX_ENTITIES && addressed(events@, j))),
        forall|j: int, k: int|
            0 <= j < MAX_ENTITIES && 0 <= k < old(registry).beliefs@[j]@.len() && #[trigger] final(registry).beliefs@[j]@[k] != old(registry).beliefs@[j]@[k] ==> exists|n: int|
                0 <= n < events@.len() && events@[n].receiver.0 == j && final(registry).beliefs@[j]@[k]
                    == Some(
                    BeliefRecord {
                        subject_id: events@[n].target,
                        kind: events@[n].kind,
                        observed_at: current_tick,
                        received_at: current_tick,
                        confidence: events@[n].confidence,
                        source_chain_hash: entity_hash(events@[n].source_entity.0),
                    },
                ),
        forall|j: int, n: int|
            #![trigger final(registry).beliefs@[j], events@[n]]
            0 <= j < MAX_ENTITIES && 0 <= n < events@.len() && events@[n].receiver.0 == j
                && (forall|k: int|
                0 <= k < old(registry).beliefs@[j]@.len() ==> (#[trigger] old(registry).beliefs@[j]@[k]) is None)
                && (forall|m: int|
                0 <= m < events@.len() && m != n ==> (#[trigger] events@[m]).receiver.0 != j)
                ==> final(registry).beliefs@[j]@[0] == Some(
                    BeliefRecord {
                        subject_id: events@[n].target,
                        kind: events@[n].kind,
                        observed_at: current_tick,
                        received_at: current_tick,
                        confidence: events@[n].confidence,
                        source_chain_hash: entity_hash(events@[n].source_entity.0),
                    },
                ),
        final(registry).active == old(registry).active,
        final(registry).positions == old(registry).positions,
        final(registry).candidates == old(registry).candidates,
        final(registry).chosen_action == old(registry).chosen_action,
        final(registry).health == old(registry).health,
        final(registry).ammo == old(registry).ammo,
        final(registry).morale == old(registry).morale,
        final(registry).hunger == old(registry).hunger,
        final(registry).fatigue == old(registry).fatigue,
        final(registry).curiosity == old(registry).curiosity,
        final(registry).self_preservation == old(registry).self_preservation,
        final(registry).current_intent == old(registry).current_intent,
        final(registry).hierarchy_level == old(registry).hierarchy_level,
        final(registry).parent_ids == old(registry).parent_ids,
        final(registry).children_ids == old(registry).children_ids,
        final(registry).rng == old(registry).rng,
        final(registry).decision_traces == old(registry).decision_traces,
{
    let ghost start = *registry;
    let mut n: usize = 0;
    while n < events.len()
        invariant
            n <= events@.len(),
            registry.wf(),
            start == *old(registry),
            forall|j: int|
                0 <= j < MAX_ENTITIES ==> (#[trigger] registry.beliefs@[j])@ == ingested(
                    start.beliefs@[j]@,
                    events@.subrange(0, n as int),
                    j,
                    current_tick,
                ),
            forall|j: int|
                #[trigger] registry.dirty_set().contains(j) <==> (start.dirty_set().contains(j) || (0
                    <= j < MAX_ENTITIES && addressed(events@.subrange(0, n as int), j))),
            registry.active == start.active,
            registry.positions == start.positions,
            registry.candidates == start.candidates,
            registry.chosen_action == start.chosen_action,
            registry.health == start.health,
            registry.ammo == start.ammo,
            registry.morale == start.morale,
            registry.hunger == start.hunger,
            registry.fatigue == start.fatigue,
            registry.curiosity == start.curiosity,
            registry.self_preservation == start.self_preservation,
            registry.current_intent == start.current_intent,
            registry.hierarchy_level == start.hierarchy_level,
            registry.parent_ids == start.parent_ids,
            registry.children_ids == start.children_ids,
            registry.rng == start.rng,
            registry.decision_traces == start.decision_traces,
        decreases events@.len() - n,
    {
        let event = events[n];
        let ghost before = *registry;
        let ghost pre = events@.subrange(0, n as int);
        let ghost post = events@.subrange(0, n as int + 1);
        proof {
            assert(post.drop_last() == pre);
            assert(post.last() == event);
        }
        let idx = event.receiver.index();
        if idx < MAX_ENTITIES {
            let source_chain_hash = source_hash(event.source_entity);
            let record = BeliefRecord {
                subject_id: event.target,
                kind: event.kind,
                observed_at: current_tick,
                received_at: current_tick,
                confidence: event.confidence,
                source_chain_hash,
            };
            let mut store = BeliefStore::new();
            std::mem::swap(&mut store, &mut registry.beliefs[idx]);
            store.insert_or_update(record);
            registry.beliefs.set(idx, store);
            bitset_set(&mut registry.dirty_flag, idx, true);
            proof {
                assert forall|j: int|
                    0 <= j < MAX_ENTITIES implies (#[trigger] registry.beliefs@[j])@ == ingested(
                    start.beliefs@[j]@,
                    post,
                    j,
                    current_tick,
                ) by {
                    if j != idx {
                        assert(before.beliefs@[j]@ == ingested(start.beliefs@[j]@, pre, j, current_tick));
                    }
                }
                assert forall|j: int|
                    #[trigger] registry.dirty_set().contains(j) <==> (start.dirty_set().contains(j)
                        || (0 <= j < MAX_ENTITIES && addressed(post, j))) by {
                    assert(before.dirty_set().contains(j) <==> (start.dirty_set().contains(j) || (0
                        <= j < MAX_ENTITIES && addressed(pre, j))));
                    if addressed(pre, j) {
                        let k = choose|k: int| 0 <= k < pre.len() && #[trigger] pre[k].receiver.0 == j;
                        assert(post[k] == pre[k]);
                        assert(post[k].receiver.0 == j);
                    }
                    if addressed(post, j) && !addressed(pre, j) {
                        let k = choose|k: int| 0 <= k < post.len() && #[trigger] post[k].receiver.0 == j;
                        if k < n {
                            assert(pre[k] == post[k]);
                        }
                    }
                    if j == idx {
                        assert(post[n as int].receiver.0 == j);
                    }
                }
                assert forall|j: int| #[trigger] bitset_ones(registry.dirty_flag).contains(j) implies 0
                    <= j < MAX_ENTITIES by {
                    if j != idx {
                        assert(bitset_ones(before.dirty_flag).contains(j));
                    }
                }
                assert forall|k: int| 0 <= k < MAX_ENTITIES implies (#[trigger] registry.beliefs@[k]).wf() by {
                    if k != idx {
                        assert(before.beliefs@[k].wf());
                    }
                }
            }
        } else {
            proof {
                assert forall|j: int|
                    0 <= j < MAX_ENTITIES implies (#[trigger] registry.beliefs@[j])@ == ingested(
                    start.beliefs@[j]@,
                    post,
                    j,
                    current_tick,
                ) by {
                    assert(before.beliefs@[j]@ == ingested(start.beliefs@[j]@, pre, j, current_tick));
                }
                assert forall|j: int|
                    #[trigger] registry.dirty_set().contains(j) <==> (start.dirty_set().contains(j)
                        || (0 <= j < MAX_ENTITIES && addressed(post, j))) by {
                    assert(before.dirty_set().contains(j) <==> (start.dirty_set().contains(j) || (0
                        <= j < MAX_ENTITIES && addressed(pre, j))));
                    if addressed(pre, j) {
                        let k = choose|k: int| 0 <= k < pre.len() && #[trigger] pre[k].receiver.0 == j;
                        assert(post[k] == pre[k]);
                        assert(post[k].receiver.0 == j);
                    }
                    if 0 <= j < MAX_ENTITIES && addressed(post, j) && !addressed(pre, j) {
                        let k = choose|k: int| 0 <= k < post.len() && #[trigger] post[k].receiver.0 == j;
                        if k < n {
                            assert(pre[k] == post[k]);
                        } else {
                            assert(post[k] == event);
                            assert(idx == j);
                        }
                    }
                }
            }
        }
        n = n + 1;
    }
    proof {
        assert(events@.subrange(0, events@.len() as int) == events@);
        assert forall|j: int| 0 <= j < MAX_ENTITIES implies old(registry).beliefs@[j]@.len() > 0 by {
            assert(old(registry).beliefs@[j].wf());
        }
        assert forall|j: int, k: int|
            0 <= j < MAX_ENTITIES && 0 <= k < old(registry).beliefs@[j]@.len() && #[trigger] registry.beliefs@[j]@[k]
                != old(registry).beliefs@[j]@[k] implies exists|n: int|
                0 <= n < events@.len() && events@[n].receiver.0 == j && registry.beliefs@[j]@[k] == Some(
                    BeliefRecord {
                        subject_id: events@[n].target,
                        kind: events@[n].kind,
                        observed_at: current_tick,
                        received_at: current_tick,
                        confidence: events@[n].confidence,
                        source_chain_hash: entity_hash(events@[n].source_entity.0),
                    },
                ) by {
            assert(old(registry).beliefs@[j].wf());
            lemma_ingested_slots_come_from_events(old(registry).beliefs@[j]@, events@, j, current_tick);
            assert(registry.beliefs@[j]@ == ingested(old(registry).beliefs@[j]@, events@, j, current_tick));
        }
        assert forall|j: int, n: int|
            #![trigger registry.beliefs@[j], events@[n]]
            0 <= j < MAX_ENTITIES && 0 <= n < events@.len() && events@[n].receiver.0 == j
                && (forall|k: int|
                0 <= k < old(registry).beliefs@[j]@.len() ==> (#[trigger] old(registry).beliefs@[j]@[k]) is None)
                && (forall|m: int|
                0 <= m < events@.len() && m != n ==> (#[trigger] events@[m]).receiver.0 != j)
                implies registry.beliefs@[j]@[0] == Some(
                    BeliefRecord {
                        subject_id: events@[n].target,
                        kind: events@[n].kind,
                        observed_at: current_tick,
                        received_at: current_tick,
                        confidence: events@[n].confidence,
                        source_chain_hash: entity_hash(events@[n].source_entity.0),
                    },
                ) by {
            assert(old(registry).beliefs@[j].wf());
            lemma_single_perception_lands(old(registry).beliefs@[j]@, events@, j, current_tick, n);
            assert(registry.beliefs@[j]@ == ingested(old(registry).beliefs@[j]@, events@, j, current_tick));
        }
    }
}

} // verus!
