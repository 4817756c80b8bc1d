use vstd::prelude::*;
use crate::belief::record::BeliefRecord;
use crate::belief::store::{
    BeliefStore, after_insert, lemma_insert_changed_slot, lemma_insert_changes_one_slot,
};
use crate::comm::event::{CommEvent, CommEventView, Payload, PayloadView};
use crate::core_types::action::Intent;
use crate::core_types::time::Tick;
use crate::registry::bitset::{bitset_ones, bitset_insert};
use crate::registry::soa::{SoARegistry, MAX_ENTITIES};

verus! {

/// A reported belief as the receiver files it: received at `now`.
pub open spec fn filed(b: BeliefRecord, now: Tick) -> BeliefRecord {
    BeliefRecord { received_at: now, ..b }
}

/// The slots after the reported beliefs `bs` are filed, in order.
pub open spec fn file_reports(
    s: Seq<Option<BeliefRecord>>,
    bs: Seq<BeliefRecord>,
    now: Tick,
) -> Seq<Option<BeliefRecord>>
    decreases bs.len(),
{
    if bs.len() == 0 {
        s
    } else {
        after_insert(file_reports(s, bs.drop_last(), now), filed(bs.last(), now))
    }
}

/// What an entity holds after taking the messages `evs` in order, starting
/// from beliefs `s` and intent `intent`: reported beliefs are filed, a
/// directive becomes the current intent. The flag says whether anything
/// was taken in (a belief filed or an intent set).
pub open spec fn take_in(
    s: Seq<Option<BeliefRecord>>,
    intent: Option<Intent>,
    evs: Seq<CommEventView>,
    now: Tick,
) -> (Seq<Option<BeliefRecord>>, Option<Intent>, bool)
    decreases evs.len(),
{
    if evs.len() == 0 {
        (s, intent, false)
    } else {
        let prev = take_in(s, intent, evs.drop_last(), now);
        match evs.last().payload {
            PayloadView::StatusReport(bs) => (
                file_reports(prev.0, bs, now),
                prev.1,
                prev.2 || bs.len() > 0,
            ),
            PayloadView::IntentDirective(i) => (prev.0, Some(i), true),
        }
    }
}

/// The views of a list of messages.
pub open spec fn event_views(evs: Seq<CommEvent>) -> Seq<CommEventView> {
    evs.map_values(|e: CommEvent| e@)
}

/// Filing reported beliefs keeps the number of slots, and every slot it
/// changes holds one of the reported beliefs as it was reported, except
/// that it was received now.
pub proof fn lemma_filed_slots_come_from_reports(
    s: Seq<Option<BeliefRecord>>,
    bs: Seq<BeliefRecord>,
    now: Tick,
)
    requires
        s.len() > 0,
    ensures
        file_reports(s, bs, now).len() == s.len(),
        forall|k: int|
            0 <= k < s.len() && #[trigger] file_reports(s, bs, now)[k] != s[k] ==> exists|n: int|
                0 <= n < bs.len() && file_reports(s, bs, now)[k] == Some(
                    BeliefRecord {
                        subject_id: bs[n].subject_id,
                        kind: bs[n].kind,
                        observed_at: bs[n].observed_at,
                        received_at: now,
                        confidence: bs[n].confidence,
                        source_chain_hash: bs[n].source_chain_hash,
                    },
                ),
    decreases bs.len(),
{
    if bs.len() > 0 {
        let p = bs.drop_last();
        lemma_filed_slots_come_from_reports(s, p, now);
        let prev = file_reports(s, p, now);
        let cur = file_reports(s, bs, now);
        let b = bs.last();
        lemma_insert_changes_one_slot(prev, filed(b, now));
        assert forall|k: int|
            0 <= k < s.len() && #[trigger] file_reports(s, bs, now)[k] != s[k] implies exists|n: int|
                0 <= n < bs.len() && file_reports(s, bs, now)[k] == Some(
                    BeliefRecord {
                        subject_id: bs[n].subject_id,
                        kind: bs[n].kind,
                        observed_at: bs[n].observed_at,
                        received_at: now,
                        confidence: bs[n].confidence,
                        source_chain_hash: bs[n].source_chain_hash,
                    },
                ) by {
            if cur[k] != prev[k] {
                lemma_insert_changed_slot(prev, filed(b, now), k);
                assert(bs[bs.len() - 1] == b);
            } else {
                let n = choose|n: int|
                    0 <= n < p.len() && prev[k] == Some(
                        BeliefRecord {
                            subject_id: p[n].subject_id,
                            kind: p[n].kind,
                            observed_at: p[n].observed_at,
                            received_at: now,
                            confidence: p[n].confidence,
                            source_chain_hash: p[n].source_chain_hash,
                        },
                    );
                assert(bs[n] == p[n]);
            }
        }
    }
}

/// The intent after taking in messages: that of the last directive among
/// them, or, with no directive, the intent held before.
pub proof fn lemma_last_directive_wins(
    s: Seq<Option<BeliefRecord>>,
    intent: Option<Intent>,
    evs: Seq<CommEventView>,
    now: Tick,
)
    ensures
        (forall|m: int| 0 <= m < evs.len() ==> !((#[trigger] evs[m]).payload is IntentDirective))
            ==> take_in(s, intent, evs, now).1 == intent,
        forall|n: int|
            0 <= n < evs.len() && (forall|m: int|
                n < m < evs.len() ==> !((#[trigger] evs[m]).payload is IntentDirective)) ==> (
            #[trigger] evs[n].payload matches PayloadView::IntentDirective(i) ==> take_in(
                s,
                intent,
                evs,
                now,
            ).1 == Some(i)),
    decreases evs.len(),
{
    if evs.len() > 0 {
        let p = evs.drop_last();
        lemma_last_directive_wins(s, intent, p, now);
        let last = evs.len() - 1;
        assert(evs[last] == evs.last());
        assert forall|m: int| 0 <= m < p.len() implies #[trigger] p[m] == evs[m] by {}
        assert forall|n: int|
            0 <= n < evs.len() && (forall|m: int|
                n < m < evs.len() ==> !((#[trigger] evs[m]).payload is IntentDirective)) implies (
            #[trigger] evs[n].payload matches PayloadView::IntentDirective(i) ==> take_in(
                s,
                intent,
                evs,
                now,
            ).1 == Some(i)) by {
            if n < last {
                assert(!(evs[last].payload is IntentDirective));
                assert(p[n] == evs[n]);
                assert forall|m: int| n < m < p.len() implies !((#[trigger] p[m]).payload is IntentDirective) by {
                    assert(p[m] == evs[m]);
                }
            }
        }
        if forall|m: int| 0 <= m < evs.len() ==> !((#[trigger] evs[m]).payload is IntentDirective) {
            assert(!(evs[last].payload is IntentDirective));
            assert forall|m: int| 0 <= m < p.len() implies !((#[trigger] p[m]).payload is IntentDirective) by {
                assert(p[m] == evs[m]);
            }
        }
    }
}

fn file_all(store: &mut BeliefStore, beliefs: &Vec<BeliefRecord>, current_tick: Tick)
    requires
        old(store).wf(),
    ensures
        final(store).wf(),
        final(store)@ == file_reports(old(store)@, beliefs@, current_tick),
{
    let mut j: usize = 0;
    while j < beliefs.len()
        invariant
            j <= beliefs@.len(),
            store.wf(),
            store@ == file_reports(old(store)@, beliefs@.subrange(0, j as int), current_tick),
        decreases beliefs@.len() - j,
    {
        proof {
            let post = beliefs@.subrange(0, j as int + 1);
            assert(post.drop_last() == beliefs@.subrange(0, j as int));
            assert(post.last() == beliefs@[j as int]);
        }
        let mut b = beliefs[j];
        b.received_at = current_tick;
        store.insert_or_update(b);
        j = j + 1;
    }
    proof {
        assert(beliefs@.subrange(0, beliefs@.len() as int) == beliefs@);
    }
}

/// Entity `idx` takes in the messages delivered to it: each status report
/// has its beliefs filed, received now; each directive becomes the current
/// intent. The entity is marked dirty when anything was taken in.
pub fn take_delivered(
    registry: &mut SoARegistry,
    idx: usize,
    delivered: Vec<CommEvent>,
    current_tick: Tick,
)
    requires
        old(registry).wf(),
        idx < MAX_ENTITIES,
    ensures
        final(registry).wf(),
        ({
            let t = take_in(
                old(registry).beliefs@[idx as int]@,
                old(registry).current_intent@[idx as int],
                event_views(delivered@),
                current_tick,
            );
            &&& final(registry).beliefs@[idx as int]@ == t.0
            &&& final(registry).current_intent@ == old(registry).current_intent@.update(idx as int, t.1)
            &&& final(registry).dirty_set() == if t.2 {
                old(registry).dirty_set().insert(idx as int)
            } else {
                old(registry).dirty_set()
            }
        }),
        (forall|m: int|
            0 <= m < delivered@.len() ==> !((#[trigger] delivered@[m]).payload is IntentDirective))
            ==> final(registry).current_intent@[idx as int] == old(registry).current_intent@[idx as int],
        forall|n: int|
            0 <= n < delivered@.len() && (forall|m: int|
                n < m < delivered@.len() ==> !((#[trigger] delivered@[m]).payload is IntentDirective))
                ==> (#[trigger] delivered@[n].payload matches Payload::IntentDirective(i)
                ==> final(registry).current_intent@[idx as int] == Some(i)),
        forall|j: int|
            0 <= j < MAX_ENTITIES && j != idx ==> #[trigger] final(registry).beliefs@[j]
                == old(registry).beliefs@[j],
        final(registry).beliefs@.len() == old(registry).beliefs@.len(),
        final(registry).active == old(registry).active,
        final(registry).positions == old(registry).positions,
        final(registry).candidates == old(registry).candidates,
        final(registry).chosen_action == old(registry).chosen_action,
        final(registry).health == old(registry).health,
        final(registry).ammo == old(registry).ammo,
        final(registry).morale == old(registry).morale,
        final(registry).hunger == old(registry).hunger,
        final(registry).fatigue == old(registry).fatigue,
        final(registry).curiosity == old(registry).curiosity,
        final(registry).self_preservation == old(registry).self_preservation,
        final(registry).hierarchy_level == old(registry).hierarchy_level,
        final(registry).parent_ids == old(registry).parent_ids,
        final(registry).children_ids == old(registry).children_ids,
        final(registry).rng == old(registry).rng,
        final(registry).decision_traces == old(registry).decision_traces,
{
    let ghost start = *registry;
    let ghost views = event_views(delivered@);
    let mut store = BeliefStore::new();
    std::mem::swap(&mut store, &mut registry.beliefs[idx]);
    let ghost s0 = store@;
    assert(s0 == start.beliefs@[idx as int]@);
    let mut intent = registry.current_intent[idx];
    let mut modified = false;
    let mut n: usize = 0;
    while n < delivered.len()
        invariant
            n <= delivered@.len(),
            views == event_views(delivered@),
            store.wf(),
            (store@, intent, modified) == take_in(
                s0,
                start.current_intent@[idx as int],
                views.subrange(0, n as int),
                current_tick,
            ),
        decreases delivered@.len() - n,
    {
        proof {
            let post = views.subrange(0, n as int + 1);
            assert(post.drop_last() == views.subrange(0, n as int));
            assert(post.last() == delivered@[n as int]@);
        }
        match &delivered[n].payload {
            Payload::StatusReport(beliefs) => {
                file_all(&mut store, beliefs, current_tick);
                if beliefs.len() > 0 {
                    modified = true;
                }
            },
            Payload::IntentDirective(i) => {
                intent = Some(*i);
                modified = true;
            },
        }
        n = n + 1;
    }
    proof {
        assert(views.subrange(0, views.len() as int) == views);
        lemma_last_directive_wins(s0, start.current_intent@[idx as int], views, current_tick);
        assert forall|m: int| 0 <= m < delivered@.len() implies #[trigger] views[m] == delivered@[m]@ by {}
        if forall|m: int|
            0 <= m < delivered@.len() ==> !((#[trigger] delivered@[m]).payload is IntentDirective) {
            assert forall|m: int| 0 <= m < views.len() implies !((#[trigger] views[m]).payload is IntentDirective) by {
                assert(views[m] == delivered@[m]@);
            }
        }
        assert forall|n: int|
            0 <= n < delivered@.len() && (forall|m: int|
                n < m < delivered@.len() ==> !((#[trigger] delivered@[m]).payload is IntentDirective))
                implies (#[trigger] delivered@[n].payload matches Payload::IntentDirective(i)
                ==> intent == Some(i)) by {
            assert forall|m: int| n < m < views.len() implies !((#[trigger] views[m]).payload is IntentDirective) by {
                assert(views[m] == delivered@[m]@);
            }
            assert(views[n] == delivered@[n]@);
        }
    }
    registry.beliefs.set(idx, store);
    registry.current_intent.set(idx, intent);
    if modified {
        bitset_insert(&mut registry.dirty_flag, idx);
    }
    proof {
        assert forall|j: int| #[trigger] bitset_ones(registry.dirty_flag).contains(j) implies 0 <= j
            < MAX_ENTITIES by {
            if j != idx {
                assert(bitset_ones(start.dirty_flag).contains(j));
            }
        }
        assert forall|k: int| 0 <= k < MAX_ENTITIES implies (#[trigger] registry.beliefs@[k]).wf() by {
            if k != idx {
                assert(start.beliefs@[k].wf());
            }
        }
    }
}

} // verus!
