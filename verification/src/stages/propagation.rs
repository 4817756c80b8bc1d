use vstd::prelude::*;
use crate::belief::record::{BeliefKind, BeliefRecord};
use crate::belief::store::present;
use crate::comm::channel::CommChannel;
use crate::comm::event::{CommEvent, CommEventView, Payload, PayloadView};
use crate::core_types::action::Intent;
use crate::core_types::id::{EntityId, HierarchyLevel};
use crate::core_types::math::{Scalar, float_lt};
use crate::core_types::time::Tick;
use crate::registry::bitset::{bitset_ones, bitset_ones_list};
use crate::registry::soa::{SoARegistry, MAX_ENTITIES, HALF_BITS, ONE_BITS, registry_wf};

verus! {

/// Steps from sending to delivery of a status report.
pub const REPORT_DELAY: u64 = 2;

/// Whether `r` reports a threat level above one half, with a confidence
/// above one half.
pub open spec fn is_high_threat(r: BeliefRecord) -> bool {
    match r.kind {
        BeliefKind::ThreatLevel(v) => float_lt(HALF_BITS, v.0) && float_lt(HALF_BITS, r.confidence.0),
        _ => false,
    }
}

/// Whether some belief in `b` reports a high threat.
pub open spec fn has_high_threat(b: Seq<BeliefRecord>) -> bool {
    exists|k: int| 0 <= k < b.len() && #[trigger] is_high_threat(b[k])
}

/// Whether an entity of rank `level` hands its choice down to its children.
pub open spec fn is_leader(level: HierarchyLevel) -> bool {
    level == HierarchyLevel::SquadLeader || level == HierarchyLevel::PlatoonCommander
}

/// The rank an intent handed down by an entity of rank `level` carries.
pub open spec fn intent_rank(level: HierarchyLevel) -> u8 {
    if level == HierarchyLevel::PlatoonCommander {
        2
    } else {
        1
    }
}

/// Steps from sending to delivery of an intent handed down by an entity of
/// rank `level`.
pub open spec fn intent_delay(level: HierarchyLevel) -> u64 {
    if level == HierarchyLevel::PlatoonCommander {
        5
    } else {
        2
    }
}

/// Whether the entity in slot `idx` reports: a soldier that believes in a
/// high threat and has a parent.
pub open spec fn reports(reg: SoARegistry, idx: int) -> bool {
    &&& reg.hierarchy_level@[idx] == HierarchyLevel::Soldier
    &&& has_high_threat(present(reg.beliefs@[idx]@))
    &&& reg.parent_ids@[idx] is Some
}

/// Whether the delivery ticks of what slot `idx` sends at `now` fit in a
/// tick: the report's when it reports, the directives' when it leads
/// children.
pub open spec fn sends_fit(reg: SoARegistry, idx: int, now: Tick) -> bool {
    &&& reports(reg, idx) ==> now.0 + REPORT_DELAY <= u64::MAX
    &&& (is_leader(reg.hierarchy_level@[idx]) && reg.children_ids@[idx]@.len() > 0) ==> now.0
        + intent_delay(reg.hierarchy_level@[idx]) <= u64::MAX
}

/// Whether the delivery ticks of everything sent at `now` fit in a tick.
pub open spec fn delays_fit(reg: SoARegistry, now: Tick) -> bool {
    forall|j: int|
        0 <= j < MAX_ENTITIES && bitset_ones(reg.active).contains(j) ==> #[trigger] sends_fit(
            reg,
            j,
            now,
        )
}

/// The status report a soldier in slot `idx` sends: when it believes in a
/// high threat and has a parent, one message to the parent with all its
/// beliefs, delivered two steps later.
pub open spec fn report_of(reg: SoARegistry, idx: int, now: Tick) -> Seq<CommEventView> {
    let beliefs = present(reg.beliefs@[idx]@);
    if reports(reg, idx) {
        seq![
            CommEventView {
                sender: EntityId(idx as u32),
                receiver: reg.parent_ids@[idx].unwrap(),
                payload: PayloadView::StatusReport(beliefs),
                send_tick: now,
                delivery_tick: Tick((now.0 + REPORT_DELAY) as u64),
            },
        ]
    } else {
        Seq::empty()
    }
}

/// The intent a leader in slot `idx` hands down: its chosen action.
pub open spec fn intent_of(reg: SoARegistry, idx: int) -> Intent {
    Intent {
        origin_rank: intent_rank(reg.hierarchy_level@[idx]),
        goal: reg.chosen_action@[idx],
        confidence: Scalar(ONE_BITS),
    }
}

/// The directive a leader in slot `idx` sends to `child`.
pub open spec fn directive_to(reg: SoARegistry, idx: int, child: EntityId, now: Tick) -> CommEventView {
    CommEventView {
        sender: EntityId(idx as u32),
        receiver: child,
        payload: PayloadView::IntentDirective(intent_of(reg, idx)),
        send_tick: now,
        delivery_tick: Tick((now.0 + intent_delay(reg.hierarchy_level@[idx])) as u64),
    }
}

/// The directives a leader in slot `idx` sends: one to each child, in the
/// order of its children list.
pub open spec fn directives_of(reg: SoARegistry, idx: int, now: Tick) -> Seq<CommEventView> {
    if is_leader(reg.hierarchy_level@[idx]) {
        reg.children_ids@[idx]@.map_values(|c: EntityId| directive_to(reg, idx, c, now))
    } else {
        Seq::empty()
    }
}

/// Everything slot `idx` sends in one propagation.
pub open spec fn outbox(reg: SoARegistry, idx: int, now: Tick) -> Seq<CommEventView> {
    report_of(reg, idx, now) + directives_of(reg, idx, now)
}

/// Everything the active slots below `n` send, in slot order.
pub open spec fn outbox_upto(reg: SoARegistry, n: int, now: Tick) -> Seq<CommEventView>
    decreases n,
{
    if n <= 0 {
        Seq::empty()
    } else if bitset_ones(reg.active).contains(n - 1) {
        outbox_upto(reg, n - 1, now) + outbox(reg, n - 1, now)
    } else {
        outbox_upto(reg, n - 1, now)
    }
}

proof fn lemma_outbox_skip(reg: SoARegistry, lo: int, hi: int, now: Tick)
    requires
        0 <= lo <= hi,
        forall|j: int| lo <= j < hi ==> !#[trigger] bitset_ones(reg.active).contains(j),
    ensures
        outbox_upto(reg, hi, now) == outbox_upto(reg, lo, now),
    decreases hi - lo,
{
    if hi > lo {
        lemma_outbox_skip(reg, lo, hi - 1, now);
    }
}

fn threatened(beliefs: &Vec<BeliefRecord>) -> (r: bool)
    ensures
        r == has_high_threat(beliefs@),
{
    let half = Scalar(HALF_BITS);
    let mut i: usize = 0;
    while i < beliefs.len()
        invariant
            i <= beliefs@.len(),
            half.0 == HALF_BITS,
            forall|k: int| 0 <= k < i ==> !#[trigger] is_high_threat(beliefs@[k]),
        decreases beliefs@.len() - i,
    {
        let record = beliefs[i];
        if let BeliefKind::ThreatLevel(val) = record.kind {
            if val.gt(half) && record.confidence.gt(half) {
                assert(is_high_threat(beliefs@[i as int]));
                return true;
            }
        }
        i = i + 1;
    }
    false
}

fn slot_sends_fit(registry: &SoARegistry, idx: usize, current_tick: Tick) -> (r: bool)
    requires
        registry.wf(),
        idx < MAX_ENTITIES,
    ensures
        r == sends_fit(*registry, idx as int, current_tick),
{
    let level = registry.hierarchy_level[idx];
    let reports_up = level == HierarchyLevel::Soldier && threatened(&registry.beliefs[idx].iter())
        && registry.parent_ids[idx].is_some();
    if reports_up && current_tick.0 > u64::MAX - REPORT_DELAY {
        return false;
    }
    if (level == HierarchyLevel::SquadLeader || level == HierarchyLevel::PlatoonCommander)
        && registry.children_ids[idx].len() > 0 {
        let delay: u64 = if level == HierarchyLevel::PlatoonCommander {
            5
        } else {
            2
        };
        if current_tick.0 > u64::MAX - delay {
            return false;
        }
    }
    true
}

/// Whether the delivery ticks of everything `run` would send at
/// `current_tick` fit in a tick, which `run` needs.
pub fn delivery_ticks_fit(registry: &SoARegistry, current_tick: Tick) -> (r: bool)
    requires
        registry.wf(),
    ensures
        r == delays_fit(*registry, current_tick),
{
    let list = bitset_ones_list(&registry.active);
    let mut n: usize = 0;
    while n < list.len()
        invariant
            n <= list@.len(),
            registry.wf(),
            forall|m: int|
                0 <= m < list@.len() ==> bitset_ones(registry.active).contains(
                    #[trigger] list@[m] as int,
                ),
            forall|j: int| #[trigger] bitset_ones(registry.active).contains(j) ==> list@.contains(j as usize),
            forall|m: int| 0 <= m < n ==> sends_fit(*registry, #[trigger] list@[m] as int, current_tick),
        decreases list@.len() - n,
    {
        let idx = list[n];
        assert(bitset_ones(registry.active).contains(list@[n as int] as int));
        if !slot_sends_fit(registry, idx, current_tick) {
            return false;
        }
        n = n + 1;
    }
    proof {
        assert forall|j: int|
            0 <= j < MAX_ENTITIES && bitset_ones(registry.active).contains(j) implies #[trigger] sends_fit(
            *registry,
            j,
            current_tick,
        ) by {
            assert(list@.contains(j as usize));
            let m = choose|m: int| 0 <= m < list@.len() && list@[m] == j as usize;
            assert(sends_fit(*registry, list@[m] as int, current_tick));
        }
    }
    true
}

/// Sends what slot `idx` sends; see `outbox`.
fn send_from(registry: &SoARegistry, idx: usize, channel: &mut CommChannel, current_tick: Tick)
    requires
        registry.wf(),
        idx < MAX_ENTITIES,
        sends_fit(*registry, idx as int, current_tick),
    ensures
        final(channel)@.len() == old(channel)@.len() + outbox(*registry, idx as int, current_tick).len(),
        forall|k: int| 0 <= k < old(channel)@.len() ==> #[trigger] final(channel)@[k] == old(channel)@[k],
        forall|k: int|
            0 <= k < outbox(*registry, idx as int, current_tick).len() ==> (#[trigger] final(channel)@[old(channel)@.len() + k])@ == outbox(*registry, idx as int, current_tick)[k],
{
    let ghost reg = *registry;
    let ghost base = old(channel)@;
    let level = registry.hierarchy_level[idx];
    let ghost report = report_of(reg, idx as int, current_tick);
    let ghost directives = directives_of(reg, idx as int, current_tick);
    if level == HierarchyLevel::Soldier {
        let reports = registry.beliefs[idx].iter();
        if threatened(&reports) {
            if let Some(parent) = registry.parent_ids[idx] {
                let event = CommEvent {
                    sender: EntityId(idx as u32),
                    receiver: parent,
                    payload: Payload::StatusReport(reports),
                    send_tick: current_tick,
                    delivery_tick: current_tick + REPORT_DELAY,
                };
                channel.send(event);
            }
        }
    }
    assert(channel@.len() == base.len() + report.len());
    assert(forall|k: int| 0 <= k < base.len() ==> #[trigger] channel@[k] == base[k]);
    assert(forall|k: int| 0 <= k < report.len() ==> (#[trigger] channel@[base.len() + k])@ == report[k]);
    if level == HierarchyLevel::SquadLeader || level == HierarchyLevel::PlatoonCommander {
        let intent = Intent {
            origin_rank: if level == HierarchyLevel::PlatoonCommander {
                2
            } else {
                1
            },
            goal: registry.chosen_action[idx],
            confidence: Scalar(ONE_BITS),
        };
        let delay: u64 = if level == HierarchyLevel::PlatoonCommander {
            5
        } else {
            2
        };
        let children = &registry.children_ids[idx];
        let ghost mid = channel@;
        let mut c: usize = 0;
        while c < children.len()
            invariant
                c <= children@.len(),
                children@ == reg.children_ids@[idx as int]@,
                reg == *registry,
                idx < MAX_ENTITIES,
                is_leader(level),
                level == reg.hierarchy_level@[idx as int],
                intent == intent_of(reg, idx as int),
                delay == intent_delay(level),
                children@.len() > 0 ==> current_tick.0 + delay <= u64::MAX,
                channel@.len() == mid.len() + c,
                forall|k: int| 0 <= k < mid.len() ==> #[trigger] channel@[k] == mid[k],
                forall|k: int|
                    0 <= k < c ==> (#[trigger] channel@[mid.len() + k])@ == directive_to(
                        reg,
                        idx as int,
                        children@[k],
                        current_tick,
                    ),
            decreases children@.len() - c,
        {
            let event = CommEvent {
                sender: EntityId(idx as u32),
                receiver: children[c],
                payload: Payload::IntentDirective(intent),
                send_tick: current_tick,
                delivery_tick: current_tick + delay,
            };
            channel.send(event);
            c = c + 1;
        }
    }
    proof {
        let out = outbox(reg, idx as int, current_tick);
        assert(out == report + directives);
        assert forall|k: int| 0 <= k < out.len() implies (#[trigger] channel@[base.len() + k])@ == out[k] by {
            if k >= report.len() {
                let m = k - report.len();
                assert(channel@[base.len() + k] == channel@[(base.len() + report.len()) + m]);
            }
        }
    }
}

/// Every active entity, in slot order, sends what its rank and beliefs call
/// for: a soldier that believes in a high threat reports all its beliefs to
/// its parent (delivered two steps later); a squad leader or platoon
/// commander hands its chosen action down to each of its children as an
/// intent (delivered two steps later, five for a platoon commander).
pub fn run(registry: &SoARegistry, channel: &mut CommChannel, current_tick: Tick)
    requires
        registry.wf(),
        delays_fit(*registry, current_tick),
    ensures
        final(channel)@.len() == old(channel)@.len() + outbox_upto(
            *registry,
            MAX_ENTITIES as int,
            current_tick,
        ).len(),
        forall|k: int| 0 <= k < old(channel)@.len() ==> #[trigger] final(channel)@[k] == old(channel)@[k],
        forall|k: int|
            0 <= k < outbox_upto(*registry, MAX_ENTITIES as int, current_tick).len() ==> (
            #[trigger] final(channel)@[old(channel)@.len() + k])@ == outbox_upto(
                *registry,
                MAX_ENTITIES as int,
                current_tick,
            )[k],
        forall|k: int|
            old(channel)@.len() <= k < final(channel)@.len() && (#[trigger] final(channel)@[k]).payload is StatusReport ==> {
                &&& final(channel)@[k].sender.0 < MAX_ENTITIES
                &&& registry.hierarchy_level@[final(channel)@[k].sender.0 as int]
                    == HierarchyLevel::Soldier
            },
{
    proof {
        lemma_reports_only_from_soldiers_upto(*registry, MAX_ENTITIES as int, current_tick);
    }
    let ghost reg = *registry;
    let ghost base = old(channel)@;
    let list = bitset_ones_list(&registry.active);
    let mut n: usize = 0;
    let mut bound: usize = 0;
    while n < list.len()
        invariant
            n <= list@.len(),
            reg == *registry,
            registry.wf(),
            delays_fit(reg, current_tick),
            base == old(channel)@,
            forall|a: int, b: int| 0 <= a < b < list@.len() ==> list@[a] < list@[b],
            forall|m: int| 0 <= m < list@.len() ==> bitset_ones(reg.active).contains(#[trigger] list@[m] as int),
            forall|j: int| #[trigger] bitset_ones(reg.active).contains(j) ==> list@.contains(j as usize),
            n == 0 ==> bound == 0,
            n > 0 ==> bound == list@[n - 1] + 1,
            bound <= MAX_ENTITIES,
            channel@.len() == base.len() + outbox_upto(reg, bound as int, current_tick).len(),
            forall|k: int| 0 <= k < base.len() ==> #[trigger] channel@[k] == base[k],
            forall|k: int|
                0 <= k < outbox_upto(reg, bound as int, current_tick).len() ==> (
                #[trigger] channel@[base.len() + k])@ == outbox_upto(reg, bound as int, current_tick)[k],
        decreases list@.len() - n,
    {
        let idx = list[n];
        proof {
            assert(bitset_ones(reg.active).contains(list@[n as int] as int));
            assert forall|j: int| bound <= j < idx implies !#[trigger] bitset_ones(reg.active).contains(j) by {
                if bitset_ones(reg.active).contains(j) {
                    assert(list@.contains(j as usize));
                    let m = choose|m: int| 0 <= m < list@.len() && list@[m] == j as usize;
                    if m < n {
                        if n > 0 {
                            assert(list@[m] <= list@[n - 1]);
                        }
                    } else if m > n {
                        assert(list@[n as int] < list@[m]);
                    }
                }
            }
            lemma_outbox_skip(reg, bound as int, idx as int, current_tick);
        }
        assert(sends_fit(reg, idx as int, current_tick));
        let ghost before = channel@;
        let ghost prefix = outbox_upto(reg, idx as int, current_tick);
        send_from(registry, idx, channel, current_tick);
        proof {
            let out = outbox(reg, idx as int, current_tick);
            assert(outbox_upto(reg, idx as int + 1, current_tick) == prefix + out);
            assert forall|k: int| 0 <= k < prefix.len() + out.len() implies (#[trigger] channel@[base.len()
                + k])@ == (prefix + out)[k] by {
                if k >= prefix.len() {
                    let m = k - prefix.len();
                    assert(channel@[base.len() + k] == channel@[before.len() + m]);
                } else {
                    assert(channel@[base.len() + k] == before[base.len() + k]);
                }
            }
            assert forall|k: int| 0 <= k < base.len() implies #[trigger] channel@[k] == base[k] by {
                assert(channel@[k] == before[k]);
            }
        }
        bound = idx + 1;
        n = n + 1;
    }
    proof {
        assert forall|j: int| bound <= j < MAX_ENTITIES implies !#[trigger] bitset_ones(reg.active).contains(j) by {
            if bitset_ones(reg.active).contains(j) {
                assert(list@.contains(j as usize));
                let m = choose|m: int| 0 <= m < list@.len() && list@[m] == j as usize;
                if n > 0 {
                    assert(list@[m] <= list@[n - 1]);
                }
            }
        }
        lemma_outbox_skip(reg, bound as int, MAX_ENTITIES as int, current_tick);
        let all = outbox_upto(reg, MAX_ENTITIES as int, current_tick);
        assert forall|k: int|
            base.len() <= k < channel@.len() && (#[trigger] channel@[k]).payload is StatusReport implies {
                &&& channel@[k].sender.0 < MAX_ENTITIES
                &&& reg.hierarchy_level@[channel@[k].sender.0 as int] == HierarchyLevel::Soldier
            } by {
            let m = k - base.len();
            assert(channel@[base.len() + m]@ == all[m]);
            assert(all[m].payload is StatusReport);
        }
    }
}

/// Only a soldier sends a status report; everything a slot sends names that
/// slot as its sender.
pub proof fn lemma_reports_only_from_soldiers(reg: SoARegistry, idx: int, now: Tick)
    requires
        0 <= idx < MAX_ENTITIES,
    ensures
        forall|k: int|
            0 <= k < outbox(reg, idx, now).len() ==> (#[trigger] outbox(reg, idx, now)[k]).sender
                == EntityId(idx as u32),
        reg.hierarchy_level@[idx] != HierarchyLevel::Soldier ==> forall|k: int|
            0 <= k < outbox(reg, idx, now).len() ==> !((#[trigger] outbox(
                reg,
                idx,
                now,
            )[k]).payload is StatusReport),
{
    let r = report_of(reg, idx, now);
    let d = directives_of(reg, idx, now);
    assert forall|k: int| 0 <= k < outbox(reg, idx, now).len() implies {
        &&& (#[trigger] outbox(reg, idx, now)[k]).sender == EntityId(idx as u32)
        &&& reg.hierarchy_level@[idx] != HierarchyLevel::Soldier ==> !(outbox(
            reg,
            idx,
            now,
        )[k].payload is StatusReport)
    } by {
        if k >= r.len() {
            let m = k - r.len();
            assert(outbox(reg, idx, now)[k] == d[m]);
            let c = reg.children_ids@[idx]@[m];
            assert(d[m] == directive_to(reg, idx, c, now));
        }
    }
}

/// What the messages of a slot carry: a directive hands down the slot's
/// chosen action, with rank 2 and delivery five steps later from a platoon
/// commander, rank 1 and two steps later from a squad leader; a status
/// report carries all the slot's beliefs and arrives two steps later.
pub proof fn lemma_message_contents(reg: SoARegistry, idx: int, now: Tick)
    requires
        0 <= idx < MAX_ENTITIES,
        sends_fit(reg, idx, now),
    ensures
        forall|k: int|
            0 <= k < outbox(reg, idx, now).len() ==> {
                let e = #[trigger] outbox(reg, idx, now)[k];
                &&& e.payload matches PayloadView::IntentDirective(i) ==> {
                    &&& i.goal == reg.chosen_action@[idx]
                    &&& reg.hierarchy_level@[idx] == HierarchyLevel::PlatoonCommander ==> i.origin_rank
                        == 2 && e.delivery_tick.0 == now.0 + 5
                    &&& reg.hierarchy_level@[idx] == HierarchyLevel::SquadLeader ==> i.origin_rank
                        == 1 && e.delivery_tick.0 == now.0 + 2
                    &&& (reg.hierarchy_level@[idx] == HierarchyLevel::PlatoonCommander
                        || reg.hierarchy_level@[idx] == HierarchyLevel::SquadLeader)
                }
                &&& e.payload matches PayloadView::StatusReport(b) ==> {
                    &&& b == present(reg.beliefs@[idx]@)
                    &&& e.delivery_tick.0 == now.0 + 2
                }
            },
{
    let r = report_of(reg, idx, now);
    let d = directives_of(reg, idx, now);
    assert forall|k: int| 0 <= k < outbox(reg, idx, now).len() implies {
        let e = #[trigger] outbox(reg, idx, now)[k];
        &&& e.payload matches PayloadView::IntentDirective(i) ==> {
            &&& i.goal == reg.chosen_action@[idx]
            &&& reg.hierarchy_level@[idx] == HierarchyLevel::PlatoonCommander ==> i.origin_rank == 2
                && e.delivery_tick.0 == now.0 + 5
            &&& reg.hierarchy_level@[idx] == HierarchyLevel::SquadLeader ==> i.origin_rank == 1
                && e.delivery_tick.0 == now.0 + 2
            &&& (reg.hierarchy_level@[idx] == HierarchyLevel::PlatoonCommander
                || reg.hierarchy_level@[idx] == HierarchyLevel::SquadLeader)
        }
        &&& e.payload matches PayloadView::StatusReport(b) ==> {
            &&& b == present(reg.beliefs@[idx]@)
            &&& e.delivery_tick.0 == now.0 + 2
        }
    } by {
        if k >= r.len() {
            let m = k - r.len();
            assert(outbox(reg, idx, now)[k] == d[m]);
            let c = reg.children_ids@[idx]@[m];
            assert(d[m] == directive_to(reg, idx, c, now));
        }
    }
}

/// In everything the active slots below `n` send, every status report
/// comes from a slot whose rank is soldier.
pub proof fn lemma_reports_only_from_soldiers_upto(reg: SoARegistry, n: int, now: Tick)
    requires
        n <= MAX_ENTITIES,
    ensures
        forall|k: int|
            0 <= k < outbox_upto(reg, n, now).len() && (#[trigger] outbox_upto(
                reg,
                n,
                now,
            )[k]).payload is StatusReport ==> {
                &&& outbox_upto(reg, n, now)[k].sender.0 < MAX_ENTITIES
                &&& reg.hierarchy_level@[outbox_upto(reg, n, now)[k].sender.0 as int]
                    == HierarchyLevel::Soldier
            },
    decreases n,
{
    if n > 0 {
        lemma_reports_only_from_soldiers_upto(reg, n - 1, now);
        if bitset_ones(reg.active).contains(n - 1) {
            lemma_reports_only_from_soldiers(reg, n - 1, now);
            let p = outbox_upto(reg, n - 1, now);
            let o = outbox(reg, n - 1, now);
            assert forall|k: int|
                0 <= k < outbox_upto(reg, n, now).len() && (#[trigger] outbox_upto(
                    reg,
                    n,
                    now,
                )[k]).payload is StatusReport implies {
                    &&& outbox_upto(reg, n, now)[k].sender.0 < MAX_ENTITIES
                    &&& reg.hierarchy_level@[outbox_upto(reg, n, now)[k].sender.0 as int]
                        == HierarchyLevel::Soldier
                } by {
                if k >= p.len() {
                    assert(outbox_upto(reg, n, now)[k] == o[k - p.len()]);
                    assert(o[k - p.len()].sender == EntityId((n - 1) as u32));
                } else {
                    assert(outbox_upto(reg, n, now)[k] == p[k]);
                }
            }
        }
    }
}

/// Every message an entity sends leaves from it at the current tick and
/// arrives strictly later: a status report goes to its parent, a directive
/// to one of its children.
pub proof fn lemma_outbox_latency(reg: SoARegistry, idx: int, now: Tick)
    requires
        registry_wf(reg),
        0 <= idx < MAX_ENTITIES,
        sends_fit(reg, idx, now),
    ensures
        forall|k: int|
            0 <= k < outbox(reg, idx, now).len() ==> {
                let e = #[trigger] outbox(reg, idx, now)[k];
                &&& e.sender == EntityId(idx as u32)
                &&& e.send_tick == now
                &&& e.delivery_tick.0 > now.0
                &&& e.payload is StatusReport ==> reg.parent_ids@[idx] == Some(e.receiver)
                &&& e.payload is IntentDirective ==> reg.children_ids@[idx]@.contains(e.receiver)
            },
{
    let r = report_of(reg, idx, now);
    let d = directives_of(reg, idx, now);
    assert forall|k: int| 0 <= k < outbox(reg, idx, now).len() implies {
        let e = #[trigger] outbox(reg, idx, now)[k];
        &&& e.sender == EntityId(idx as u32)
        &&& e.send_tick == now
        &&& e.delivery_tick.0 > now.0
        &&& e.payload is StatusReport ==> reg.parent_ids@[idx] == Some(e.receiver)
        &&& e.payload is IntentDirective ==> reg.children_ids@[idx]@.contains(e.receiver)
    } by {
        if k >= r.len() {
            let m = k - r.len();
            assert(outbox(reg, idx, now)[k] == d[m]);
            assert(is_leader(reg.hierarchy_level@[idx]));
            let c = reg.children_ids@[idx]@[m];
            assert(d[m] == directive_to(reg, idx, c, now));
            assert(reg.children_ids@[idx]@.contains(c));
        }
    }
}

} // verus!
