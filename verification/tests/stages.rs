use enemy_ai_engine::belief::record::{BeliefKind, BeliefRecord};
use enemy_ai_engine::bridge::ffi::{action_code, action_count, belief_kind_from_code, hierarchy_from_code};
use enemy_ai_engine::comm::channel::CommChannel;
use enemy_ai_engine::comm::event::{CommEvent, Payload};
use enemy_ai_engine::core_types::action::{ActionCandidate, ActionKind, Intent};
use enemy_ai_engine::core_types::id::{EntityId, HierarchyLevel};
use enemy_ai_engine::core_types::math::{Scalar, Vec3};
use enemy_ai_engine::core_types::time::Tick;
use enemy_ai_engine::registry::needs::NeedState;
use enemy_ai_engine::registry::soa::{SoARegistry, MAX_ENTITIES};
use enemy_ai_engine::registry::trace::DecisionTrace;
use enemy_ai_engine::stages::candidates::{assemble_candidates, plans_patrol, scan_threats, Sighting};
use enemy_ai_engine::stages::ingestion::RawPerceptionEvent;
use enemy_ai_engine::stages::propagation::delivery_ticks_fit;
use enemy_ai_engine::stages::needs::{curiosity_step, self_preservation_step, NEED_GROWTH_BITS};
use enemy_ai_engine::stages::utility::{
    ammo_factor, inertia_factor, intent_compliance_factor, morale_factor, needs_factor,
    self_preservation_factor, threat_proximity_factor, Factor,
};
use enemy_ai_engine::stages::{commit, comms, ingestion, propagation};
use std::collections::hash_map::DefaultHasher;
use std::hash::{Hash, Hasher};

fn s(x: f32) -> Scalar {
    Scalar(x.to_bits())
}

fn perception(receiver: u32, target: u32, source: u32, kind: BeliefKind, c: f32) -> RawPerceptionEvent {
    RawPerceptionEvent {
        receiver: EntityId(receiver),
        target: EntityId(target),
        source_entity: EntityId(source),
        kind,
        confidence: s(c),
    }
}

#[test]
fn ingestion_files_beliefs_and_marks_receivers_dirty() {
    let mut reg = SoARegistry::new();
    let a = reg.spawn(Vec3::zero());
    let b = reg.spawn(Vec3::zero());
    commit::run(&mut reg);
    assert!(!reg.dirty_flag.contains(a.index()));
    let events = [
        perception(a.0, 99, 5, BeliefKind::Position(Vec3::new(s(10.0), s(0.0), s(0.0))), 1.0),
        perception(MAX_ENTITIES as u32, 99, 5, BeliefKind::Health(s(1.0)), 1.0),
        perception(a.0, 98, 6, BeliefKind::ThreatLevel(s(0.7)), 0.6),
    ];
    ingestion::run(&mut reg, &events, Tick(4));
    let beliefs = reg.beliefs[a.index()].iter();
    assert_eq!(beliefs.len(), 2);
    assert_eq!(beliefs[0].subject_id, EntityId(99));
    assert_eq!(beliefs[0].observed_at, Tick(4));
    assert_eq!(beliefs[0].received_at, Tick(4));
    let mut h = DefaultHasher::new();
    EntityId(5).hash(&mut h);
    assert_eq!(beliefs[0].source_chain_hash, h.finish());
    assert_ne!(beliefs[0].source_chain_hash, beliefs[1].source_chain_hash);
    assert!(reg.dirty_flag.contains(a.index()));
    assert!(!reg.dirty_flag.contains(b.index()));
    assert!(reg.beliefs[b.index()].iter().is_empty());
}

fn cand(kind: ActionKind, score: f32) -> Option<ActionCandidate> {
    Some(ActionCandidate { kind, score: s(score) })
}

#[test]
fn commit_picks_first_best_and_clears_dirty() {
    let mut reg = SoARegistry::new();
    let a = reg.spawn(Vec3::zero());
    let b = reg.spawn(Vec3::zero());
    let c = reg.spawn(Vec3::zero());
    reg.candidates[a.index()][0] = cand(ActionKind::Reload, 0.2);
    reg.candidates[a.index()][3] = cand(ActionKind::Custom(1), 0.8);
    reg.candidates[a.index()][5] = cand(ActionKind::Custom(2), 0.8);
    reg.candidates[a.index()][7] = cand(ActionKind::Custom(3), 0.1);
    reg.chosen_action[b.index()] = ActionKind::Reload;
    reg.candidates[c.index()][0] = cand(ActionKind::Custom(4), 0.5);
    reg.candidates[c.index()][1] = cand(ActionKind::Custom(5), f32::NAN);
    reg.despawn(c);
    // an inactive slot keeps its choice and its dirty mark
    reg.chosen_action[c.index()] = ActionKind::Custom(9);
    commit::run(&mut reg);
    assert!(reg.chosen_action[a.index()] == ActionKind::Custom(1));
    assert!(reg.chosen_action[b.index()] == ActionKind::Idle);
    assert!(reg.chosen_action[c.index()] == ActionKind::Custom(9));
    assert!(!reg.dirty_flag.contains(a.index()));
    assert!(!reg.dirty_flag.contains(b.index()));
    assert!(reg.dirty_flag.contains(c.index()));
}

#[test]
fn commit_follows_f32_comparisons_with_nan() {
    let mut reg = SoARegistry::new();
    let a = reg.spawn(Vec3::zero());
    reg.candidates[a.index()][0] = cand(ActionKind::Custom(1), 0.5);
    reg.candidates[a.index()][1] = cand(ActionKind::Custom(2), f32::NAN);
    reg.candidates[a.index()][2] = cand(ActionKind::Custom(3), 0.1);
    commit::run(&mut reg);
    // NaN <= 0.5 is false, so NaN is kept; then 0.1 <= NaN is false, so 0.1 is kept
    assert!(reg.chosen_action[a.index()] == ActionKind::Custom(3));
}

fn threat_record(c: f32, level: f32) -> BeliefRecord {
    BeliefRecord {
        subject_id: EntityId(50),
        kind: BeliefKind::ThreatLevel(s(level)),
        observed_at: Tick(1),
        received_at: Tick(1),
        confidence: s(c),
        source_chain_hash: 0,
    }
}

#[test]
fn propagation_reports_up_and_directs_down() {
    let mut reg = SoARegistry::new();
    let leader = reg.spawn_with_role(Vec3::zero(), HierarchyLevel::SquadLeader);
    let s1 = reg.spawn(Vec3::zero());
    let s2 = reg.spawn(Vec3::zero());
    let boss = reg.spawn_with_role(Vec3::zero(), HierarchyLevel::PlatoonCommander);
    reg.set_parent(s1, leader);
    reg.set_parent(s2, leader);
    reg.set_parent(leader, boss);
    reg.chosen_action[leader.index()] = ActionKind::Reload;
    reg.chosen_action[boss.index()] = ActionKind::RequestSupport;
    reg.beliefs[s1.index()].insert_or_update(threat_record(0.9, 0.8));
    reg.beliefs[s2.index()].insert_or_update(threat_record(0.9, 0.5));
    let mut ch = CommChannel::new();
    propagation::run(&reg, &mut ch, Tick(10));

    let to_leader = ch.receive_for(leader, Tick(12));
    assert_eq!(to_leader.len(), 1);
    assert_eq!(to_leader[0].sender, s1);
    assert_eq!(to_leader[0].send_tick, Tick(10));
    match &to_leader[0].payload {
        Payload::StatusReport(b) => assert_eq!(b.len(), 1),
        _ => panic!("expected a status report"),
    }
    // the threat level of s2 is not above one half: no report
    let s1_msgs = ch.receive_for(s1, Tick(12));
    assert_eq!(s1_msgs.len(), 1);
    match &s1_msgs[0].payload {
        Payload::IntentDirective(i) => {
            assert_eq!(i.origin_rank, 1);
            assert!(i.goal == ActionKind::Reload);
            assert_eq!(f32::from_bits(i.confidence.0), 1.0);
        }
        _ => panic!("expected a directive"),
    }
    assert_eq!(ch.receive_for(s2, Tick(12)).len(), 1);
    // the platoon commander's directive takes five ticks
    assert!(ch.receive_for(leader, Tick(14)).is_empty());
    let from_boss = ch.receive_for(leader, Tick(15));
    assert_eq!(from_boss.len(), 1);
    match &from_boss[0].payload {
        Payload::IntentDirective(i) => {
            assert_eq!(i.origin_rank, 2);
            assert!(i.goal == ActionKind::RequestSupport);
        }
        _ => panic!("expected a directive"),
    }
    assert!(ch.receive_for(boss, Tick(100)).is_empty());
}

#[test]
fn propagation_needs_a_parent_and_a_confident_threat() {
    let mut reg = SoARegistry::new();
    let lone = reg.spawn(Vec3::zero());
    let p = reg.spawn(Vec3::zero());
    let c = reg.spawn(Vec3::zero());
    reg.set_parent(c, p);
    reg.beliefs[lone.index()].insert_or_update(threat_record(0.9, 0.9));
    reg.beliefs[c.index()].insert_or_update(threat_record(0.5, 0.9));
    let mut ch = CommChannel::new();
    propagation::run(&reg, &mut ch, Tick(0));
    assert!(ch.receive_for(p, Tick(100)).is_empty());
}

#[test]
fn delivered_messages_are_taken_in() {
    let mut reg = SoARegistry::new();
    let a = reg.spawn(Vec3::zero());
    commit::run(&mut reg);
    let report = CommEvent {
        sender: EntityId(3),
        receiver: a,
        payload: Payload::StatusReport(vec![threat_record(0.72, 0.9)]),
        send_tick: Tick(1),
        delivery_tick: Tick(3),
    };
    let directive = CommEvent {
        sender: EntityId(4),
        receiver: a,
        payload: Payload::IntentDirective(Intent {
            origin_rank: 1,
            goal: ActionKind::Reload,
            confidence: s(1.0),
        }),
        send_tick: Tick(1),
        delivery_tick: Tick(3),
    };
    comms::take_delivered(&mut reg, a.index(), vec![report, directive], Tick(3));
    let b = reg.beliefs[a.index()].iter();
    assert_eq!(b.len(), 1);
    assert_eq!(b[0].received_at, Tick(3));
    assert_eq!(b[0].observed_at, Tick(1));
    assert!(reg.current_intent[a.index()].unwrap().goal == ActionKind::Reload);
    assert!(reg.dirty_flag.contains(a.index()));

    commit::run(&mut reg);
    let empty = CommEvent {
        sender: EntityId(3),
        receiver: a,
        payload: Payload::StatusReport(vec![]),
        send_tick: Tick(1),
        delivery_tick: Tick(3),
    };
    comms::take_delivered(&mut reg, a.index(), vec![empty], Tick(4));
    assert!(!reg.dirty_flag.contains(a.index()));
}

#[test]
fn host_codes() {
    assert_eq!(hierarchy_from_code(0), HierarchyLevel::Soldier);
    assert_eq!(hierarchy_from_code(1), HierarchyLevel::SquadLeader);
    assert_eq!(hierarchy_from_code(2), HierarchyLevel::PlatoonCommander);
    assert_eq!(hierarchy_from_code(3), HierarchyLevel::Soldier);
    let p = Vec3::new(s(1.0), s(2.0), s(3.0));
    assert!(matches!(belief_kind_from_code(0, p, s(0.4)), BeliefKind::Position(q) if q == p));
    assert!(matches!(belief_kind_from_code(1, p, s(0.4)), BeliefKind::ThreatLevel(c) if c == s(0.4)));
    assert!(matches!(belief_kind_from_code(7, p, s(0.4)), BeliefKind::Position(_)));
    let a = action_code(&ActionKind::Advance(p));
    assert_eq!((a.action_type, f32::from_bits(a.pos.y.0), a.target_id), (1, 2.0, 0));
    let e = action_code(&ActionKind::Engage(EntityId(8)));
    assert_eq!((e.action_type, e.target_id), (2, 8));
    assert!(e.pos == Vec3::zero());
    assert_eq!(action_code(&ActionKind::Flee(p)).action_type, 3);
    assert_eq!(action_code(&ActionKind::Reload).action_type, 0);
    assert_eq!(action_count(5, 3), 3);
    assert_eq!(action_count(2, 3), 2);
}

#[test]
fn record_defaults() {
    let n = NeedState::default();
    assert_eq!(f32::from_bits(n.hunger.0), 0.5);
    assert_eq!(f32::from_bits(n.self_preservation.0), 0.5);
    let t = DecisionTrace::default();
    assert_eq!(t.tick, Tick(0));
    assert!(t.chosen_action == ActionKind::Idle);
    assert!(t.top_scores.iter().all(|(k, sc)| *k == ActionKind::Idle && f32::from_bits(sc.0) == 0.0));
}

fn position_belief(subject: u32, c: f32) -> BeliefRecord {
    BeliefRecord {
        subject_id: EntityId(subject),
        kind: BeliefKind::Position(Vec3::zero()),
        observed_at: Tick(1),
        received_at: Tick(1),
        confidence: s(c),
        source_chain_hash: 0,
    }
}

#[test]
fn scan_finds_first_nearest_confident_sighting() {
    let beliefs = vec![
        position_belief(1, 0.9),
        position_belief(2, 0.2),
        threat_record(0.9, 0.9),
        position_belief(3, 0.31),
        position_belief(4, 0.9),
    ];
    let d = vec![s(50.0), s(1.0), s(0.0), s(10.0), s(10.0)];
    let scan = scan_threats(&beliefs, &d);
    assert!(scan.has_threats);
    assert_eq!(scan.closest, Some(3));
    // sightings too far to compare leave no nearest, but still count
    let far = vec![s(f32::MAX), s(1.0), s(0.0), s(f32::NAN), s(f32::INFINITY)];
    let scan = scan_threats(&beliefs, &far);
    assert!(scan.has_threats);
    assert_eq!(scan.closest, None);
    let none = scan_threats(&vec![position_belief(1, 0.3)], &vec![s(1.0)]);
    assert!(!none.has_threats);
    assert_eq!(none.closest, None);
}

#[test]
fn candidates_are_listed_in_order_and_cut_at_sixteen() {
    let p = Vec3::new(s(1.0), s(2.0), s(3.0));
    let sight = Sighting { subject_id: EntityId(9), pos: p, flank: p, retreat: p, flee: p };
    let intent = Intent { origin_rank: 1, goal: ActionKind::Custom(7), confidence: s(1.0) };
    let mut beliefs = vec![];
    beliefs.push(BeliefRecord { kind: BeliefKind::CoverPosition(p), ..position_belief(1, 0.5) });
    beliefs.push(BeliefRecord { kind: BeliefKind::Sound(p), ..position_belief(1, 0.5) });
    let c = assemble_candidates(EntityId(4), Some(sight), s(0.1), s(0.1), s(0.1), &beliefs, Some(intent), None);
    let kinds: Vec<ActionKind> = c.iter().flatten().map(|c| c.kind).collect();
    let expected = vec![
        ActionKind::Idle,
        ActionKind::Engage(EntityId(9)),
        ActionKind::Advance(p),
        ActionKind::Flank(p),
        ActionKind::Retreat(p),
        ActionKind::Heal(EntityId(4)),
        ActionKind::Flee(p),
        ActionKind::Reload,
        ActionKind::TakeCover(p),
        ActionKind::Investigate(p),
        ActionKind::Custom(7),
    ];
    assert!(kinds == expected);
    assert!(c.iter().flatten().all(|c| f32::from_bits(c.score.0) == 0.0));
    // healthy, no sighting, patrol point given
    let c = assemble_candidates(EntityId(4), None, s(1.0), s(1.0), s(1.0), &vec![], None, Some(p));
    let kinds: Vec<ActionKind> = c.iter().flatten().map(|c| c.kind).collect();
    assert!(kinds == vec![ActionKind::Idle, ActionKind::Patrol(p)]);
    // wounded without a sighting: heal only
    let c = assemble_candidates(EntityId(4), None, s(0.2), s(0.0), s(1.0), &vec![], None, None);
    let kinds: Vec<ActionKind> = c.iter().flatten().map(|c| c.kind).collect();
    assert!(kinds == vec![ActionKind::Idle, ActionKind::Heal(EntityId(4))]);
    // more than sixteen suggestions: the rest are dropped
    let many: Vec<BeliefRecord> =
        (0..20).map(|i| BeliefRecord { kind: BeliefKind::Sound(p), ..position_belief(i, 0.5) }).collect();
    let c = assemble_candidates(EntityId(4), None, s(1.0), s(1.0), s(1.0), &many, None, Some(p));
    assert!(c.iter().all(|c| c.is_some()));
    assert!(c[15].unwrap().kind == ActionKind::Investigate(p));
}

#[test]
fn consideration_factors() {
    let p = Vec3::zero();
    let one = Factor::Constant(s(1.0));
    let tenth = Factor::Constant(s(0.1));
    let half = Factor::Constant(s(0.5));
    let same = |a: Factor, b: Factor| format!("{:?}", a) == format!("{:?}", b);
    assert!(same(threat_proximity_factor(&ActionKind::Engage(EntityId(1))), one));
    assert!(same(threat_proximity_factor(&ActionKind::Advance(p)), one));
    assert!(same(threat_proximity_factor(&ActionKind::Idle), tenth));
    assert!(same(
        self_preservation_factor(&ActionKind::Flee(p), s(0.1), s(1.0)),
        Factor::ScaledShortfall(s(0.1), s(1.0))
    ));
    assert!(same(self_preservation_factor(&ActionKind::Idle, s(0.1), s(1.0)), Factor::Value(s(0.1))));
    assert!(same(ammo_factor(&ActionKind::Reload, s(0.3)), Factor::Shortfall(s(0.3))));
    assert!(same(ammo_factor(&ActionKind::Engage(EntityId(1)), s(0.05)), tenth));
    assert!(same(ammo_factor(&ActionKind::Engage(EntityId(1)), s(0.1)), one));
    assert!(same(ammo_factor(&ActionKind::Idle, s(0.0)), one));
    assert!(same(morale_factor(&ActionKind::Flee(p), s(0.4)), Factor::Shortfall(s(0.4))));
    assert!(same(morale_factor(&ActionKind::Advance(p), s(0.4)), Factor::Value(s(0.4))));
    assert!(same(morale_factor(&ActionKind::Reload, s(0.4)), half));
    let intent = Intent { origin_rank: 1, goal: ActionKind::Reload, confidence: s(1.0) };
    assert!(same(intent_compliance_factor(&ActionKind::Reload, Some(intent)), one));
    assert!(same(intent_compliance_factor(&ActionKind::Idle, Some(intent)), half));
    assert!(same(intent_compliance_factor(&ActionKind::Reload, None), half));
    assert!(same(inertia_factor(&ActionKind::Reload, &ActionKind::Reload), one));
    assert!(same(inertia_factor(&ActionKind::Idle, &ActionKind::Reload), Factor::Constant(s(0.8))));
    assert!(same(needs_factor(&ActionKind::Patrol(p), s(0.7)), Factor::Value(s(0.7))));
    assert!(same(needs_factor(&ActionKind::Idle, s(0.7)), half));
}

#[test]
fn needs_steps() {
    assert_eq!(curiosity_step(&ActionKind::Investigate(Vec3::zero())).map(|d| f32::from_bits(d.0)), Some(-0.005));
    assert_eq!(curiosity_step(&ActionKind::Idle).map(|d| f32::from_bits(d.0)), Some(0.002));
    assert!(curiosity_step(&ActionKind::Reload).is_none());
    assert_eq!(self_preservation_step(s(0.4)).map(|d| f32::from_bits(d.0)), Some(0.01));
    assert_eq!(self_preservation_step(s(0.95)).map(|d| f32::from_bits(d.0)), Some(-0.005));
    assert!(self_preservation_step(s(0.5)).is_none());
    assert!(self_preservation_step(s(0.9)).is_none());
    assert_eq!(f32::from_bits(NEED_GROWTH_BITS), 0.001);
}

/// The weight times the factor, as the utility stage computes it.
fn weighted(weight: f32, factor: Factor) -> f32 {
    let v = |x: Scalar| f32::from_bits(x.0);
    match factor {
        Factor::Constant(c) => weight * v(c),
        Factor::Value(x) => weight * v(x),
        Factor::Shortfall(x) => weight * f32::max(0.0, 1.0 - v(x)),
        Factor::ScaledShortfall(x, p) => weight * f32::max(0.0, 1.0 - v(x)) * f32::max(0.1, v(p)),
    }
}

#[test]
fn test_threat_proximity_consideration() {
    let c_engage = ActionCandidate { kind: ActionKind::Engage(EntityId(1)), score: s(0.0) };
    let c_idle = ActionCandidate { kind: ActionKind::Idle, score: s(0.0) };

    assert!(
        weighted(1.0, threat_proximity_factor(&c_engage.kind))
            > weighted(1.0, threat_proximity_factor(&c_idle.kind))
    );
}

#[test]
fn test_self_preservation_consideration() {
    let mut reg = SoARegistry::new();
    reg.health[0] = s(0.1);
    reg.self_preservation[0] = s(1.0);

    let c_flee = ActionCandidate { kind: ActionKind::Flee(Vec3::zero()), score: s(0.0) };
    let c_idle = ActionCandidate { kind: ActionKind::Idle, score: s(0.0) };

    let eval = |c: &ActionCandidate| {
        weighted(1.0, self_preservation_factor(&c.kind, reg.health[0], reg.self_preservation[0]))
    };
    assert!(eval(&c_flee) > eval(&c_idle));
}

#[test]
fn delivery_ticks_fit_only_where_messages_are_sent() {
    let mut reg = SoARegistry::new();
    let leader = reg.spawn_with_role(Vec3::zero(), HierarchyLevel::PlatoonCommander);
    assert!(delivery_ticks_fit(&reg, Tick(u64::MAX)));
    let child = reg.spawn(Vec3::zero());
    reg.set_parent(child, leader);
    assert!(delivery_ticks_fit(&reg, Tick(u64::MAX - 5)));
    assert!(!delivery_ticks_fit(&reg, Tick(u64::MAX - 4)));
    let mut ch = CommChannel::new();
    propagation::run(&reg, &mut ch, Tick(u64::MAX - 5));
    assert_eq!(ch.receive_for(child, Tick(u64::MAX)).len(), 1);
    reg.hierarchy_level[leader.index()] = HierarchyLevel::SquadLeader;
    assert!(delivery_ticks_fit(&reg, Tick(u64::MAX - 2)));
    assert!(!delivery_ticks_fit(&reg, Tick(u64::MAX - 1)));
}

#[test]
fn dirty_and_patrol_decisions() {
    let mut reg = SoARegistry::new();
    let a = reg.spawn(Vec3::zero());
    assert!(reg.is_dirty(a.index()));
    assert!(!reg.is_dirty(a.index() + 1));
    assert!(!reg.is_dirty(MAX_ENTITIES + 3));
    commit::run(&mut reg);
    assert!(!reg.is_dirty(a.index()));
    let quiet = scan_threats(&vec![], &vec![]);
    assert!(plans_patrol(&quiet));
    let b = vec![threat_record(0.9, 0.9)];
    let mut seen = b.clone();
    seen[0].kind = BeliefKind::Position(Vec3::zero());
    assert!(!plans_patrol(&scan_threats(&seen, &vec![s(f32::INFINITY)])));
}

#[test]
fn record_equality_compares_as_f32() {
    assert!(BeliefKind::Health(s(0.0)) == BeliefKind::Health(s(-0.0)));
    assert!(BeliefKind::Health(s(f32::NAN)) != BeliefKind::Health(s(f32::NAN)));
    assert!(BeliefKind::EnemyCount(2) != BeliefKind::AllyCount(2));
    assert!(NeedState::default() == NeedState::default());
    let mut n = NeedState::default();
    n.fatigue = s(0.6);
    assert!(n != NeedState::default());
    assert!(DecisionTrace::default() == DecisionTrace::default());
    let mut t = DecisionTrace::default();
    t.top_scores[2].1 = s(0.1);
    assert!(t != DecisionTrace::default());
}
