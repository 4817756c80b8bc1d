use enemy_ai_engine::belief::record::{BeliefKind, BeliefRecord};
use enemy_ai_engine::belief::store::{BeliefStore, MAX_BELIEFS_PER_ENTITY};
use enemy_ai_engine::core_types::id::EntityId;
use enemy_ai_engine::core_types::math::{Scalar, Vec3};
use enemy_ai_engine::core_types::time::Tick;

fn s(x: f32) -> Scalar {
    Scalar(x.to_bits())
}

fn rec(subject: u32, kind: BeliefKind, observed: u64, confidence: f32) -> BeliefRecord {
    BeliefRecord {
        subject_id: EntityId(subject),
        kind,
        observed_at: Tick(observed),
        received_at: Tick(observed),
        confidence: s(confidence),
        source_chain_hash: 0,
    }
}

fn confs(store: &BeliefStore) -> Vec<f32> {
    store.iter().iter().map(|r| f32::from_bits(r.confidence.0)).collect()
}

#[test]
fn empty_store_takes_records_in_order() {
    let mut st = BeliefStore::new();
    assert_eq!(st.capacity(), MAX_BELIEFS_PER_ENTITY);
    assert!(st.iter().is_empty());
    st.insert_or_update(rec(1, BeliefKind::Health(s(0.5)), 1, 0.9));
    st.insert_or_update(rec(2, BeliefKind::Health(s(0.5)), 1, 0.8));
    assert_eq!(confs(&st), vec![0.9, 0.8]);
    assert!(st.slot(0).is_some() && st.slot(1).is_some() && st.slot(2).is_none());
}

#[test]
fn same_topic_newer_replaces_older_is_ignored() {
    let mut st = BeliefStore::new();
    st.insert_or_update(rec(1, BeliefKind::Position(Vec3::zero()), 5, 0.5));
    // same subject, same variant, newer: replaces
    st.insert_or_update(rec(1, BeliefKind::Position(Vec3::new(s(1.0), s(1.0), s(1.0))), 6, 0.7));
    assert_eq!(confs(&st), vec![0.7]);
    // older: ignored
    st.insert_or_update(rec(1, BeliefKind::Position(Vec3::zero()), 2, 0.1));
    assert_eq!(confs(&st), vec![0.7]);
    // same time: replaces
    st.insert_or_update(rec(1, BeliefKind::Position(Vec3::zero()), 6, 0.6));
    assert_eq!(confs(&st), vec![0.6]);
    // other variant: new slot
    st.insert_or_update(rec(1, BeliefKind::ThreatLevel(s(0.9)), 1, 0.4));
    assert_eq!(confs(&st), vec![0.6, 0.4]);
    // other subject: new slot
    st.insert_or_update(rec(2, BeliefKind::ThreatLevel(s(0.9)), 1, 0.3));
    assert_eq!(confs(&st), vec![0.6, 0.4, 0.3]);
}

fn full_store() -> BeliefStore {
    let mut st = BeliefStore::new();
    for i in 0..MAX_BELIEFS_PER_ENTITY {
        // confidences 0.9, then 0.2 at slots 10 and 20, the rest 0.5
        let c = if i == 0 { 0.9 } else if i == 10 || i == 20 { 0.2 } else { 0.5 };
        st.insert_or_update(rec(100 + i as u32, BeliefKind::EnemyCount(1), 1, c));
    }
    st
}

#[test]
fn full_store_evicts_first_weakest_when_stronger() {
    let mut st = full_store();
    assert_eq!(st.iter().len(), MAX_BELIEFS_PER_ENTITY);
    st.insert_or_update(rec(7, BeliefKind::AllyCount(2), 1, 0.3));
    assert_eq!(st.slot(10).unwrap().subject_id, EntityId(7));
    assert_eq!(st.slot(20).unwrap().subject_id, EntityId(120));
    // not stronger than the weakest (0.2 at slot 20): dropped
    let mut st = full_store();
    st.insert_or_update(rec(7, BeliefKind::AllyCount(2), 1, 0.2));
    assert_eq!(st.slot(10).unwrap().subject_id, EntityId(110));
    assert_eq!(st.slot(20).unwrap().subject_id, EntityId(120));
    assert!(st.iter().iter().all(|r| r.subject_id != EntityId(7)));
}

#[test]
fn remove_stale_drops_below_threshold_only() {
    let mut st = BeliefStore::new();
    st.insert_or_update(rec(1, BeliefKind::Health(s(0.5)), 1, 0.005));
    st.insert_or_update(rec(2, BeliefKind::Health(s(0.5)), 1, 0.01));
    st.insert_or_update(rec(3, BeliefKind::Health(s(0.5)), 1, 0.5));
    st.insert_or_update(rec(4, BeliefKind::Health(s(0.5)), 1, f32::NAN));
    st.remove_stale(s(0.01));
    assert!(st.slot(0).is_none());
    assert_eq!(st.slot(1).unwrap().subject_id, EntityId(2));
    assert_eq!(st.slot(2).unwrap().subject_id, EntityId(3));
    // a NaN confidence is never below the threshold
    assert_eq!(st.slot(3).unwrap().subject_id, EntityId(4));
    st.remove_stale(s(0.01));
    assert_eq!(st.iter().len(), 3);
    // the emptied first slot is reused by the next belief
    st.insert_or_update(rec(9, BeliefKind::Health(s(0.5)), 1, 0.5));
    assert_eq!(st.slot(0).unwrap().subject_id, EntityId(9));
}

#[test]
fn replace_at_and_clone() {
    let mut st = BeliefStore::new();
    st.insert_or_update(rec(1, BeliefKind::Sound(Vec3::zero()), 1, 0.5));
    let mut r = st.slot(0).unwrap();
    r.confidence = s(0.25);
    st.replace_at(0, r);
    let copy = st.clone();
    assert_eq!(confs(&copy), vec![0.25]);
    assert_eq!(BeliefStore::default().iter().len(), 0);
}

#[test]
fn kind_tags_distinguish_variants() {
    assert!(BeliefKind::Health(s(1.0)).same_variant(&BeliefKind::Health(s(0.0))));
    assert!(!BeliefKind::Health(s(1.0)).same_variant(&BeliefKind::AmmoLevel(s(1.0))));
    assert_eq!(BeliefKind::AmmoLevel(s(1.0)).tag(), 10);
    assert_eq!(BeliefKind::Position(Vec3::zero()).tag(), 0);
}
