use enemy_ai_engine::core_types::action::{ActionCandidate, ActionKind, Intent};
use enemy_ai_engine::core_types::id::{EntityId, FactionRelation, HierarchyLevel, TeamId};
use enemy_ai_engine::core_types::math::{Scalar, Vec3};
use enemy_ai_engine::core_types::rng::DeterministicRng;
use enemy_ai_engine::core_types::time::Tick;
use rand::{Rng, SeedableRng};
use rand_chacha::ChaCha8Rng;

fn s(x: f32) -> Scalar {
    Scalar(x.to_bits())
}

#[test]
fn scalar_orders_as_f32() {
    let values = [
        f32::NEG_INFINITY,
        -3.5,
        -1e-40,
        -0.0,
        0.0,
        1e-40,
        0.3,
        0.5,
        1.0,
        f32::MAX,
        f32::INFINITY,
        f32::NAN,
        -f32::NAN,
    ];
    for &a in values.iter() {
        for &b in values.iter() {
            assert_eq!(s(a).lt(s(b)), a < b, "{} < {}", a, b);
            assert_eq!(s(a).le(s(b)), a <= b, "{} <= {}", a, b);
            assert_eq!(s(a).gt(s(b)), a > b, "{} > {}", a, b);
            assert_eq!(s(a).float_eq(s(b)), a == b, "{} == {}", a, b);
            assert_eq!(s(a) == s(b), a == b);
        }
        assert_eq!(s(a).is_nan(), a.is_nan());
    }
    assert_eq!(f32::from_bits(Scalar::max_value().0), f32::MAX);
    assert_eq!(f32::from_bits(Scalar::zero().0), 0.0);
}

#[test]
fn vectors_and_actions_compare_as_f32() {
    let a = Vec3::new(s(1.0), s(-0.0), s(2.0));
    let b = Vec3::new(s(1.0), s(0.0), s(2.0));
    assert!(a == b);
    let n = Vec3::new(s(f32::NAN), s(0.0), s(0.0));
    assert!(n != n);
    assert!(ActionKind::Advance(a) == ActionKind::Advance(b));
    assert!(ActionKind::Advance(a) != ActionKind::Hold(a));
    assert!(ActionKind::Engage(EntityId(3)) == ActionKind::Engage(EntityId(3)));
    assert!(ActionKind::Engage(EntityId(3)) != ActionKind::Engage(EntityId(4)));
    assert!(ActionKind::CustomPos(1, a) != ActionKind::CustomPos(2, a));
    assert!(ActionKind::Idle == ActionKind::Idle);
    let i = Intent { origin_rank: 1, goal: ActionKind::Reload, confidence: s(1.0) };
    let j = Intent { origin_rank: 2, goal: ActionKind::Reload, confidence: s(1.0) };
    assert!(i == i);
    assert!(i != j);
    let c = ActionCandidate::default();
    assert!(c.kind == ActionKind::Idle);
    assert_eq!(f32::from_bits(c.score.0), 0.0);
    assert!(Vec3::zero() == Vec3::new(s(0.0), s(0.0), s(0.0)));
}

#[test]
fn tick_arithmetic() {
    let t = Tick(10);
    assert_eq!(t + 5, Tick(15));
    assert_eq!((t + 5) - t, 5);
    assert_eq!(t - (t + 5), 0);
    assert_eq!(Tick(3) - Tick(3), 0);
    assert_eq!(Tick::default(), Tick(0));
    assert_eq!(Tick(u64::MAX - 1) + 1, Tick(u64::MAX));
}

#[test]
fn ids_and_defaults() {
    assert_eq!(EntityId(42).index(), 42);
    assert_eq!(EntityId::none().0, u32::MAX);
    assert_eq!(EntityId::default(), EntityId(0));
    assert_eq!(TeamId::default(), TeamId(0));
    assert_eq!(FactionRelation::default(), FactionRelation::Neutral);
    assert_eq!(HierarchyLevel::default(), HierarchyLevel::Soldier);
}

#[test]
fn rng_is_seeded_chacha8() {
    let mut r = DeterministicRng::new(42);
    assert_eq!(r.seed_value(), 42);
    let mut expected = ChaCha8Rng::seed_from_u64(42);
    let x: f32 = r.generator().gen();
    let y: f32 = expected.gen();
    assert_eq!(x, y);
    let mut other = DeterministicRng::new(43);
    let z: u64 = other.generator().gen();
    let w: u64 = ChaCha8Rng::seed_from_u64(42).gen();
    assert_ne!(z, w);
}

#[test]
fn rng_clone_draws_the_same() {
    let mut a = DeterministicRng::new(7);
    let _: u32 = a.generator().gen();
    let mut b = a.clone();
    assert_eq!(b.seed_value(), 7);
    let x: u64 = a.generator().gen();
    let y: u64 = b.generator().gen();
    assert_eq!(x, y);
}

#[test]
fn candidate_equality_compares_as_f32() {
    let a = ActionCandidate { kind: ActionKind::Reload, score: s(0.0) };
    let b = ActionCandidate { kind: ActionKind::Reload, score: s(-0.0) };
    let c = ActionCandidate { kind: ActionKind::Reload, score: s(f32::NAN) };
    assert!(a == b);
    assert!(c != c);
    assert!(a != ActionCandidate { kind: ActionKind::Idle, score: s(0.0) });
}
