use vstd::prelude::*;
use crate::core_types::id::EntityId;
use crate::core_types::math::{Scalar, Vec3, float_eq, vec3_eq};
use crate::core_types::time::Tick;

verus! {

/// What a belief says about its subject.
#[derive(Clone, Copy, Debug)]
pub enum BeliefKind {
    Position(Vec3),
    Strength(Scalar),
    ThreatLevel(Scalar),
    EnemyCount(u16),
    AllyCount(u16),
    CoverPosition(Vec3),
    DangerZone(Vec3),
    Sound(Vec3),
    LastKnownDirection(Vec3),
    Health(Scalar),
    AmmoLevel(Scalar),
}

/// The variant of a belief kind, numbered in declaration order; two kinds
/// have the same variant exactly when their tags are equal.
pub open spec fn kind_tag(k: BeliefKind) -> nat {
    match k {
        BeliefKind::Position(_) => 0,
        BeliefKind::Strength(_) => 1,
        BeliefKind::ThreatLevel(_) => 2,
        BeliefKind::EnemyCount(_) => 3,
        BeliefKind::AllyCount(_) => 4,
        BeliefKind::CoverPosition(_) => 5,
        BeliefKind::DangerZone(_) => 6,
        BeliefKind::Sound(_) => 7,
        BeliefKind::LastKnownDirection(_) => 8,
        BeliefKind::Health(_) => 9,
        BeliefKind::AmmoLevel(_) => 10,
    }
}

impl BeliefKind {
    /// The variant number of this kind.
    pub fn tag(&self) -> (r: u8)
        ensures
            r == kind_tag(*self),
    {
        match self {
            BeliefKind::Position(_) => 0,
            BeliefKind::Strength(_) => 1,
            BeliefKind::ThreatLevel(_) => 2,
            BeliefKind::EnemyCount(_) => 3,
            BeliefKind::AllyCount(_) => 4,
            BeliefKind::CoverPosition(_) => 5,
            BeliefKind::DangerZone(_) => 6,
            BeliefKind::Sound(_) => 7,
            BeliefKind::LastKnownDirection(_) => 8,
            BeliefKind::Health(_) => 9,
            BeliefKind::AmmoLevel(_) => 10,
        }
    }

    /// Whether the two kinds are the same variant, whatever they carry.
    pub fn same_variant(&self, other: &BeliefKind) -> (r: bool)
        ensures
            r == (kind_tag(*self) == kind_tag(*other)),
    {
        self.tag() == other.tag()
    }
}

/// `a == b` on belief kinds: the same variant with equal contents, numbers
/// compared as `f32` compares.
pub open spec fn belief_kind_eq(a: BeliefKind, b: BeliefKind) -> bool {
    match (a, b) {
        (BeliefKind::Position(p), BeliefKind::Position(q)) => vec3_eq(p, q),
        (BeliefKind::Strength(x), BeliefKind::Strength(y)) => float_eq(x.0, y.0),
        (BeliefKind::ThreatLevel(x), BeliefKind::ThreatLevel(y)) => float_eq(x.0, y.0),
        (BeliefKind::EnemyCount(x), BeliefKind::EnemyCount(y)) => x == y,
        (BeliefKind::AllyCount(x), BeliefKind::AllyCount(y)) => x == y,
        (BeliefKind::CoverPosition(p), BeliefKind::CoverPosition(q)) => vec3_eq(p, q),
        (BeliefKind::DangerZone(p), BeliefKind::DangerZone(q)) => vec3_eq(p, q),
        (BeliefKind::Sound(p), BeliefKind::Sound(q)) => vec3_eq(p, q),
        (BeliefKind::LastKnownDirection(p), BeliefKind::LastKnownDirection(q)) => vec3_eq(p, q),
        (BeliefKind::Health(x), BeliefKind::Health(y)) => float_eq(x.0, y.0),
        (BeliefKind::AmmoLevel(x), BeliefKind::AmmoLevel(y)) => float_eq(x.0, y.0),
        _ => false,
    }
}

impl PartialEq for BeliefKind {
    fn eq(&self, other: &BeliefKind) -> (r: bool) {
        match (self, other) {
            (BeliefKind::Position(p), BeliefKind::Position(q)) => p.float_eq(q),
            (BeliefKind::Strength(x), BeliefKind::Strength(y)) => x.float_eq(*y),
            (BeliefKind::ThreatLevel(x), BeliefKind::ThreatLevel(y)) => x.float_eq(*y),
            (BeliefKind::EnemyCount(x), BeliefKind::EnemyCount(y)) => *x == *y,
            (BeliefKind::AllyCount(x), BeliefKind::AllyCount(y)) => *x == *y,
            (BeliefKind::CoverPosition(p), BeliefKind::CoverPosition(q)) => p.float_eq(q),
            (BeliefKind::DangerZone(p), BeliefKind::DangerZone(q)) => p.float_eq(q),
            (BeliefKind::Sound(p), BeliefKind::Sound(q)) => p.float_eq(q),
            (BeliefKind::LastKnownDirection(p), BeliefKind::LastKnownDirection(q)) => p.float_eq(q),
            (BeliefKind::Health(x), BeliefKind::Health(y)) => x.float_eq(*y),
            (BeliefKind::AmmoLevel(x), BeliefKind::AmmoLevel(y)) => x.float_eq(*y),
            _ => false,
        }
    }
}

impl vstd::std_specs::cmp::PartialEqSpecImpl for BeliefKind {
    open spec fn obeys_eq_spec() -> bool {
        true
    }

    open spec fn eq_spec(&self, other: &BeliefKind) -> bool {
        belief_kind_eq(*self, *other)
    }
}

/// One belief an entity holds about a subject.
#[derive(Clone, Copy, Debug)]
pub struct BeliefRecord {
    pub subject_id: EntityId,
    pub kind: BeliefKind,
    pub observed_at: Tick,
    pub received_at: Tick,
    pub confidence: Scalar,
    pub source_chain_hash: u64,
}

} // verus!
