use vstd::prelude::*;
use super::id::EntityId;
use super::math::{Scalar, Vec3, float_eq, vec3_eq};

verus! {

/// Something an entity can do.
#[derive(Clone, Copy, Debug)]
pub enum ActionKind {
    Idle,
    Advance(Vec3),
    Hold(Vec3),
    Retreat(Vec3),
    Engage(EntityId),
    RequestSupport,
    Flank(Vec3),
    TakeCover(Vec3),
    Patrol(Vec3),
    Investigate(Vec3),
    Heal(EntityId),
    Reload,
    Flee(Vec3),
    Custom(u16),
    CustomPos(u16, Vec3),
}

/// `a == b` on actions: the same variant with equal contents, positions
/// compared as `f32` compares.
pub open spec fn action_eq(a: ActionKind, b: ActionKind) -> bool {
    match (a, b) {
        (ActionKind::Idle, ActionKind::Idle) => true,
        (ActionKind::Advance(p), ActionKind::Advance(q)) => vec3_eq(p, q),
        (ActionKind::Hold(p), ActionKind::Hold(q)) => vec3_eq(p, q),
        (ActionKind::Retreat(p), ActionKind::Retreat(q)) => vec3_eq(p, q),
        (ActionKind::Engage(p), ActionKind::Engage(q)) => p == q,
        (ActionKind::RequestSupport, ActionKind::RequestSupport) => true,
        (ActionKind::Flank(p), ActionKind::Flank(q)) => vec3_eq(p, q),
        (ActionKind::TakeCover(p), ActionKind::TakeCover(q)) => vec3_eq(p, q),
        (ActionKind::Patrol(p), ActionKind::Patrol(q)) => vec3_eq(p, q),
        (ActionKind::Investigate(p), ActionKind::Investigate(q)) => vec3_eq(p, q),
        (ActionKind::Heal(p), ActionKind::Heal(q)) => p == q,
        (ActionKind::Reload, ActionKind::Reload) => true,
        (ActionKind::Flee(p), ActionKind::Flee(q)) => vec3_eq(p, q),
        (ActionKind::Custom(p), ActionKind::Custom(q)) => p == q,
        (ActionKind::CustomPos(c, p), ActionKind::CustomPos(d, q)) => c == d && vec3_eq(p, q),
        _ => false,
    }
}

impl ActionKind {
    /// `self == other` as `action_eq` says.
    pub fn float_eq(&self, other: &ActionKind) -> (r: bool)
        ensures
            r == action_eq(*self, *other),
    {
        match (self, other) {
            (ActionKind::Idle, ActionKind::Idle) => true,
            (ActionKind::Advance(p), ActionKind::Advance(q)) => p.float_eq(q),
            (ActionKind::Hold(p), ActionKind::Hold(q)) => p.float_eq(q),
            (ActionKind::Retreat(p), ActionKind::Retreat(q)) => p.float_eq(q),
            (ActionKind::Engage(p), ActionKind::Engage(q)) => p.0 == q.0,
            (ActionKind::RequestSupport, ActionKind::RequestSupport) => true,
            (ActionKind::Flank(p), ActionKind::Flank(q)) => p.float_eq(q),
            (ActionKind::TakeCover(p), ActionKind::TakeCover(q)) => p.float_eq(q),
            (ActionKind::Patrol(p), ActionKind::Patrol(q)) => p.float_eq(q),
            (ActionKind::Investigate(p), ActionKind::Investigate(q)) => p.float_eq(q),
            (ActionKind::Heal(p), ActionKind::Heal(q)) => p.0 == q.0,
            (ActionKind::Reload, ActionKind::Reload) => true,
            (ActionKind::Flee(p), ActionKind::Flee(q)) => p.float_eq(q),
            (ActionKind::Custom(p), ActionKind::Custom(q)) => *p == *q,
            (ActionKind::CustomPos(c, p), ActionKind::CustomPos(d, q)) => *c == *d && p.float_eq(q),
            _ => false,
        }
    }
}

impl PartialEq for ActionKind {
    fn eq(&self, other: &ActionKind) -> (r: bool) {
        self.float_eq(other)
    }
}

impl vstd::std_specs::cmp::PartialEqSpecImpl for ActionKind {
    open spec fn obeys_eq_spec() -> bool {
        true
    }

    open spec fn eq_spec(&self, other: &ActionKind) -> bool {
        action_eq(*self, *other)
    }
}

/// A directive handed down the hierarchy: the goal a superior chose.
#[derive(Clone, Copy, Debug)]
pub struct Intent {
    pub origin_rank: u8,
    pub goal: ActionKind,
    pub confidence: Scalar,
}

/// `a == b` on intents, fields compared as `==` does on each.
pub open spec fn intent_eq(a: Intent, b: Intent) -> bool {
    a.origin_rank == b.origin_rank && action_eq(a.goal, b.goal) && float_eq(
        a.confidence.0,
        b.confidence.0,
    )
}

impl PartialEq for Intent {
    fn eq(&self, other: &Intent) -> (r: bool) {
        self.origin_rank == other.origin_rank && self.goal.float_eq(&other.goal)
            && self.confidence.float_eq(other.confidence)
    }
}

impl vstd::std_specs::cmp::PartialEqSpecImpl for Intent {
    open spec fn obeys_eq_spec() -> bool {
        true
    }

    open spec fn eq_spec(&self, other: &Intent) -> bool {
        intent_eq(*self, *other)
    }
}

/// An action offered to the utility stage, with the score it was given.
#[derive(Clone, Copy, Debug)]
pub struct ActionCandidate {
    pub kind: ActionKind,
    pub score: Scalar,
}

/// `a == b` on candidates: equal kinds and scores, as `==` does on each.
pub open spec fn candidate_eq(a: ActionCandidate, b: ActionCandidate) -> bool {
    action_eq(a.kind, b.kind) && float_eq(a.score.0, b.score.0)
}

impl PartialEq for ActionCandidate {
    fn eq(&self, other: &ActionCandidate) -> (r: bool) {
        self.kind.float_eq(&other.kind) && self.score.float_eq(other.score)
    }
}

impl vstd::std_specs::cmp::PartialEqSpecImpl for ActionCandidate {
    open spec fn obeys_eq_spec() -> bool {
        true
    }

    open spec fn eq_spec(&self, other: &ActionCandidate) -> bool {
        candidate_eq(*self, *other)
    }
}

impl Default for ActionCandidate {
    fn default() -> (r: ActionCandidate)
        ensures
            r.kind is Idle,
            r.score.0 == 0,
    {
        ActionCandidate { kind: ActionKind::Idle, score: Scalar(0) }
    }
}

} // verus!
