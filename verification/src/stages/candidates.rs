use vstd::prelude::*;
use crate::belief::record::{BeliefKind, BeliefRecord};
use crate::core_types::action::{ActionCandidate, ActionKind, Intent};
use crate::core_types::id::EntityId;
use crate::core_types::math::{Scalar, Vec3, float_lt, float_le, MAX_BITS};
use crate::registry::soa::MAX_CANDIDATES;

verus! {

/// Bit pattern of `0.3f32`: the confidence a sighting must exceed, and
/// the health and morale below which an entity considers falling back.
pub const THREE_TENTHS_BITS: u32 = 0x3E99_999Au32;

/// Bit pattern of `0.2f32`: the ammunition level below which an entity
/// considers reloading.
pub const TWO_TENTHS_BITS: u32 = 0x3E4C_CCCDu32;

/// Whether `r` is a sighting: a position belief held with a confidence
/// above 0.3.
pub open spec fn is_sighting(r: BeliefRecord) -> bool {
    float_lt(THREE_TENTHS_BITS, r.confidence.0) && r.kind is Position
}

/// Whether some belief in `b` is a sighting.
pub open spec fn any_sighting(b: Seq<BeliefRecord>) -> bool {
    exists|k: int| 0 <= k < b.len() && #[trigger] is_sighting(b[k])
}

/// `k` is the nearest sighting in `b`, by the squared distances `d`: the
/// first sighting of least distance, among those nearer than `f32::MAX`.
pub open spec fn nearest_sighting(b: Seq<BeliefRecord>, d: Seq<Scalar>, k: int) -> bool {
    &&& 0 <= k < b.len()
    &&& is_sighting(b[k])
    &&& float_lt(d[k].0, MAX_BITS)
    &&& forall|j: int| 0 <= j < b.len() && #[trigger] is_sighting(b[j]) ==> !float_lt(d[j].0, d[k].0)
    &&& forall|j: int| 0 <= j < k && #[trigger] is_sighting(b[j]) ==> !float_le(d[j].0, d[k].0)
}

/// What a scan of an entity's beliefs for threats finds.
#[derive(Clone, Copy, Debug)]
pub struct ThreatScan {
    /// The index of the nearest sighting, if one is nearer than `f32::MAX`.
    pub closest: Option<usize>,
    /// Whether there is any sighting at all.
    pub has_threats: bool,
}

/// Scans `beliefs` for sightings, `dist_sq[k]` being the squared distance
/// to the position of belief `k`.
pub fn scan_threats(beliefs: &Vec<BeliefRecord>, dist_sq: &Vec<Scalar>) -> (r: ThreatScan)
    requires
        dist_sq@.len() == beliefs@.len(),
    ensures
        r.has_threats == any_sighting(beliefs@),
        match r.closest {
            Some(k) => nearest_sighting(beliefs@, dist_sq@, k as int),
            None => forall|j: int|
                0 <= j < beliefs@.len() && #[trigger] is_sighting(beliefs@[j]) ==> !float_lt(
                    dist_sq@[j].0,
                    MAX_BITS,
                ),
        },
{
    let threshold = Scalar(THREE_TENTHS_BITS);
    let mut closest: Option<usize> = None;
    let mut closest_dist = Scalar::max_value();
    let mut has_threats = false;
    let mut k: usize = 0;
    while k < beliefs.len()
        invariant
            k <= beliefs@.len(),
            dist_sq@.len() == beliefs@.len(),
            threshold.0 == THREE_TENTHS_BITS,
            has_threats == exists|j: int| 0 <= j < k && #[trigger] is_sighting(beliefs@[j]),
            match closest {
                Some(c) => {
                    &&& c < k
                    &&& closest_dist == dist_sq@[c as int]
                    &&& is_sighting(beliefs@[c as int])
                    &&& float_lt(dist_sq@[c as int].0, MAX_BITS)
                    &&& forall|j: int|
                        0 <= j < k && #[trigger] is_sighting(beliefs@[j]) ==> !float_lt(
                            dist_sq@[j].0,
                            dist_sq@[c as int].0,
                        )
                    &&& forall|j: int|
                        0 <= j < c && #[trigger] is_sighting(beliefs@[j]) ==> !float_le(
                            dist_sq@[j].0,
                            dist_sq@[c as int].0,
                        )
                },
                None => {
                    &&& closest_dist.0 == MAX_BITS
                    &&& forall|j: int|
                        0 <= j < k && #[trigger] is_sighting(beliefs@[j]) ==> !float_lt(
                            dist_sq@[j].0,
                            MAX_BITS,
                        )
                },
            },
        decreases beliefs@.len() - k,
    {
        let record = beliefs[k];
        if record.confidence.gt(threshold) {
            if let BeliefKind::Position(_) = record.kind {
                assert(is_sighting(beliefs@[k as int]));
                let d = dist_sq[k];
                if d.lt(closest_dist) {
                    closest_dist = d;
                    closest = Some(k);
                }
                has_threats = true;
            }
        }
        k = k + 1;
    }
    ThreatScan { closest, has_threats }
}

/// Whether an entity whose beliefs scanned as `scan` draws a patrol point:
/// only one that saw no threat at all.
pub fn plans_patrol(scan: &ThreatScan) -> (r: bool)
    ensures
        r == !scan.has_threats,
{
    !scan.has_threats
}

/// The nearest sighting, with the places an entity would flank to, retreat
/// to and flee to from it.
#[derive(Clone, Copy, Debug)]
pub struct Sighting {
    pub subject_id: EntityId,
    pub pos: Vec3,
    pub flank: Vec3,
    pub retreat: Vec3,
    pub flee: Vec3,
}

/// The actions the beliefs in `b` suggest, in order: taking each cover
/// position and investigating each sound.
pub open spec fn belief_actions(b: Seq<BeliefRecord>) -> Seq<ActionKind>
    decreases b.len(),
{
    if b.len() == 0 {
        Seq::empty()
    } else {
        let prev = belief_actions(b.drop_last());
        match b.last().kind {
            BeliefKind::CoverPosition(p) => prev.push(ActionKind::TakeCover(p)),
            BeliefKind::Sound(p) => prev.push(ActionKind::Investigate(p)),
            _ => prev,
        }
    }
}

/// The actions an entity with the given situation considers, in order:
/// `Idle`; with a nearest sighting, engaging it, advancing on it and
/// flanking it, then retreating and healing when health is below 0.3 and
/// fleeing when morale is below 0.3; without one, healing when health is
/// below 0.3; reloading when ammunition is below 0.2; the actions its
/// beliefs suggest; the goal of its intent; and the patrol point, if any.
pub open spec fn candidate_kinds(
    self_id: EntityId,
    sighting: Option<Sighting>,
    health: Scalar,
    morale: Scalar,
    ammo: Scalar,
    beliefs: Seq<BeliefRecord>,
    intent: Option<Intent>,
    patrol: Option<Vec3>,
) -> Seq<ActionKind> {
    let low_health = float_lt(health.0, THREE_TENTHS_BITS);
    let threat_part = match sighting {
        Some(s) => seq![
            ActionKind::Engage(s.subject_id),
            ActionKind::Advance(s.pos),
            ActionKind::Flank(s.flank),
        ] + (if low_health {
            seq![ActionKind::Retreat(s.retreat), ActionKind::Heal(self_id)]
        } else {
            Seq::empty()
        }) + (if float_lt(morale.0, THREE_TENTHS_BITS) {
            seq![ActionKind::Flee(s.flee)]
        } else {
            Seq::empty()
        }),
        None => if low_health {
            seq![ActionKind::Heal(self_id)]
        } else {
            Seq::empty()
        },
    };
    let ammo_part = if float_lt(ammo.0, TWO_TENTHS_BITS) {
        seq![ActionKind::Reload]
    } else {
        Seq::empty()
    };
    let intent_part = match intent {
        Some(i) => seq![i.goal],
        None => Seq::empty(),
    };
    let patrol_part = match patrol {
        Some(p) => seq![ActionKind::Patrol(p)],
        None => Seq::empty(),
    };
    seq![ActionKind::Idle] + threat_part + ammo_part + belief_actions(beliefs) + intent_part
        + patrol_part
}

/// The candidate slots holding the first `MAX_CANDIDATES` of `kinds`, each
/// unscored (score zero); later kinds are dropped, unused slots are empty.
pub open spec fn slots_hold(
    slots: Seq<Option<ActionCandidate>>,
    kinds: Seq<ActionKind>,
) -> bool {
    &&& slots.len() == MAX_CANDIDATES
    &&& forall|k: int|
        0 <= k < MAX_CANDIDATES ==> #[trigger] slots[k] == if k < kinds.len() {
            Some(ActionCandidate { kind: kinds[k], score: Scalar(0) })
        } else {
            None
        }
}

/// The actions beliefs suggest are only taking cover and investigating.
pub proof fn lemma_belief_actions_kinds(b: Seq<BeliefRecord>)
    ensures
        forall|k: int|
            0 <= k < belief_actions(b).len() ==> (#[trigger] belief_actions(b)[k]) is TakeCover
                || belief_actions(b)[k] is Investigate,
    decreases b.len(),
{
    if b.len() > 0 {
        lemma_belief_actions_kinds(b.drop_last());
    }
}

/// An entity whose health is not below 0.3 considers retreating or healing
/// only when that is the goal of its intent; one below 0.3 with a nearest
/// sighting considers, right after engaging, advancing and flanking,
/// retreating from it and healing itself.
pub proof fn lemma_fallback_only_when_weak(
    self_id: EntityId,
    sighting: Option<Sighting>,
    health: Scalar,
    morale: Scalar,
    ammo: Scalar,
    beliefs: Seq<BeliefRecord>,
    intent: Option<Intent>,
    patrol: Option<Vec3>,
)
    ensures
        ({
            let c = candidate_kinds(self_id, sighting, health, morale, ammo, beliefs, intent, patrol);
            &&& !float_lt(health.0, 0x3E99_999Au32) ==> forall|k: int|
                0 <= k < c.len() && ((#[trigger] c[k]) is Retreat || c[k] is Heal) ==> intent is Some
                    && c[k] == intent.unwrap().goal
            &&& sighting is Some && float_lt(health.0, 0x3E99_999Au32) ==> {
                &&& c[4] == ActionKind::Retreat(sighting.unwrap().retreat)
                &&& c[5] == ActionKind::Heal(self_id)
            }
        }),
{
    lemma_belief_actions_kinds(beliefs);
    let c = candidate_kinds(self_id, sighting, health, morale, ammo, beliefs, intent, patrol);
    let ba = belief_actions(beliefs);
    if !float_lt(health.0, 0x3E99_999Au32) {
        let low = float_lt(health.0, THREE_TENTHS_BITS);
        assert(!low);
        let threat_part = match sighting {
            Some(s) => seq![
                ActionKind::Engage(s.subject_id),
                ActionKind::Advance(s.pos),
                ActionKind::Flank(s.flank),
            ] + Seq::<ActionKind>::empty() + (if float_lt(morale.0, THREE_TENTHS_BITS) {
                seq![ActionKind::Flee(s.flee)]
            } else {
                Seq::empty()
            }),
            None => Seq::<ActionKind>::empty(),
        };
        let ammo_part = if float_lt(ammo.0, TWO_TENTHS_BITS) {
            seq![ActionKind::Reload]
        } else {
            Seq::empty()
        };
        let intent_part = match intent {
            Some(i) => seq![i.goal],
            None => Seq::empty(),
        };
        let patrol_part = match patrol {
            Some(p) => seq![ActionKind::Patrol(p)],
            None => Seq::empty(),
        };
        let head = seq![ActionKind::Idle] + threat_part + ammo_part;
        assert(c =~= head + ba + intent_part + patrol_part);
        assert forall|k: int|
            0 <= k < c.len() && ((#[trigger] c[k]) is Retreat || c[k] is Heal) implies intent is Some
                && c[k] == intent.unwrap().goal by {
            if k < head.len() {
                assert(c[k] == head[k]);
            } else if k < head.len() + ba.len() {
                assert(c[k] == ba[k - head.len()]);
            } else if k < head.len() + ba.len() + intent_part.len() {
                assert(c[k] == intent_part[k - head.len() - ba.len()]);
            } else {
                assert(c[k] == patrol_part[k - head.len() - ba.len() - intent_part.len()]);
            }
        }
    }
}

/// Where each listed action comes from. The list starts with `Idle`; apart
/// from the goal of the intent, engaging is listed only for the nearest
/// sighting, retreating and healing only at health below 0.3, fleeing only
/// with a sighting at morale below 0.3, reloading only at ammunition below
/// 0.2, and patrolling only to the patrol point given.
pub proof fn lemma_candidate_sources(
    self_id: EntityId,
    sighting: Option<Sighting>,
    health: Scalar,
    morale: Scalar,
    ammo: Scalar,
    beliefs: Seq<BeliefRecord>,
    intent: Option<Intent>,
    patrol: Option<Vec3>,
)
    ensures
        ({
            let c = candidate_kinds(self_id, sighting, health, morale, ammo, beliefs, intent, patrol);
            let from_intent = |a: ActionKind| intent is Some && a == intent.unwrap().goal;
            &&& c.len() > 0 && c[0] is Idle
            &&& forall|k: int|
                0 <= k < c.len() ==> {
                    &&& (#[trigger] c[k]) is Engage ==> from_intent(c[k]) || (sighting is Some
                        && c[k] == ActionKind::Engage(sighting.unwrap().subject_id))
                    &&& c[k] is Retreat ==> from_intent(c[k]) || (sighting is Some && float_lt(
                        health.0,
                        0x3E99_999Au32,
                    ) && c[k] == ActionKind::Retreat(sighting.unwrap().retreat))
                    &&& c[k] is Heal ==> from_intent(c[k]) || (float_lt(health.0, 0x3E99_999Au32)
                        && c[k] == ActionKind::Heal(self_id))
                    &&& c[k] is Flee ==> from_intent(c[k]) || (sighting is Some && float_lt(
                        morale.0,
                        0x3E99_999Au32,
                    ) && c[k] == ActionKind::Flee(sighting.unwrap().flee))
                    &&& c[k] is Reload ==> from_intent(c[k]) || float_lt(ammo.0, 0x3E4C_CCCDu32)
                    &&& c[k] is Patrol ==> from_intent(c[k]) || (patrol is Some && c[k]
                        == ActionKind::Patrol(patrol.unwrap()))
                }
        }),
{
    lemma_belief_actions_kinds(beliefs);
    let c = candidate_kinds(self_id, sighting, health, morale, ammo, beliefs, intent, patrol);
    let ba = belief_actions(beliefs);
    let low_health = float_lt(health.0, THREE_TENTHS_BITS);
    let fallback = match sighting {
        Some(s) => if low_health {
            seq![ActionKind::Retreat(s.retreat), ActionKind::Heal(self_id)]
        } else {
            Seq::<ActionKind>::empty()
        },
        None => Seq::<ActionKind>::empty(),
    };
    let flee = match sighting {
        Some(s) => if float_lt(morale.0, THREE_TENTHS_BITS) {
            seq![ActionKind::Flee(s.flee)]
        } else {
            Seq::<ActionKind>::empty()
        },
        None => Seq::<ActionKind>::empty(),
    };
    let threat_part = match sighting {
        Some(s) => seq![
            ActionKind::Engage(s.subject_id),
            ActionKind::Advance(s.pos),
            ActionKind::Flank(s.flank),
        ] + fallback + flee,
        None => if low_health {
            seq![ActionKind::Heal(self_id)]
        } else {
            Seq::empty()
        },
    };
    let ammo_part = if float_lt(ammo.0, TWO_TENTHS_BITS) {
        seq![ActionKind::Reload]
    } else {
        Seq::empty()
    };
    let intent_part = match intent {
        Some(i) => seq![i.goal],
        None => Seq::empty(),
    };
    let patrol_part = match patrol {
        Some(p) => seq![ActionKind::Patrol(p)],
        None => Seq::empty(),
    };
    let head = seq![ActionKind::Idle] + threat_part;
    assert(c =~= head + ammo_part + ba + intent_part + patrol_part);
    let from_intent = |a: ActionKind| intent is Some && a == intent.unwrap().goal;
    assert forall|k: int| 0 <= k < c.len() implies {
        &&& (#[trigger] c[k]) is Engage ==> from_intent(c[k]) || (sighting is Some && c[k]
            == ActionKind::Engage(sighting.unwrap().subject_id))
        &&& c[k] is Retreat ==> from_intent(c[k]) || (sighting is Some && float_lt(
            health.0,
            0x3E99_999Au32,
        ) && c[k] == ActionKind::Retreat(sighting.unwrap().retreat))
        &&& c[k] is Heal ==> from_intent(c[k]) || (float_lt(health.0, 0x3E99_999Au32) && c[k]
            == ActionKind::Heal(self_id))
        &&& c[k] is Flee ==> from_intent(c[k]) || (sighting is Some && float_lt(
            morale.0,
            0x3E99_999Au32,
        ) && c[k] == ActionKind::Flee(sighting.unwrap().flee))
        &&& c[k] is Reload ==> from_intent(c[k]) || float_lt(ammo.0, 0x3E4C_CCCDu32)
        &&& c[k] is Patrol ==> from_intent(c[k]) || (patrol is Some && c[k] == ActionKind::Patrol(
            patrol.unwrap(),
        ))
    } by {
        let h = head.len();
        let a = h + ammo_part.len();
        let b = a + ba.len();
        let i = b + intent_part.len();
        if k < h {
            assert(c[k] == head[k]);
            if k >= 1 {
                assert(head[k] == threat_part[k - 1]);
                if sighting is Some {
                    let t = k - 1;
                    if t >= 3 {
                        if t < 3 + fallback.len() {
                            assert(threat_part[t] == fallback[t - 3]);
                        } else {
                            assert(threat_part[t] == flee[t - 3 - fallback.len()]);
                        }
                    }
                }
            }
        } else if k < a {
            assert(c[k] == ammo_part[k - h]);
        } else if k < b {
            assert(c[k] == ba[k - a]);
        } else if k < i {
            assert(c[k] == intent_part[k - b]);
        } else {
            assert(c[k] == patrol_part[k - i]);
        }
    }
}

/// The candidate actions of an entity, as `candidate_kinds` lists them,
/// cut to the number of candidate slots.
pub fn assemble_candidates(
    self_id: EntityId,
    sighting: Option<Sighting>,
    health: Scalar,
    morale: Scalar,
    ammo: Scalar,
    beliefs: &Vec<BeliefRecord>,
    intent: Option<Intent>,
    patrol: Option<Vec3>,
) -> (r: [Option<ActionCandidate>; MAX_CANDIDATES])
    ensures
        slots_hold(
            r@,
            candidate_kinds(self_id, sighting, health, morale, ammo, beliefs@, intent, patrol),
        ),
        !float_lt(health.0, 0x3E99_999Au32) ==> forall|k: int|
            0 <= k < MAX_CANDIDATES && (#[trigger] r@[k]) is Some && (r@[k].unwrap().kind is Retreat
                || r@[k].unwrap().kind is Heal) ==> intent is Some && r@[k].unwrap().kind
                == intent.unwrap().goal,
        sighting is Some && float_lt(health.0, 0x3E99_999Au32) ==> {
            &&& r@[4] == Some(
                ActionCandidate {
                    kind: ActionKind::Retreat(sighting.unwrap().retreat),
                    score: Scalar(0),
                },
            )
            &&& r@[5] == Some(ActionCandidate { kind: ActionKind::Heal(self_id), score: Scalar(0) })
        },
{
    let threshold = Scalar(THREE_TENTHS_BITS);
    let mut kinds: Vec<ActionKind> = Vec::new();
    kinds.push(ActionKind::Idle);
    let ghost s0 = kinds@;
    match sighting {
        Some(s) => {
            kinds.push(ActionKind::Engage(s.subject_id));
            kinds.push(ActionKind::Advance(s.pos));
            kinds.push(ActionKind::Flank(s.flank));
            if health.lt(threshold) {
                kinds.push(ActionKind::Retreat(s.retreat));
                kinds.push(ActionKind::Heal(self_id));
            }
            if morale.lt(threshold) {
                kinds.push(ActionKind::Flee(s.flee));
            }
        },
        None => {
            if health.lt(threshold) {
                kinds.push(ActionKind::Heal(self_id));
            }
        },
    }
    if ammo.lt(Scalar(TWO_TENTHS_BITS)) {
        kinds.push(ActionKind::Reload);
    }
    let ghost before_beliefs = kinds@;
    let mut k: usize = 0;
    while k < beliefs.len()
        invariant
            k <= beliefs@.len(),
            kinds@ == before_beliefs + belief_actions(beliefs@.subrange(0, k as int)),
        decreases beliefs@.len() - k,
    {
        proof {
            let post = beliefs@.subrange(0, k as int + 1);
            assert(post.drop_last() == beliefs@.subrange(0, k as int));
            assert(post.last() == beliefs@[k as int]);
        }
        match beliefs[k].kind {
            BeliefKind::CoverPosition(p) => kinds.push(ActionKind::TakeCover(p)),
            BeliefKind::Sound(p) => kinds.push(ActionKind::Investigate(p)),
            _ => {},
        }
        k = k + 1;
    }
    proof {
        assert(beliefs@.subrange(0, beliefs@.len() as int) == beliefs@);
    }
    if let Some(i) = intent {
        kinds.push(i.goal);
    }
    if let Some(p) = patrol {
        kinds.push(ActionKind::Patrol(p));
    }
    let ghost expected = candidate_kinds(
        self_id,
        sighting,
        health,
        morale,
        ammo,
        beliefs@,
        intent,
        patrol,
    );
    assert(kinds@ =~= expected);
    proof {
        lemma_fallback_only_when_weak(
            self_id,
            sighting,
            health,
            morale,
            ammo,
            beliefs@,
            intent,
            patrol,
        );
    }
    let mut slots: [Option<ActionCandidate>; MAX_CANDIDATES] = [None; MAX_CANDIDATES];
    let mut n: usize = 0;
    while n < MAX_CANDIDATES
        invariant
            n <= MAX_CANDIDATES,
            kinds@ == expected,
            forall|j: int|
                0 <= j < MAX_CANDIDATES ==> #[trigger] slots@[j] == if j < n && j < kinds@.len() {
                    Some(ActionCandidate { kind: kinds@[j], score: Scalar(0) })
                } else {
                    None
                },
        decreases MAX_CANDIDATES - n,
    {
        if n < kinds.len() {
            slots[n] = Some(ActionCandidate { kind: kinds[n], score: Scalar(0) });
        }
        n = n + 1;
    }
    slots
}

} // verus!
