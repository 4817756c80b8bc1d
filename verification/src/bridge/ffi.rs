use vstd::prelude::*;
use crate::belief::record::BeliefKind;
use crate::core_types::action::ActionKind;
use crate::core_types::id::HierarchyLevel;
use crate::core_types::math::{Scalar, Vec3};

verus! {

/// The rank a host asks for by number: 0 soldier, 1 squad leader,
/// 2 platoon commander, any other number soldier.
pub fn hierarchy_from_code(code: u8) -> (r: HierarchyLevel)
    ensures
        r == (if code == 1 {
            HierarchyLevel::SquadLeader
        } else if code == 2 {
            HierarchyLevel::PlatoonCommander
        } else {
            HierarchyLevel::Soldier
        }),
{
    match code {
        0 => HierarchyLevel::Soldier,
        1 => HierarchyLevel::SquadLeader,
        2 => HierarchyLevel::PlatoonCommander,
        _ => HierarchyLevel::Soldier,
    }
}

/// The belief a host event of type `kind_type` carries: 1 a threat level
/// equal to the event's confidence, any other type a position.
pub fn belief_kind_from_code(kind_type: u8, pos: Vec3, confidence: Scalar) -> (r: BeliefKind)
    ensures
        r == (if kind_type == 1 {
            BeliefKind::ThreatLevel(confidence)
        } else {
            BeliefKind::Position(pos)
        }),
{
    match kind_type {
        0 => BeliefKind::Position(pos),
        1 => BeliefKind::ThreatLevel(confidence),
        _ => BeliefKind::Position(pos),
    }
}

/// An action as a host sees it: a type number, a position and a target.
#[derive(Clone, Copy, Debug)]
pub struct ActionCode {
    pub action_type: u8,
    pub pos: Vec3,
    pub target_id: u32,
}

/// How an action is reported to a host: `Advance` is 1 with its position,
/// `Engage` 2 with its target, `Flee` 3 with its position, and every other
/// action 0; fields an action does not carry are zero.
pub fn action_code(action: &ActionKind) -> (r: ActionCode)
    ensures
        r == (match *action {
            ActionKind::Advance(p) => ActionCode { action_type: 1, pos: p, target_id: 0 },
            ActionKind::Engage(id) => ActionCode {
                action_type: 2,
                pos: Vec3 { x: Scalar(0), y: Scalar(0), z: Scalar(0) },
                target_id: id.0,
            },
            ActionKind::Flee(p) => ActionCode { action_type: 3, pos: p, target_id: 0 },
            _ => ActionCode {
                action_type: 0,
                pos: Vec3 { x: Scalar(0), y: Scalar(0), z: Scalar(0) },
                target_id: 0,
            },
        }),
{
    let zero = Vec3 { x: Scalar(0), y: Scalar(0), z: Scalar(0) };
    match action {
        ActionKind::Advance(p) => ActionCode { action_type: 1, pos: *p, target_id: 0 },
        ActionKind::Engage(id) => ActionCode { action_type: 2, pos: zero, target_id: id.0 },
        ActionKind::Flee(p) => ActionCode { action_type: 3, pos: *p, target_id: 0 },
        _ => ActionCode { action_type: 0, pos: zero, target_id: 0 },
    }
}

/// How many actions fit in a host buffer of `max_actions` entries when
/// `active` entities have one each.
pub fn action_count(active: usize, max_actions: usize) -> (r: usize)
    ensures
        r == if active <= max_actions {
            active
        } else {
            max_actions
        },
{
    if active <= max_actions {
        active
    } else {
        max_actions
    }
}

} // verus!
