use vstd::prelude::*;
use crate::core_types::action::{ActionKind, Intent, action_eq};
use crate::core_types::math::{Scalar, float_lt};
use crate::registry::soa::{HALF_BITS, ONE_BITS};

verus! {

/// Bit pattern of `0.1f32`.
pub const TENTH_BITS: u32 = 0x3DCC_CCCDu32;

/// Bit pattern of `0.8f32`.
pub const FOUR_FIFTHS_BITS: u32 = 0x3F4C_CCCDu32;

/// The factor a consideration contributes to a candidate's utility, before
/// the consideration's weight multiplies it.
#[derive(Clone, Copy, Debug)]
pub enum Factor {
    /// A fixed number.
    Constant(Scalar),
    /// One of the entity's values, as it is.
    Value(Scalar),
    /// `max(0, 1 - x)`: how far the value `x` falls short of one.
    Shortfall(Scalar),
    /// `max(0, 1 - x) * max(0.1, p)`: the shortfall of `x`, scaled by `p`
    /// taken to be at least one tenth.
    ScaledShortfall(Scalar, Scalar),
}

/// Engaging or advancing counts fully; anything else a tenth.
pub fn threat_proximity_factor(kind: &ActionKind) -> (r: Factor)
    ensures
        r == (match *kind {
            ActionKind::Engage(_) | ActionKind::Advance(_) => Factor::Constant(Scalar(ONE_BITS)),
            _ => Factor::Constant(Scalar(TENTH_BITS)),
        }),
{
    match kind {
        ActionKind::Engage(_) | ActionKind::Advance(_) => Factor::Constant(Scalar(ONE_BITS)),
        _ => Factor::Constant(Scalar(TENTH_BITS)),
    }
}

/// Retreating, taking cover, fleeing and healing count by the lack of
/// health, scaled by the urge of self-preservation; anything else by the
/// health itself.
pub fn self_preservation_factor(kind: &ActionKind, health: Scalar, preservation: Scalar) -> (r:
    Factor)
    ensures
        r == (match *kind {
            ActionKind::Retreat(_)
            | ActionKind::TakeCover(_)
            | ActionKind::Flee(_)
            | ActionKind::Heal(_) => Factor::ScaledShortfall(health, preservation),
            _ => Factor::Value(health),
        }),
{
    match kind {
        ActionKind::Retreat(_)
        | ActionKind::TakeCover(_)
        | ActionKind::Flee(_)
        | ActionKind::Heal(_) => Factor::ScaledShortfall(health, preservation),
        _ => Factor::Value(health),
    }
}

/// Reloading counts by the lack of ammunition; engaging counts a tenth
/// when ammunition is below one tenth and fully otherwise; anything else
/// fully.
pub fn ammo_factor(kind: &ActionKind, ammo: Scalar) -> (r: Factor)
    ensures
        r == (match *kind {
            ActionKind::Reload => Factor::Shortfall(ammo),
            ActionKind::Engage(_) => if float_lt(ammo.0, TENTH_BITS) {
                Factor::Constant(Scalar(TENTH_BITS))
            } else {
                Factor::Constant(Scalar(ONE_BITS))
            },
            _ => Factor::Constant(Scalar(ONE_BITS)),
        }),
{
    match kind {
        ActionKind::Reload => Factor::Shortfall(ammo),
        ActionKind::Engage(_) => {
            if ammo.lt(Scalar(TENTH_BITS)) {
                Factor::Constant(Scalar(TENTH_BITS))
            } else {
                Factor::Constant(Scalar(ONE_BITS))
            }
        },
        _ => Factor::Constant(Scalar(ONE_BITS)),
    }
}

/// Fleeing counts by the lack of morale, advancing by the morale itself,
/// anything else by one half.
pub fn morale_factor(kind: &ActionKind, morale: Scalar) -> (r: Factor)
    ensures
        r == (match *kind {
            ActionKind::Flee(_) => Factor::Shortfall(morale),
            ActionKind::Advance(_) => Factor::Value(morale),
            _ => Factor::Constant(Scalar(HALF_BITS)),
        }),
{
    match kind {
        ActionKind::Flee(_) => Factor::Shortfall(morale),
        ActionKind::Advance(_) => Factor::Value(morale),
        _ => Factor::Constant(Scalar(HALF_BITS)),
    }
}

/// The goal of the current intent counts fully, anything else one half.
pub fn intent_compliance_factor(kind: &ActionKind, intent: Option<Intent>) -> (r: Factor)
    ensures
        r == (match intent {
            Some(i) => if action_eq(*kind, i.goal) {
                Factor::Constant(Scalar(ONE_BITS))
            } else {
                Factor::Constant(Scalar(HALF_BITS))
            },
            None => Factor::Constant(Scalar(HALF_BITS)),
        }),
{
    if let Some(i) = intent {
        if kind.float_eq(&i.goal) {
            return Factor::Constant(Scalar(ONE_BITS));
        }
    }
    Factor::Constant(Scalar(HALF_BITS))
}

/// The action already chosen counts fully, anything else four fifths.
pub fn inertia_factor(kind: &ActionKind, chosen: &ActionKind) -> (r: Factor)
    ensures
        r == (if action_eq(*kind, *chosen) {
            Factor::Constant(Scalar(ONE_BITS))
        } else {
            Factor::Constant(Scalar(FOUR_FIFTHS_BITS))
        }),
{
    if kind.float_eq(chosen) {
        Factor::Constant(Scalar(ONE_BITS))
    } else {
        Factor::Constant(Scalar(FOUR_FIFTHS_BITS))
    }
}

/// Patrolling and investigating count by curiosity, anything else by one
/// half.
pub fn needs_factor(kind: &ActionKind, curiosity: Scalar) -> (r: Factor)
    ensures
        r == (match *kind {
            ActionKind::Patrol(_) | ActionKind::Investigate(_) => Factor::Value(curiosity),
            _ => Factor::Constant(Scalar(HALF_BITS)),
        }),
{
    match kind {
        ActionKind::Patrol(_) | ActionKind::Investigate(_) => Factor::Value(curiosity),
        _ => Factor::Constant(Scalar(HALF_BITS)),
    }
}

} // verus!
