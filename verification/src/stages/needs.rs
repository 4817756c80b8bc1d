use vstd::prelude::*;
use crate::core_types::action::ActionKind;
use crate::core_types::math::{Scalar, float_lt};
use crate::registry::soa::HALF_BITS;

verus! {

/// Bit pattern of `0.001f32`: how much hunger and fatigue grow each tick.
pub const NEED_GROWTH_BITS: u32 = 0x3A83_126Fu32;

/// Bit pattern of `-0.005f32`.
pub const MINUS_FIVE_THOUSANDTHS_BITS: u32 = 0xBBA3_D70Au32;

/// Bit pattern of `0.002f32`.
pub const TWO_THOUSANDTHS_BITS: u32 = 0x3B03_126Fu32;

/// Bit pattern of `0.01f32`.
pub const HUNDREDTH_BITS: u32 = 0x3C23_D70Au32;

/// Bit pattern of `0.9f32`.
pub const NINE_TENTHS_BITS: u32 = 0x3F66_6666u32;

/// How curiosity changes in a tick spent on `action`: investigating
/// satisfies it by 0.005, idling builds it by 0.002, anything else leaves it.
pub fn curiosity_step(action: &ActionKind) -> (r: Option<Scalar>)
    ensures
        r == (match *action {
            ActionKind::Investigate(_) => Some(Scalar(MINUS_FIVE_THOUSANDTHS_BITS)),
            ActionKind::Idle => Some(Scalar(TWO_THOUSANDTHS_BITS)),
            _ => None,
        }),
{
    match action {
        ActionKind::Investigate(_) => Some(Scalar(MINUS_FIVE_THOUSANDTHS_BITS)),
        ActionKind::Idle => Some(Scalar(TWO_THOUSANDTHS_BITS)),
        _ => None,
    }
}

/// How the urge of self-preservation changes in a tick at `health`: it
/// grows by 0.01 below one half, falls by 0.005 above nine tenths, and
/// stays otherwise.
pub fn self_preservation_step(health: Scalar) -> (r: Option<Scalar>)
    ensures
        r == (if float_lt(health.0, HALF_BITS) {
            Some(Scalar(HUNDREDTH_BITS))
        } else if float_lt(NINE_TENTHS_BITS, health.0) {
            Some(Scalar(MINUS_FIVE_THOUSANDTHS_BITS))
        } else {
            None
        }),
{
    if health.lt(Scalar(HALF_BITS)) {
        Some(Scalar(HUNDREDTH_BITS))
    } else if health.gt(Scalar(NINE_TENTHS_BITS)) {
        Some(Scalar(MINUS_FIVE_THOUSANDTHS_BITS))
    } else {
        None
    }
}

} // verus!
