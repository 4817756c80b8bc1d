use vstd::prelude::*;
use crate::core_types::math::{Scalar, float_eq};
use super::soa::HALF_BITS;

verus! {

/// An entity's internal needs, each between zero and one.
#[derive(Clone, Copy, Debug)]
pub struct NeedState {
    pub hunger: Scalar,
    pub fatigue: Scalar,
    pub curiosity: Scalar,
    pub self_preservation: Scalar,
}

/// `a == b` on need states, each need compared as `f32` compares.
pub open spec fn needs_eq(a: NeedState, b: NeedState) -> bool {
    &&& float_eq(a.hunger.0, b.hunger.0)
    &&& float_eq(a.fatigue.0, b.fatigue.0)
    &&& float_eq(a.curiosity.0, b.curiosity.0)
    &&& float_eq(a.self_preservation.0, b.self_preservation.0)
}

impl PartialEq for NeedState {
    fn eq(&self, other: &NeedState) -> (r: bool) {
        self.hunger.float_eq(other.hunger) && self.fatigue.float_eq(other.fatigue)
            && self.curiosity.float_eq(other.curiosity) && self.self_preservation.float_eq(
            other.self_preservation,
        )
    }
}

impl vstd::std_specs::cmp::PartialEqSpecImpl for NeedState {
    open spec fn obeys_eq_spec() -> bool {
        true
    }

    open spec fn eq_spec(&self, other: &NeedState) -> bool {
        needs_eq(*self, *other)
    }
}

impl Default for NeedState {
    /// Every need at one half.
    fn default() -> (r: NeedState)
        ensures
            r.hunger.0 == HALF_BITS,
            r.fatigue.0 == HALF_BITS,
            r.curiosity.0 == HALF_BITS,
            r.self_preservation.0 == HALF_BITS,
    {
        NeedState {
            hunger: Scalar(HALF_BITS),
            fatigue: Scalar(HALF_BITS),
            curiosity: Scalar(HALF_BITS),
            self_preservation: Scalar(HALF_BITS),
        }
    }
}

} // verus!
