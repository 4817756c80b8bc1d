use vstd::prelude::*;
use crate::core_types::action::{ActionKind, action_eq};
use crate::core_types::math::{Scalar, float_eq};
use crate::core_types::time::Tick;

verus! {

/// A record of one decision: the action chosen and the three best scores.
#[derive(Clone, Copy, Debug)]
pub struct DecisionTrace {
    pub tick: Tick,
    pub chosen_action: ActionKind,
    pub top_scores: [(ActionKind, Scalar); 3],
}

/// `a == b` on score entries: equal actions and equal scores.
pub open spec fn entry_eq(a: (ActionKind, Scalar), b: (ActionKind, Scalar)) -> bool {
    action_eq(a.0, b.0) && float_eq(a.1.0, b.1.0)
}

/// `a == b` on traces: equal ticks, chosen actions and score entries.
pub open spec fn trace_eq(a: DecisionTrace, b: DecisionTrace) -> bool {
    &&& a.tick == b.tick
    &&& action_eq(a.chosen_action, b.chosen_action)
    &&& entry_eq(a.top_scores@[0], b.top_scores@[0])
    &&& entry_eq(a.top_scores@[1], b.top_scores@[1])
    &&& entry_eq(a.top_scores@[2], b.top_scores@[2])
}

fn entries_equal(a: &(ActionKind, Scalar), b: &(ActionKind, Scalar)) -> (r: bool)
    ensures
        r == entry_eq(*a, *b),
{
    a.0.float_eq(&b.0) && a.1.float_eq(b.1)
}

impl PartialEq for DecisionTrace {
    fn eq(&self, other: &DecisionTrace) -> (r: bool) {
        self.tick.0 == other.tick.0 && self.chosen_action.float_eq(&other.chosen_action)
            && entries_equal(&self.top_scores[0], &other.top_scores[0]) && entries_equal(
            &self.top_scores[1],
            &other.top_scores[1],
        ) && entries_equal(&self.top_scores[2], &other.top_scores[2])
    }
}

impl vstd::std_specs::cmp::PartialEqSpecImpl for DecisionTrace {
    open spec fn obeys_eq_spec() -> bool {
        true
    }

    open spec fn eq_spec(&self, other: &DecisionTrace) -> bool {
        trace_eq(*self, *other)
    }
}

impl Default for DecisionTrace {
    /// Tick zero, `Idle` chosen, and three `Idle` entries scored zero.
    fn default() -> (r: DecisionTrace)
        ensures
            r.tick.0 == 0,
            r.chosen_action is Idle,
            forall|k: int| 0 <= k < 3 ==> (#[trigger] r.top_scores@[k]).0 is Idle && r.top_scores@[k].1.0 == 0,
    {
        DecisionTrace {
            tick: Tick(0),
            chosen_action: ActionKind::Idle,
            top_scores: [
                (ActionKind::Idle, Scalar(0)),
                (ActionKind::Idle, Scalar(0)),
                (ActionKind::Idle, Scalar(0)),
            ],
        }
    }
}

} // verus!
