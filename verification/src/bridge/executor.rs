use vstd::prelude::*;
use crate::core_types::action::ActionKind;
use crate::core_types::id::EntityId;

verus! {

/// Carries out, in the host world, the actions entities committed to.
pub trait ActionExecutorBridge {
    fn execute(&mut self, entity: EntityId, action: ActionKind);
}

} // verus!
