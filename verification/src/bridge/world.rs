use vstd::prelude::*;
use crate::core_types::id::EntityId;

verus! {

/// An entity of the host world that can take messages.
pub trait Communicator {
    /// Whether a message from `from` can reach this entity.
    fn can_receive(&self, from: EntityId) -> bool;
}

} // verus!
