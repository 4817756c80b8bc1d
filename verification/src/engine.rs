use vstd::prelude::*;

verus! {

/// The hooks that add nothing to the built-in stages.
#[derive(Clone, Copy, Debug, Default)]
pub struct DefaultHooks;

} // verus!
