use vstd::prelude::*;
use vstd::std_specs::ops::{AddSpec, SubSpec};

verus! {

/// A simulation step number.
#[derive(Clone, Copy, Debug, PartialEq, Eq, Structural, PartialOrd, Ord, Hash)]
pub struct Tick(pub u64);

impl Default for Tick {
    fn default() -> (r: Tick)
        ensures
            r.0 == 0,
    {
        Tick(0)
    }
}

impl core::ops::Add<u64> for Tick {
    type Output = Tick;

    /// The tick `rhs` steps later; the sum must fit in a `u64`.
    fn add(self, rhs: u64) -> (r: Tick) {
        Tick(self.0 + rhs)
    }
}

impl vstd::std_specs::ops::AddSpecImpl<u64> for Tick {
    open spec fn obeys_add_spec() -> bool {
        true
    }

    open spec fn add_req(self, rhs: u64) -> bool {
        self.0 + rhs <= u64::MAX
    }

    open spec fn add_spec(self, rhs: u64) -> Tick {
        Tick((self.0 + rhs) as u64)
    }
}

impl core::ops::Sub<Tick> for Tick {
    type Output = u64;

    /// The number of steps from `rhs` to `self`, zero when `rhs` is later.
    fn sub(self, rhs: Tick) -> (r: u64) {
        self.0.saturating_sub(rhs.0)
    }
}

impl vstd::std_specs::ops::SubSpecImpl<Tick> for Tick {
    open spec fn obeys_sub_spec() -> bool {
        true
    }

    open spec fn sub_req(self, rhs: Tick) -> bool {
        true
    }

    open spec fn sub_spec(self, rhs: Tick) -> u64 {
        if self.0 >= rhs.0 {
            (self.0 - rhs.0) as u64
        } else {
            0
        }
    }
}

/// Stepping `n` ticks forward and measuring back from there gives `n`;
/// measuring from the later tick back to the earlier one gives zero.
pub proof fn lemma_sub_undoes_add(t: Tick, n: u64)
    requires
        t.0 + n <= u64::MAX,
    ensures
        t.add_spec(n).sub_spec(t) == n,
        t.sub_spec(t.add_spec(n)) == 0,
{
}

} // verus!
