use vstd::prelude::*;
use super::record::{BeliefRecord, kind_tag};
use crate::core_types::math::{Scalar, float_lt, float_le, MAX_BITS};

verus! {

/// The number of slots in a belief store.
pub const MAX_BELIEFS_PER_ENTITY: usize = 64;

/// Whether `r` is a belief about the same subject, of the same variant, as `n`.
pub open spec fn same_topic(r: BeliefRecord, n: BeliefRecord) -> bool {
    r.subject_id == n.subject_id && kind_tag(r.kind) == kind_tag(n.kind)
}

/// Whether slot `r` stops the search for a place for `n`: it is empty, or
/// it holds a belief on the same topic.
pub open spec fn claims(r: Option<BeliefRecord>, n: BeliefRecord) -> bool {
    match r {
        None => true,
        Some(e) => same_topic(e, n),
    }
}

/// `i` is the first slot of `s` that claims `n`.
pub open spec fn first_claim(s: Seq<Option<BeliefRecord>>, n: BeliefRecord, i: int) -> bool {
    &&& 0 <= i < s.len()
    &&& claims(s[i], n)
    &&& forall|j: int| 0 <= j < i ==> !claims(#[trigger] s[j], n)
}

/// The confidence held in slot `i` (positive zero for an empty slot).
pub open spec fn conf(s: Seq<Option<BeliefRecord>>, i: int) -> u32 {
    match s[i] {
        Some(r) => r.confidence.0,
        None => 0,
    }
}

/// `i` is the first slot of least confidence, among the slots whose
/// confidence is below `f32::MAX`.
pub open spec fn weakest_slot(s: Seq<Option<BeliefRecord>>, i: int) -> bool {
    &&& 0 <= i < s.len()
    &&& float_lt(conf(s, i), MAX_BITS)
    &&& forall|j: int| 0 <= j < s.len() ==> !float_lt(#[trigger] conf(s, j), conf(s, i))
    &&& forall|j: int| 0 <= j < i ==> !float_le(#[trigger] conf(s, j), conf(s, i))
}

/// `k` is the first slot of least confidence below `f32::MAX` among the
/// first `i` slots of `s`.
pub open spec fn weakest_among(s: Seq<Option<BeliefRecord>>, i: int, k: int) -> bool {
    &&& 0 <= k < i <= s.len()
    &&& float_lt(conf(s, k), MAX_BITS)
    &&& forall|j: int| 0 <= j < i ==> !float_lt(#[trigger] conf(s, j), conf(s, k))
    &&& forall|j: int| 0 <= j < k ==> !float_le(#[trigger] conf(s, j), conf(s, k))
}

/// The slots after `n` is offered to the store holding `s`.
///
/// The first slot that is empty or holds a belief on the same topic takes
/// `n`: an empty slot always, an occupied one when `n` was observed no
/// earlier than the belief it holds. With no such slot, `n` replaces the
/// belief of least confidence when its own confidence is greater.
pub open spec fn after_insert(s: Seq<Option<BeliefRecord>>, n: BeliefRecord) -> Seq<
    Option<BeliefRecord>,
> {
    if exists|i: int| first_claim(s, n, i) {
        let i = choose|i: int| first_claim(s, n, i);
        match s[i] {
            None => s.update(i, Some(n)),
            Some(e) => if n.observed_at.0 >= e.observed_at.0 {
                s.update(i, Some(n))
            } else {
                s
            },
        }
    } else if exists|i: int| weakest_slot(s, i) {
        let i = choose|i: int| weakest_slot(s, i);
        if float_lt(conf(s, i), n.confidence.0) {
            s.update(i, Some(n))
        } else {
            s
        }
    } else if float_lt(MAX_BITS, n.confidence.0) {
        s.update(0, Some(n))
    } else {
        s
    }
}

/// Slot `r` once a belief of confidence below `threshold` is dropped.
pub open spec fn kept(r: Option<BeliefRecord>, threshold: u32) -> Option<BeliefRecord> {
    match r {
        Some(b) => if float_lt(b.confidence.0, threshold) {
            None
        } else {
            Some(b)
        },
        None => None,
    }
}

/// The slots `s` with every belief of confidence below `threshold` dropped.
pub open spec fn without_stale(s: Seq<Option<BeliefRecord>>, threshold: u32) -> Seq<
    Option<BeliefRecord>,
> {
    s.map_values(|r: Option<BeliefRecord>| kept(r, threshold))
}

/// The beliefs held in `s`, in slot order.
pub open spec fn present(s: Seq<Option<BeliefRecord>>) -> Seq<BeliefRecord>
    decreases s.len(),
{
    if s.len() == 0 {
        Seq::empty()
    } else {
        match s.last() {
            Some(r) => present(s.drop_last()).push(r),
            None => present(s.drop_last()),
        }
    }
}

/// A fixed number of belief slots, each empty or holding one belief.
#[derive(Debug)]
pub struct BeliefStore {
    records: Vec<Option<BeliefRecord>>,
}

impl View for BeliefStore {
    type V = Seq<Option<BeliefRecord>>;

    closed spec fn view(&self) -> Seq<Option<BeliefRecord>> {
        self.records@
    }
}

impl BeliefStore {
    /// The store has its fixed number of slots.
    pub open spec fn wf(&self) -> bool {
        self@.len() == MAX_BELIEFS_PER_ENTITY
    }

    /// The number of slots, which is always `MAX_BELIEFS_PER_ENTITY`.
    pub fn capacity(&self) -> (r: usize)
        requires
            self.wf(),
        ensures
            r == self@.len(),
            r == MAX_BELIEFS_PER_ENTITY,
    {
        self.records.len()
    }

    /// A store with every slot empty.
    pub fn new() -> (r: BeliefStore)
        ensures
            r@.len() == MAX_BELIEFS_PER_ENTITY,
            forall|i: int| 0 <= i < r@.len() ==> r@[i] is None,
    {
        let mut records: Vec<Option<BeliefRecord>> = Vec::new();
        let mut i: usize = 0;
        while i < MAX_BELIEFS_PER_ENTITY
            invariant
                i <= MAX_BELIEFS_PER_ENTITY,
                records.len() == i,
                forall|j: int| 0 <= j < i ==> records@[j] is None,
            decreases MAX_BELIEFS_PER_ENTITY - i,
        {
            records.push(None);
            i = i + 1;
        }
        BeliefStore { records }
    }
}

impl BeliefStore {
    /// Offers `new_record` to the store.
    ///
    /// The first slot that is empty or holds a belief on the same subject
    /// and of the same variant decides: an empty slot takes the record; a
    /// matching belief is overwritten when the record was observed no
    /// earlier, and kept otherwise. When every slot holds a belief on
    /// another topic, the record replaces the first belief of least
    /// confidence if its own confidence is greater.
    pub fn insert_or_update(&mut self, new_record: BeliefRecord)
        requires
            old(self).wf(),
        ensures
            final(self)@ == after_insert(old(self)@, new_record),
    {
        let ghost s = self@;
        let ghost n = new_record;
        let mut lowest_confidence_idx: usize = 0;
        let mut lowest_confidence = Scalar::max_value();
        let mut i: usize = 0;
        while i < MAX_BELIEFS_PER_ENTITY
            invariant
                i <= MAX_BELIEFS_PER_ENTITY,
                s.len() == MAX_BELIEFS_PER_ENTITY,
                s == old(self)@,
                self@ == s,
                n == new_record,
                forall|j: int| 0 <= j < i ==> !claims(#[trigger] s[j], n),
                (weakest_among(s, i as int, lowest_confidence_idx as int)
                    && lowest_confidence.0 == conf(s, lowest_confidence_idx as int)) || (
                lowest_confidence_idx == 0 && lowest_confidence.0 == MAX_BITS && forall|j: int|
                    0 <= j < i ==> !float_lt(#[trigger] conf(s, j), MAX_BITS)),
            decreases MAX_BELIEFS_PER_ENTITY - i,
        {
            match self.records[i] {
                Some(existing) => {
                    if existing.subject_id == new_record.subject_id && existing.kind.same_variant(
                        &new_record.kind,
                    ) {
                        proof {
                            assert(first_claim(s, n, i as int));
                            assert forall|k: int| first_claim(s, n, k) implies k == i by {
                                if k < i {
                                    assert(!claims(s[k], n));
                                } else if k > i {
                                    assert(!claims(s[i as int], n));
                                }
                            }
                        }
                        if new_record.observed_at.0 >= existing.observed_at.0 {
                            self.records.set(i, Some(new_record));
                        }
                        return;
                    }
                    if existing.confidence.lt(lowest_confidence) {
                        lowest_confidence = existing.confidence;
                        lowest_confidence_idx = i;
                    }
                },
                None => {
                    proof {
                        assert(first_claim(s, n, i as int));
                        assert forall|k: int| first_claim(s, n, k) implies k == i by {
                            if k < i {
                                assert(!claims(s[k], n));
                            } else if k > i {
                                assert(!claims(s[i as int], n));
                            }
                        }
                    }
                    self.records.set(i, Some(new_record));
                    return;
                },
            }
            i = i + 1;
        }
        proof {
            assert forall|k: int| !first_claim(s, n, k) by {
                if 0 <= k < s.len() && claims(s[k], n) {
                    assert(!claims(s[k], n));
                }
            }
            if weakest_among(s, MAX_BELIEFS_PER_ENTITY as int, lowest_confidence_idx as int) {
                assert(weakest_slot(s, lowest_confidence_idx as int));
                assert forall|k: int| weakest_slot(s, k) implies k == lowest_confidence_idx by {
                    let l = lowest_confidence_idx as int;
                    if k < l {
                        assert(!float_le(conf(s, k), conf(s, l)));
                        assert(!float_lt(conf(s, l), conf(s, k)));
                    } else if k > l {
                        assert(!float_le(conf(s, l), conf(s, k)));
                        assert(!float_lt(conf(s, k), conf(s, l)));
                    }
                }
            } else {
                assert forall|k: int| !weakest_slot(s, k) by {
                    if 0 <= k < s.len() && float_lt(conf(s, k), MAX_BITS) {
                        assert(!float_lt(conf(s, k), MAX_BITS));
                    }
                }
            }
        }
        if new_record.confidence.gt(lowest_confidence) {
            self.records.set(lowest_confidence_idx, Some(new_record));
        }
    }

    /// Empties every slot whose belief has a confidence below `threshold`.
    pub fn remove_stale(&mut self, threshold: Scalar)
        requires
            old(self).wf(),
        ensures
            final(self)@ == without_stale(old(self)@, threshold.0),
    {
        let ghost s = self@;
        let mut i: usize = 0;
        while i < MAX_BELIEFS_PER_ENTITY
            invariant
                i <= MAX_BELIEFS_PER_ENTITY,
                s.len() == MAX_BELIEFS_PER_ENTITY,
                self@.len() == MAX_BELIEFS_PER_ENTITY,
                forall|j: int| 0 <= j < i ==> #[trigger] self@[j] == kept(s[j], threshold.0),
                forall|j: int| i <= j < s.len() ==> #[trigger] self@[j] == s[j],
            decreases MAX_BELIEFS_PER_ENTITY - i,
        {
            if let Some(record) = self.records[i] {
                if record.confidence.lt(threshold) {
                    self.records.set(i, None);
                }
            }
            i = i + 1;
        }
        proof {
            assert(self@ =~= without_stale(s, threshold.0));
        }
    }

    /// The beliefs held, in slot order.
    pub fn iter(&self) -> (r: Vec<BeliefRecord>)
        ensures
            r@ == present(self@),
    {
        let mut out: Vec<BeliefRecord> = Vec::new();
        let mut i: usize = 0;
        while i < self.records.len()
            invariant
                i <= self.records.len(),
                out@ == present(self@.subrange(0, i as int)),
            decreases self.records.len() - i,
        {
            proof {
                assert(self@.subrange(0, i as int + 1).drop_last() == self@.subrange(0, i as int));
            }
            if let Some(record) = self.records[i] {
                out.push(record);
            }
            i = i + 1;
        }
        proof {
            assert(self@.subrange(0, i as int) == self@);
        }
        out
    }

    /// The content of slot `i`.
    pub fn slot(&self, i: usize) -> (r: Option<BeliefRecord>)
        requires
            self.wf(),
            i < MAX_BELIEFS_PER_ENTITY,
        ensures
            r == self@[i as int],
    {
        self.records[i]
    }

    /// Overwrites the belief held in slot `i`, which must hold one.
    pub fn replace_at(&mut self, i: usize, record: BeliefRecord)
        requires
            old(self).wf(),
            i < MAX_BELIEFS_PER_ENTITY,
            old(self)@[i as int] is Some,
        ensures
            final(self)@ == old(self)@.update(i as int, Some(record)),
    {
        self.records.set(i, Some(record));
    }
}

impl Clone for BeliefStore {
    fn clone(&self) -> (r: BeliefStore)
        ensures
            r@ == self@,
    {
        let mut records: Vec<Option<BeliefRecord>> = Vec::new();
        let mut i: usize = 0;
        while i < self.records.len()
            invariant
                i <= self.records.len(),
                records@ == self.records@.subrange(0, i as int),
            decreases self.records.len() - i,
        {
            records.push(self.records[i]);
            i = i + 1;
        }
        assert(records@ == self.records@);
        BeliefStore { records }
    }
}

impl Default for BeliefStore {
    fn default() -> (r: BeliefStore)
        ensures
            r@.len() == MAX_BELIEFS_PER_ENTITY,
            forall|i: int| 0 <= i < r@.len() ==> r@[i] is None,
    {
        BeliefStore::new()
    }
}

/// A first claim is unique.
proof fn lemma_first_claim_unique(s: Seq<Option<BeliefRecord>>, n: BeliefRecord, i: int, k: int)
    requires
        first_claim(s, n, i),
        first_claim(s, n, k),
    ensures
        i == k,
{
    if k < i {
        assert(!claims(s[k], n));
    } else if k > i {
        assert(!claims(s[i], n));
    }
}

/// A weakest slot is unique.
proof fn lemma_weakest_unique(s: Seq<Option<BeliefRecord>>, i: int, k: int)
    requires
        weakest_slot(s, i),
        weakest_slot(s, k),
    ensures
        i == k,
{
    if k < i {
        assert(!float_le(conf(s, k), conf(s, i)));
        assert(!float_lt(conf(s, i), conf(s, k)));
    } else if k > i {
        assert(!float_le(conf(s, i), conf(s, k)));
        assert(!float_lt(conf(s, k), conf(s, i)));
    }
}

/// `a` and `s` have the same length and differ at most in slot `i`.
pub open spec fn differ_at_most_at(
    a: Seq<Option<BeliefRecord>>,
    s: Seq<Option<BeliefRecord>>,
    i: int,
) -> bool {
    &&& a.len() == s.len()
    &&& 0 <= i < s.len()
    &&& forall|j: int| 0 <= j < s.len() && j != i ==> #[trigger] a[j] == s[j]
}

/// Offering a belief keeps the number of slots and changes at most one
/// slot: no other belief is lost.
pub proof fn lemma_insert_changes_one_slot(s: Seq<Option<BeliefRecord>>, n: BeliefRecord)
    requires
        s.len() > 0,
    ensures
        after_insert(s, n).len() == s.len(),
        exists|i: int| #[trigger] differ_at_most_at(after_insert(s, n), s, i),
{
    let a = after_insert(s, n);
    if exists|i: int| first_claim(s, n, i) {
        let i = choose|i: int| first_claim(s, n, i);
        assert(differ_at_most_at(a, s, i));
    } else if exists|i: int| weakest_slot(s, i) {
        let i = choose|i: int| weakest_slot(s, i);
        assert(differ_at_most_at(a, s, i));
    } else {
        assert(differ_at_most_at(a, s, 0));
    }
}

/// A belief that finds an empty slot first, or a belief on its topic that
/// it observed no earlier than, is held in that slot afterwards.
pub proof fn lemma_insert_lands(s: Seq<Option<BeliefRecord>>, n: BeliefRecord, i: int)
    requires
        first_claim(s, n, i),
        s[i] is None || n.observed_at.0 >= s[i].unwrap().observed_at.0,
    ensures
        after_insert(s, n)[i] == Some(n),
{
    let k = choose|k: int| first_claim(s, n, k);
    lemma_first_claim_unique(s, n, i, k);
}

/// An observation older than the belief it matches changes nothing.
pub proof fn lemma_older_observation_ignored(s: Seq<Option<BeliefRecord>>, n: BeliefRecord, i: int)
    requires
        first_claim(s, n, i),
        s[i] is Some,
        n.observed_at.0 < s[i].unwrap().observed_at.0,
    ensures
        after_insert(s, n) == s,
{
    let k = choose|k: int| first_claim(s, n, k);
    lemma_first_claim_unique(s, n, i, k);
}

/// When every slot holds a belief on another topic, the offered belief
/// takes the place of the first belief of least confidence exactly when
/// its confidence is greater.
pub proof fn lemma_full_store_evicts_weakest(s: Seq<Option<BeliefRecord>>, n: BeliefRecord, i: int)
    requires
        forall|j: int| 0 <= j < s.len() ==> !claims(#[trigger] s[j], n),
        weakest_slot(s, i),
    ensures
        after_insert(s, n) == if float_lt(conf(s, i), n.confidence.0) {
            s.update(i, Some(n))
        } else {
            s
        },
{
    assert forall|k: int| !first_claim(s, n, k) by {
        if 0 <= k < s.len() {
            assert(!claims(s[k], n));
        }
    }
    let k = choose|k: int| weakest_slot(s, k);
    lemma_weakest_unique(s, i, k);
}

/// Dropping stale beliefs a second time drops nothing more, and every
/// belief that stays has a confidence no lower than the threshold.
pub proof fn lemma_without_stale_idempotent(s: Seq<Option<BeliefRecord>>, threshold: u32)
    ensures
        without_stale(without_stale(s, threshold), threshold) == without_stale(s, threshold),
        forall|i: int|
            0 <= i < s.len() && (#[trigger] without_stale(s, threshold)[i]) is Some ==> !float_lt(
                without_stale(s, threshold)[i].unwrap().confidence.0,
                threshold,
            ),
{
    assert(without_stale(without_stale(s, threshold), threshold) =~= without_stale(s, threshold));
}

/// A slot that an insert changes ends up holding the offered belief.
pub proof fn lemma_insert_changed_slot(s: Seq<Option<BeliefRecord>>, n: BeliefRecord, k: int)
    requires
        s.len() > 0,
        0 <= k < s.len(),
        after_insert(s, n)[k] != s[k],
    ensures
        after_insert(s, n)[k] == Some(n),
{
}

/// Into a store whose slots are all empty, an offered belief lands in the
/// first slot.
pub proof fn lemma_insert_into_empty(s: Seq<Option<BeliefRecord>>, n: BeliefRecord)
    requires
        s.len() > 0,
        forall|k: int| 0 <= k < s.len() ==> (#[trigger] s[k]) is None,
    ensures
        after_insert(s, n)[0] == Some(n),
        after_insert(s, n).len() == s.len(),
{
    assert(first_claim(s, n, 0));
    lemma_insert_lands(s, n, 0);
    lemma_insert_changes_one_slot(s, n);
}

} // verus!
