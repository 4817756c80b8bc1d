use vstd::prelude::*;
use super::event::CommEvent;
use vstd::multiset::Multiset;
use crate::core_types::id::EntityId;
use crate::core_types::time::Tick;

verus! {

broadcast use {
    vstd::seq_lib::to_multiset_build,
    vstd::seq_lib::to_multiset_remove,
    vstd::seq_lib::to_multiset_update,
    vstd::seq_lib::to_multiset_contains,
    vstd::multiset::group_multiset_axioms,
};

/// Whether `e` is due to `receiver` at `now`: addressed to it, and with a
/// delivery tick no later than `now`.
pub open spec fn is_due(e: CommEvent, receiver: EntityId, now: Tick) -> bool {
    e.receiver == receiver && e.delivery_tick.0 <= now.0
}

/// `out` and `rest` split the messages `s`: every message of `out` is due
/// to `receiver` at `now`, none of `rest` is, and together they hold each
/// message of `s` as often as `s` does.
pub open spec fn split_due(
    s: Seq<CommEvent>,
    out: Seq<CommEvent>,
    rest: Seq<CommEvent>,
    receiver: EntityId,
    now: Tick,
) -> bool {
    &&& forall|k: int| 0 <= k < out.len() ==> is_due(#[trigger] out[k], receiver, now)
    &&& forall|k: int| 0 <= k < rest.len() ==> !is_due(#[trigger] rest[k], receiver, now)
    &&& out.to_multiset().add(rest.to_multiset()) == s.to_multiset()
}

/// The order in which `receive_for` hands messages out and leaves the rest:
/// from position `i` on, a message due is taken and the last message moves
/// into its place, to be looked at next; a message not due is passed over.
/// Gives the messages taken, in order, and the messages left.
pub open spec fn sweep(s: Seq<CommEvent>, i: int, receiver: EntityId, now: Tick) -> (
    Seq<CommEvent>,
    Seq<CommEvent>,
)
    decreases s.len() - i,
{
    if i < 0 || i >= s.len() {
        (Seq::empty(), s)
    } else if is_due(s[i], receiver, now) {
        let rest = sweep(s.update(i, s.last()).drop_last(), i, receiver, now);
        (seq![s[i]] + rest.0, rest.1)
    } else {
        sweep(s, i + 1, receiver, now)
    }
}

/// The messages in flight.
pub struct CommChannel {
    events: Vec<CommEvent>,
}

impl View for CommChannel {
    type V = Seq<CommEvent>;

    closed spec fn view(&self) -> Seq<CommEvent> {
        self.events@
    }
}

impl CommChannel {
    /// A channel with no message in flight.
    pub fn new() -> (r: CommChannel)
        ensures
            r@ == Seq::<CommEvent>::empty(),
    {
        CommChannel { events: Vec::with_capacity(1024) }
    }

    /// Puts `event` in flight.
    pub fn send(&mut self, event: CommEvent)
        ensures
            final(self)@ == old(self)@.push(event),
    {
        self.events.push(event);
    }

    /// Takes out of the channel every message due to `receiver` at
    /// `current_tick`, and returns them; every other message stays.
    pub fn receive_for(&mut self, receiver: EntityId, current_tick: Tick) -> (r: Vec<CommEvent>)
        ensures
            (r@, final(self)@) == sweep(old(self)@, 0, receiver, current_tick),
            split_due(old(self)@, r@, final(self)@, receiver, current_tick),
    {
        let mut delivered: Vec<CommEvent> = Vec::new();
        let mut i: usize = 0;
        proof {
            assert(delivered@ + sweep(self.events@, 0, receiver, current_tick).0 == sweep(
                self.events@,
                0,
                receiver,
                current_tick,
            ).0);
            assert(delivered@.to_multiset() =~= Multiset::empty());
            assert(delivered@.to_multiset().add(self.events@.to_multiset()) =~= old(
                self,
            )@.to_multiset());
        }
        while i < self.events.len()
            invariant
                i <= self.events@.len(),
                forall|k: int|
                    0 <= k < delivered@.len() ==> is_due(
                        #[trigger] delivered@[k],
                        receiver,
                        current_tick,
                    ),
                forall|k: int|
                    0 <= k < i ==> !is_due(#[trigger] self.events@[k], receiver, current_tick),
                delivered@.to_multiset().add(self.events@.to_multiset()) == old(
                    self,
                )@.to_multiset(),
                sweep(old(self)@, 0, receiver, current_tick) == (delivered@ + sweep(
                    self.events@,
                    i as int,
                    receiver,
                    current_tick,
                ).0, sweep(self.events@, i as int, receiver, current_tick).1),
            decreases self.events@.len() - i,
        {
            if self.events[i].receiver == receiver && self.events[i].delivery_tick.0
                <= current_tick.0 {
                let ghost before = self.events@;
                let ghost d = delivered@;
                let e = self.events.swap_remove(i);
                proof {
                    let u = before.update(i as int, before.last());
                    assert(self.events@ == u.remove(u.len() - 1));
                    assert(u[u.len() - 1] == before.last());
                    assert(self.events@.to_multiset() == before.to_multiset().remove(e));
                }
                delivered.push(e);
                proof {
                    let rest = sweep(self.events@, i as int, receiver, current_tick);
                    assert(sweep(before, i as int, receiver, current_tick) == (seq![e] + rest.0, rest.1));
                    assert(d + (seq![e] + rest.0) == delivered@ + rest.0);
                    assert(before.contains(before[i as int]));
                    assert(before.to_multiset().count(e) > 0);
                    assert(delivered@.to_multiset() == d.to_multiset().insert(e));
                    assert(delivered@.to_multiset().add(self.events@.to_multiset()) =~= d.to_multiset().add(
                        before.to_multiset(),
                    ));
                }
            } else {
                i = i + 1;
            }
        }
        delivered
    }
}

/// A message sent is handed to its receiver by the first `receive_for`
/// at or after its delivery tick, and stays in the channel before that.
pub proof fn lemma_sent_message_arrives(
    s: Seq<CommEvent>,
    e: CommEvent,
    out: Seq<CommEvent>,
    rest: Seq<CommEvent>,
    receiver: EntityId,
    now: Tick,
)
    requires
        split_due(s.push(e), out, rest, receiver, now),
    ensures
        is_due(e, receiver, now) ==> out.contains(e),
        !is_due(e, receiver, now) ==> rest.contains(e),
{
    assert(s.push(e).to_multiset().count(e) > 0) by {
        assert(s.push(e)[s.len() as int] == e);
    }
    if is_due(e, receiver, now) {
        if rest.to_multiset().count(e) > 0 {
            let k = choose|k: int| 0 <= k < rest.len() && rest[k] == e;
            assert(!is_due(rest[k], receiver, now));
        }
        assert(out.to_multiset().count(e) > 0);
    } else {
        if out.to_multiset().count(e) > 0 {
            let k = choose|k: int| 0 <= k < out.len() && out[k] == e;
            assert(is_due(out[k], receiver, now));
        }
        assert(rest.to_multiset().count(e) > 0);
    }
}

} // verus!
