use vstd::prelude::*;
use crate::belief::record::BeliefRecord;
use crate::core_types::action::Intent;
use crate::core_types::id::EntityId;
use crate::core_types::time::Tick;

verus! {

/// What a message carries.
#[derive(Clone, Debug)]
pub enum Payload {
    /// Beliefs reported up the hierarchy.
    StatusReport(Vec<BeliefRecord>),
    /// A goal handed down the hierarchy.
    IntentDirective(Intent),
}

/// A message in flight from one entity to another.
#[derive(Clone, Debug)]
pub struct CommEvent {
    pub sender: EntityId,
    pub receiver: EntityId,
    pub payload: Payload,
    pub send_tick: Tick,
    pub delivery_tick: Tick,
}

/// The content of a payload, the reported beliefs as a sequence.
pub enum PayloadView {
    StatusReport(Seq<BeliefRecord>),
    IntentDirective(Intent),
}

/// The content of a message.
pub struct CommEventView {
    pub sender: EntityId,
    pub receiver: EntityId,
    pub payload: PayloadView,
    pub send_tick: Tick,
    pub delivery_tick: Tick,
}

impl View for Payload {
    type V = PayloadView;

    open spec fn view(&self) -> PayloadView {
        match self {
            Payload::StatusReport(v) => PayloadView::StatusReport(v@),
            Payload::IntentDirective(i) => PayloadView::IntentDirective(*i),
        }
    }
}

impl View for CommEvent {
    type V = CommEventView;

    open spec fn view(&self) -> CommEventView {
        CommEventView {
            sender: self.sender,
            receiver: self.receiver,
            payload: self.payload@,
            send_tick: self.send_tick,
            delivery_tick: self.delivery_tick,
        }
    }
}

} // verus!
