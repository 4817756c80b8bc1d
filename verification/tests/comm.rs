use enemy_ai_engine::comm::channel::CommChannel;
use enemy_ai_engine::comm::event::{CommEvent, Payload};
use enemy_ai_engine::core_types::action::{ActionKind, Intent};
use enemy_ai_engine::core_types::id::EntityId;
use enemy_ai_engine::core_types::math::Scalar;
use enemy_ai_engine::core_types::time::Tick;

fn msg(from: u32, to: u32, delivery: u64) -> CommEvent {
    CommEvent {
        sender: EntityId(from),
        receiver: EntityId(to),
        payload: Payload::IntentDirective(Intent {
            origin_rank: 1,
            goal: ActionKind::Custom(from as u16),
            confidence: Scalar(1.0f32.to_bits()),
        }),
        send_tick: Tick(0),
        delivery_tick: Tick(delivery),
    }
}

fn senders(v: &[CommEvent]) -> Vec<u32> {
    let mut s: Vec<u32> = v.iter().map(|e| e.sender.0).collect();
    s.sort();
    s
}

#[test]
fn receive_takes_exactly_the_due_messages() {
    let mut ch = CommChannel::new();
    ch.send(msg(1, 7, 2));
    ch.send(msg(2, 7, 5));
    ch.send(msg(3, 8, 1));
    ch.send(msg(4, 7, 1));
    ch.send(msg(5, 7, 2));
    let got = ch.receive_for(EntityId(7), Tick(2));
    assert_eq!(senders(&got), vec![1, 4, 5]);
    assert!(got.iter().all(|e| e.receiver == EntityId(7) && e.delivery_tick <= Tick(2)));
    // not yet due, or for another receiver: still there
    assert!(ch.receive_for(EntityId(7), Tick(4)).is_empty());
    assert_eq!(senders(&ch.receive_for(EntityId(7), Tick(5))), vec![2]);
    assert_eq!(senders(&ch.receive_for(EntityId(8), Tick(100))), vec![3]);
    assert!(ch.receive_for(EntityId(8), Tick(100)).is_empty());
}

#[test]
fn a_sent_message_arrives_at_its_delivery_tick() {
    let mut ch = CommChannel::new();
    ch.send(msg(9, 3, 10));
    assert!(ch.receive_for(EntityId(3), Tick(9)).is_empty());
    let got = ch.receive_for(EntityId(3), Tick(10));
    assert_eq!(got.len(), 1);
    assert_eq!(got[0].sender, EntityId(9));
}

#[test]
fn receive_order_follows_the_swap_removal() {
    let mut ch = CommChannel::new();
    ch.send(msg(1, 7, 0));
    ch.send(msg(2, 8, 0));
    ch.send(msg(3, 7, 0));
    ch.send(msg(4, 7, 0));
    ch.send(msg(5, 8, 0));
    let got: Vec<u32> = ch.receive_for(EntityId(7), Tick(0)).iter().map(|e| e.sender.0).collect();
    // 1 is taken and 5 moves into its place; 5 is passed over; 2 is passed
    // over; 3 is taken and 4 moves into its place, and is taken
    assert_eq!(got, vec![1, 3, 4]);
    let rest: Vec<u32> = ch.receive_for(EntityId(8), Tick(0)).iter().map(|e| e.sender.0).collect();
    assert_eq!(rest, vec![5, 2]);
}
