use contract_watch::channel::{EventChannel, Received, SendOutcome};
use contract_watch::event::ContractCreationEvent;
use contract_watch::fanout::FanOut;
use contract_watch::model::{Address, TxHash};
use contract_watch::output::OutputStage;
use std::collections::VecDeque;
use tokio::sync::mpsc;
use tokio::sync::mpsc::error::{TryRecvError, TrySendError};

fn event(n: u8) -> ContractCreationEvent {
    ContractCreationEvent::new(Address { bytes: [n; 20] }, 100, 100 + n as u64)
}

fn tx(n: u8) -> TxHash {
    TxHash { bytes: [n; 32] }
}

#[test]
fn channel_needs_a_capacity() {
    assert!(EventChannel::new(0).is_none());
    let channel = EventChannel::new(3).unwrap();
    assert_eq!(channel.capacity(), 3);
    assert_eq!(channel.len(), 0);
    assert!(channel.is_empty());
    assert!(!channel.is_closed());
    assert_eq!(channel.held_senders(), 0);
}

#[test]
fn channel_is_first_in_first_out() {
    let mut channel = EventChannel::new(3).unwrap();
    for n in 1..=3 {
        assert_eq!(channel.send(event(n)), SendOutcome::Queued);
    }
    assert_eq!(channel.len(), 3);
    for n in 1..=3 {
        assert_eq!(channel.recv(), Received::Event { event: event(n), released: false });
    }
    assert_eq!(channel.recv(), Received::Empty);
}

#[test]
fn full_channel_holds_senders_back_in_order() {
    let mut channel = EventChannel::new(2).unwrap();
    assert_eq!(channel.send(event(1)), SendOutcome::Queued);
    assert_eq!(channel.send(event(2)), SendOutcome::Queued);
    assert_eq!(channel.send(event(3)), SendOutcome::Held);
    assert_eq!(channel.send(event(4)), SendOutcome::Held);
    assert_eq!(channel.len(), 2);
    assert_eq!(channel.held_senders(), 2);
    assert_eq!(channel.recv(), Received::Event { event: event(1), released: true });
    assert_eq!(channel.len(), 2);
    assert_eq!(channel.held_senders(), 1);
    assert_eq!(channel.send(event(5)), SendOutcome::Held);
    assert_eq!(channel.recv(), Received::Event { event: event(2), released: true });
    assert_eq!(channel.recv(), Received::Event { event: event(3), released: true });
    assert_eq!(channel.held_senders(), 0);
    assert_eq!(channel.recv(), Received::Event { event: event(4), released: false });
    assert_eq!(channel.recv(), Received::Event { event: event(5), released: false });
    assert_eq!(channel.recv(), Received::Empty);
}

#[test]
fn closed_channel_refuses_sends_and_still_delivers() {
    let mut channel = EventChannel::new(1).unwrap();
    assert_eq!(channel.send(event(1)), SendOutcome::Queued);
    assert_eq!(channel.send(event(2)), SendOutcome::Held);
    channel.close();
    assert!(channel.is_closed());
    assert_eq!(channel.send(event(3)), SendOutcome::Closed);
    assert_eq!(channel.len(), 1);
    assert_eq!(channel.held_senders(), 1);
    assert_eq!(channel.recv(), Received::Event { event: event(1), released: true });
    assert_eq!(channel.recv(), Received::Event { event: event(2), released: false });
    assert_eq!(channel.recv(), Received::Closed);
    assert_eq!(channel.recv(), Received::Closed);
}

#[test]
fn output_needs_a_limit() {
    assert!(OutputStage::new(0).is_none());
    let stage = OutputStage::new(32).unwrap();
    assert_eq!(stage.limit(), 32);
    assert_eq!(stage.batched(), 0);
}

#[test]
fn output_writes_at_once_when_the_queue_is_empty() {
    let mut stage = OutputStage::new(32).unwrap();
    assert_eq!(stage.accept(event(1), true), Some(event(1).to_record()));
    assert_eq!(stage.batched(), 0);
    assert_eq!(stage.finish(), None);
}

#[test]
fn output_gathers_what_is_queued() {
    let mut stage = OutputStage::new(32).unwrap();
    assert_eq!(stage.accept(event(1), false), None);
    assert_eq!(stage.accept(event(2), false), None);
    assert_eq!(stage.batched(), 2);
    let text = stage.accept(event(3), true).unwrap();
    assert_eq!(
        text,
        format!("{}\n{}\n{}", event(1).to_record(), event(2).to_record(), event(3).to_record())
    );
    assert_eq!(stage.batched(), 0);
}

#[test]
fn output_writes_a_full_batch() {
    let mut stage = OutputStage::new(3).unwrap();
    assert_eq!(stage.accept(event(1), false), None);
    assert_eq!(stage.accept(event(2), false), None);
    let text = stage.accept(event(3), false).unwrap();
    assert_eq!(text.split('\n').count(), 3);
    assert_eq!(stage.accept(event(4), false), None);
    assert_eq!(stage.finish(), Some(event(4).to_record()));
    assert_eq!(stage.finish(), None);
}

#[test]
fn output_with_a_limit_of_one_writes_every_event_alone() {
    let mut stage = OutputStage::new(1).unwrap();
    assert_eq!(stage.accept(event(1), false), Some(event(1).to_record()));
    assert_eq!(stage.accept(event(2), false), Some(event(2).to_record()));
}

#[test]
fn fanout_needs_a_cap() {
    assert!(FanOut::new(vec![tx(1)], 0).is_none());
    let fanout = FanOut::new(vec![tx(1), tx(2)], 7).unwrap();
    assert_eq!(fanout.cap(), 7);
    assert_eq!(fanout.total(), 2);
    assert_eq!(fanout.started(), 0);
    assert_eq!(fanout.in_flight(), 0);
    assert_eq!(fanout.held(), 0);
    assert!(!fanout.is_finished());
    assert!(FanOut::new(Vec::new(), 1).unwrap().is_finished());
}

#[test]
fn fanout_requests_in_order_up_to_the_cap() {
    let mut fanout = FanOut::new(vec![tx(1), tx(2), tx(3)], 2).unwrap();
    assert_eq!(fanout.start_next(), Some((0, tx(1))));
    assert_eq!(fanout.start_next(), Some((1, tx(2))));
    assert_eq!(fanout.start_next(), None);
    assert_eq!(fanout.in_flight(), 2);
    assert!(fanout.awaits_result(0));
    assert!(fanout.awaits_result(1));
    assert!(!fanout.awaits_result(2));
    assert!(!fanout.awaits_result(3));
    assert!(fanout.complete(0, false));
    assert!(!fanout.awaits_result(0));
    assert!(!fanout.complete(0, false));
    assert!(!fanout.complete(2, false));
    assert!(!fanout.complete(9, false));
    assert_eq!(fanout.in_flight(), 1);
    assert_eq!(fanout.start_next(), Some((2, tx(3))));
    assert_eq!(fanout.start_next(), None);
    assert_eq!(fanout.started(), 3);
    assert!(fanout.complete(2, false));
    assert!(fanout.complete(1, false));
    assert_eq!(fanout.start_next(), None);
    assert!(fanout.is_finished());
}

#[test]
fn fanout_worker_that_holds_an_event_stays_busy() {
    let mut fanout = FanOut::new(vec![tx(1), tx(2), tx(3)], 1).unwrap();
    assert_eq!(fanout.start_next(), Some((0, tx(1))));
    assert!(fanout.complete(0, true));
    assert_eq!(fanout.in_flight(), 0);
    assert_eq!(fanout.held(), 1);
    assert_eq!(fanout.start_next(), None);
    assert!(!fanout.is_finished());
    assert!(fanout.release());
    assert!(!fanout.release());
    assert_eq!(fanout.held(), 0);
    assert_eq!(fanout.start_next(), Some((1, tx(2))));
}

#[test]
fn channel_delivers_as_a_bounded_tokio_channel_does() {
    // One script of sends (true) and receives (false) for both channels. A
    // sender that the tokio channel turns away waits in line and sends again
    // as soon as a receive has made room.
    let script = [
        true, true, true, false, true, true, false, false, false, false, false, true, false,
        true, true, true, true, true, false, true, false, false, false, false, false, false,
    ];
    for capacity in 1..5usize {
        let mut ours = EventChannel::new(capacity).unwrap();
        let (sender, mut receiver) = mpsc::channel::<ContractCreationEvent>(capacity);
        let mut waiting: VecDeque<ContractCreationEvent> = VecDeque::new();
        let mut next = 0u8;
        for send in script {
            if send {
                next += 1;
                let outcome = ours.send(event(next));
                let theirs = if waiting.is_empty() {
                    sender.try_send(event(next))
                } else {
                    Err(TrySendError::Full(event(next)))
                };
                match theirs {
                    Ok(()) => assert_eq!(outcome, SendOutcome::Queued),
                    Err(TrySendError::Full(turned_away)) => {
                        assert_eq!(outcome, SendOutcome::Held);
                        waiting.push_back(turned_away);
                    }
                    Err(TrySendError::Closed(_)) => panic!("the channel is open"),
                }
            } else {
                match receiver.try_recv() {
                    Ok(theirs) => {
                        let released = match waiting.pop_front() {
                            Some(first) => {
                                assert!(sender.try_send(first).is_ok());
                                true
                            }
                            None => false,
                        };
                        assert_eq!(ours.recv(), Received::Event { event: theirs, released });
                    }
                    Err(TryRecvError::Empty) => assert_eq!(ours.recv(), Received::Empty),
                    Err(TryRecvError::Disconnected) => panic!("the sender is alive"),
                }
            }
            assert_eq!(ours.held_senders(), waiting.len());
            assert_eq!(ours.len(), capacity - sender.capacity());
        }
        assert!(ours.is_empty());
    }
}
