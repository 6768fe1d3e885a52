use quantum_bridge::gossip::{
    BusyStep, Delivery, GossipAction, GossipForwarder, IdleOutcome, NotificationEvent, ObservedRole, Polled, SinkPoll,
    SyncEvent, TopicNotification,
};
use quantum_bridge::quantum_channel::{
    entropy_from_state_bytes, MessageSendError, QuantumChannelStatus, QuantumProtocol, QuantumXcmpMessageHandler,
};
use quantum_bridge::quantum_xcmp::{Error, Event, InitialFeeFactor, QuantumMessaging};
use quantum_bridge::runtime::{DispatchError, Origin};
use quantum_bridge::weights::Weight;

fn state_bytes() -> Vec<u8> {
    (0..64u8).collect()
}

fn note(m: u8) -> TopicNotification {
    TopicNotification { message: vec![m], sender: None }
}

#[test]
fn initial_fee_factor_is_one() {
    assert_eq!(InitialFeeFactor(), 1_000_000_000_000_000_000);
    assert_eq!(QuantumMessaging::new(100, 5).delivery_fee_factor(), 1_000_000_000_000_000_000);
}

#[test]
fn channel_establishment_generates_keys() {
    let mut m = QuantumMessaging::new(100, 5);
    assert_eq!(m.establish_quantum_channel(Origin::Signed([1; 32]), 2000, 50, &state_bytes()), Err(DispatchError::BadOrigin));
    assert!(m.establish_quantum_channel(Origin::Root, 2000, 101, &state_bytes()).is_err());
    assert_eq!(m.establish_quantum_channel(Origin::Root, 2000, 50, &state_bytes()), Ok(()));
    let info = m.channel(2000).unwrap();
    assert_eq!(info.status, QuantumChannelStatus::Ready);
    assert_eq!(info.max_message_size, 50);
    assert!(info.available_keys >= 1);
    assert!(m.key_count(2000) >= 1);
}

#[test]
fn sent_message_is_accepted_by_a_receiver_with_the_same_keys() {
    let mut sender = QuantumMessaging::new(100, 5);
    let mut receiver = QuantumMessaging::new(100, 5);
    sender.establish_quantum_channel(Origin::Root, 2000, 100, &state_bytes()).unwrap();
    receiver.establish_quantum_channel(Origin::Root, 1000, 100, &state_bytes()).unwrap();
    assert_eq!(sender.send_quantum_message(Origin::Signed([1; 32]), 2000, b"hello".to_vec()), Ok(()));
    let queued = sender.outbound_messages(2000).to_vec();
    assert_eq!(queued.len(), 1);
    assert_eq!(queued[0].destination, 2000);
    assert_eq!(queued[0].encrypted_data.len(), 5);
    assert_eq!(receiver.handle_message(1000, queued[0].clone()), Ok(()));
    assert_eq!(receiver.handle_message(3000, queued[0].clone()), Err(MessageSendError::ChannelClosed));
}

#[test]
fn messages_need_a_ready_channel() {
    let mut m = QuantumMessaging::new(100, 5);
    assert!(m.send_quantum_message(Origin::Signed([1; 32]), 2000, vec![1]).is_err());
    m.establish_quantum_channel(Origin::Root, 2000, 4, &state_bytes()).unwrap();
    assert!(m.send_quantum_message(Origin::Signed([1; 32]), 2000, vec![1; 5]).is_err());
    assert_eq!(m.send_quantum_message(Origin::Root, 2000, vec![1]), Err(DispatchError::BadOrigin));
}

#[test]
fn outbound_queue_is_flushed() {
    let mut m = QuantumMessaging::new(100, 5);
    m.establish_quantum_channel(Origin::Root, 2000, 100, &state_bytes()).unwrap();
    m.send_quantum_message(Origin::Signed([1; 32]), 2000, vec![1, 2]).unwrap();
    let (weight, sent) = m.process_outbound_quantum_messages();
    assert_eq!(sent.len(), 1);
    assert_eq!(weight.ref_time, 15_000_000);
    assert!(m.outbound_messages(2000).is_empty());
}

#[test]
fn idle_hook_respects_the_weight() {
    let mut m = QuantumMessaging::new(100, 6);
    m.establish_quantum_channel(Origin::Root, 2000, 100, &state_bytes()).unwrap();
    let used = m.on_idle(Weight::from_parts(19_999_999, 0), &state_bytes());
    assert_eq!(used, Weight::zero());
    let used = m.on_idle(Weight::from_parts(100_000_000, 0), &state_bytes());
    assert!(used.ref_time <= 100_000_000);
}

#[test]
fn entropy_of_state_bytes() {
    assert_eq!(entropy_from_state_bytes(vec![1, 2, 3, 4, 5]), vec![183, 183, 151, 183, 126]);
    assert!(entropy_from_state_bytes(vec![]).is_empty());
    let _ = QuantumProtocol::BB84;
}

#[test]
fn subscribers_get_a_buffer_of_at_least_ten() {
    let mut g = GossipForwarder::new();
    assert_eq!(g.messages_for([1; 32], 3, 7), 10);
    assert_eq!(g.messages_for([1; 32], 25, 8), 25);
    assert!(!g.is_forwarding());
}

#[test]
fn idle_round_of_polling() {
    let mut g = GossipForwarder::new();
    assert!(matches!(g.on_idle_poll(Polled::Pending, Polled::Pending), IdleOutcome::Wait));
    let out = g.on_idle_poll(
        Polled::Ready(NotificationEvent::ValidateInboundSubstream { peer: vec![1], role: None }),
        Polled::Ready(SyncEvent::PeerConnected(vec![2])),
    );
    match out {
        IdleOutcome::Continue(actions) => {
            assert_eq!(actions.len(), 2);
            assert!(matches!(actions[0], GossipAction::AnswerValidation { accept: false }));
            assert!(matches!(&actions[1], GossipAction::AddReserved { peer } if peer == &vec![2u8]));
        },
        other => panic!("unexpected {:?}", other),
    }
    let out = g.on_idle_poll(
        Polled::Ready(NotificationEvent::NotificationStreamOpened { peer: vec![3], role: Some(ObservedRole::Full) }),
        Polled::Pending,
    );
    assert!(matches!(out, IdleOutcome::Continue(ref a) if matches!(a[0], GossipAction::NewPeer { role: ObservedRole::Full, .. })));
    assert!(!g.is_terminated());
    let out = g.on_idle_poll(Polled::Closed, Polled::Ready(SyncEvent::PeerDisconnected(vec![4])));
    assert!(matches!(out, IdleOutcome::Terminate(ref a) if a.is_empty()));
    assert!(g.is_terminated());
}

#[test]
fn received_notifications_are_forwarded_to_ready_subscribers() {
    let mut g = GossipForwarder::new();
    let topic = [9u8; 32];
    g.messages_for(topic, 0, 1);
    g.messages_for(topic, 0, 2);
    let out = g.on_idle_poll(
        Polled::Ready(NotificationEvent::NotificationReceived {
            peer: vec![5],
            to_forward: vec![(topic, note(1)), ([8u8; 32], note(2)), (topic, note(3))],
        }),
        Polled::Pending,
    );
    assert!(matches!(out, IdleOutcome::Continue(ref a) if a.is_empty()));
    assert!(g.is_forwarding());

    match g.step_busy() {
        BusyStep::CheckSinks { topic: t, sinks } => {
            assert_eq!(t, topic);
            assert_eq!(sinks, vec![1, 2]);
        },
        other => panic!("unexpected {:?}", other),
    }
    assert!(matches!(g.deliver_front(vec![SinkPoll::Ready, SinkPoll::Pending]), Delivery::Blocked));
    match g.deliver_front(vec![SinkPoll::Closed, SinkPoll::Ready]) {
        Delivery::Send { sinks, notification } => {
            assert_eq!(sinks, vec![2]);
            assert_eq!(notification, note(1));
        },
        other => panic!("unexpected {:?}", other),
    }
    assert!(matches!(g.step_busy(), BusyStep::Dropped));
    assert!(matches!(g.step_busy(), BusyStep::CheckSinks { .. }));
    assert!(matches!(g.deliver_front(vec![SinkPoll::Closed]), Delivery::Dropped));
    assert!(matches!(g.step_busy(), BusyStep::Idle));
    assert!(!g.is_forwarding());
    assert_eq!(g.messages_for(topic, 0, 3), 10);
}

#[test]
fn maintenance_drops_closed_subscribers_and_empty_topics() {
    let mut g = GossipForwarder::new();
    g.messages_for([1; 32], 0, 1);
    g.messages_for([1; 32], 0, 2);
    g.messages_for([2; 32], 0, 3);
    g.drop_closed_sinks(&vec![2, 3]);
    let out = g.on_idle_poll(
        Polled::Ready(NotificationEvent::NotificationReceived {
            peer: vec![],
            to_forward: vec![([1; 32], note(1)), ([2; 32], note(2))],
        }),
        Polled::Pending,
    );
    assert!(matches!(out, IdleOutcome::Continue(_)));
    assert!(matches!(g.step_busy(), BusyStep::CheckSinks { ref sinks, .. } if sinks == &vec![1]));
    assert!(matches!(g.deliver_front(vec![SinkPoll::Ready]), Delivery::Send { .. }));
    assert!(matches!(g.step_busy(), BusyStep::Dropped));
    assert!(matches!(g.step_busy(), BusyStep::Idle));
}

fn xcmp_err(e: Error) -> Result<(), DispatchError<Error>> {
    Err(DispatchError::Module(e))
}

#[test]
fn quantum_messaging_errors() {
    let alice = Origin::Signed([1; 32]);
    let mut m = QuantumMessaging::new(100, 1);
    assert_eq!(m.send_quantum_message(alice, 2000, vec![1]), xcmp_err(Error::QuantumChannelNotFound));
    assert_eq!(m.generate_quantum_key(Origin::Root, 2000, QuantumProtocol::BB84, &state_bytes()),
        xcmp_err(Error::QuantumChannelNotFound));
    assert_eq!(m.establish_quantum_channel(Origin::Root, 2000, 101, &state_bytes()), xcmp_err(Error::MessageTooLarge));
    assert_eq!(m.establish_quantum_channel(Origin::Root, 2000, 10, &[]), Ok(()));
    assert_eq!(m.channel(2000).unwrap().status, QuantumChannelStatus::EstablishingKeys);
    assert_eq!(m.send_quantum_message(alice, 2000, vec![1]), xcmp_err(Error::QuantumChannelNotReady));
    assert_eq!(m.generate_quantum_key(Origin::Root, 2000, QuantumProtocol::BB84, &[]),
        xcmp_err(Error::QuantumEntropyGenerationFailed));
    assert_eq!(m.generate_quantum_key(Origin::Root, 2000, QuantumProtocol::BB84, &state_bytes()), Ok(()));
    assert_eq!(m.channel(2000).unwrap().status, QuantumChannelStatus::Ready);
    assert_eq!(m.generate_quantum_key(Origin::Root, 2000, QuantumProtocol::BB84, &state_bytes()),
        xcmp_err(Error::MaxKeysPerChannelReached));
    assert_eq!(m.send_quantum_message(alice, 2000, vec![0; 11]), xcmp_err(Error::MessageTooLarge));
    assert_eq!(m.send_quantum_message(alice, 2000, vec![1]), Ok(()));
    assert_eq!(m.send_quantum_message(alice, 2000, vec![1]), xcmp_err(Error::NoQuantumKeysAvailable));
}

#[test]
fn handled_message_needs_a_matching_key() {
    let mut receiver = QuantumMessaging::new(100, 5);
    receiver.establish_quantum_channel(Origin::Root, 1000, 100, &state_bytes()).unwrap();
    let forged = quantum_bridge::quantum_channel::QuantumSecureXcmpMessage {
        destination: 2000,
        encrypted_data: vec![1, 2, 3],
        quantum_tag: [0; 32],
    };
    assert_eq!(receiver.handle_message(1000, forged), Err(MessageSendError::NotInChannelMask));
}

#[test]
fn available_keys_count_the_stored_keys() {
    let mut m = QuantumMessaging::new(100, 10);
    m.establish_quantum_channel(Origin::Root, 2000, 100, &[]).unwrap();
    assert_eq!(m.channel(2000).unwrap().available_keys, 0);
    assert_eq!(m.generate_quantum_key(Origin::Root, 2000, QuantumProtocol::BB84, &state_bytes()), Ok(()));
    assert_eq!(m.generate_quantum_key(Origin::Root, 2000, QuantumProtocol::BB84, &state_bytes()), Ok(()));
    assert_eq!(m.key_count(2000), 1);
    assert_eq!(m.channel(2000).unwrap().available_keys, 1);
    let other: Vec<u8> = (100..164u8).collect();
    assert_eq!(m.generate_quantum_key(Origin::Root, 2000, QuantumProtocol::BB84, &other), Ok(()));
    assert_eq!(m.key_count(2000), 2);
    assert_eq!(m.channel(2000).unwrap().available_keys, 2);
    m.establish_quantum_channel(Origin::Root, 2000, 100, &state_bytes()).unwrap();
    assert_eq!(m.key_count(2000), 2);
    assert_eq!(m.channel(2000).unwrap().available_keys, 2);
    assert_eq!(m.channel(2000).unwrap().status, QuantumChannelStatus::Ready);
}

#[test]
fn handled_message_uses_up_the_matching_key() {
    let mut sender = QuantumMessaging::new(100, 5);
    let mut receiver = QuantumMessaging::new(100, 5);
    sender.establish_quantum_channel(Origin::Root, 2000, 100, &state_bytes()).unwrap();
    receiver.establish_quantum_channel(Origin::Root, 1000, 100, &state_bytes()).unwrap();
    assert_eq!(receiver.channel(1000).unwrap().available_keys, 1);
    sender.send_quantum_message(Origin::Signed([1; 32]), 2000, b"hello".to_vec()).unwrap();
    let queued = sender.outbound_messages(2000).to_vec();
    assert_eq!(QuantumXcmpMessageHandler::handle_quantum_xcmp_message(&mut receiver, 1000, queued[0].clone()), Ok(()));
    assert_eq!(receiver.key_count(1000), 0);
    assert_eq!(receiver.channel(1000).unwrap().available_keys, 0);
    assert_eq!(
        receiver.event_log().last(),
        Some(&Event::QuantumMessageReceived { from_para_id: 1000, message_size: 5 })
    );
}

#[test]
fn ready_subscribers_get_every_notification_of_their_topic() {
    let mut g = GossipForwarder::new();
    let (a, b, c) = ([1u8; 32], [2u8; 32], [3u8; 32]);
    g.messages_for(a, 0, 1);
    g.messages_for(a, 0, 2);
    g.messages_for(a, 0, 3);
    g.messages_for(b, 0, 4);
    let buffer = vec![(a, note(1)), (b, note(2)), (c, note(3)), (a, note(4)), (b, note(5))];
    g.on_idle_poll(Polled::Ready(NotificationEvent::NotificationReceived { peer: vec![9], to_forward: buffer }), Polled::Pending);
    let mut copies = std::collections::HashMap::new();
    loop {
        match g.step_busy() {
            BusyStep::Idle => break,
            BusyStep::Dropped => {},
            BusyStep::CheckSinks { topic, sinks } => {
                let polls = vec![SinkPoll::Ready; sinks.len()];
                match g.deliver_front(polls) {
                    Delivery::Send { sinks: sent, .. } => {
                        assert_eq!(sent, sinks);
                        *copies.entry(topic).or_insert(0usize) += sent.len();
                    },
                    other => panic!("unexpected {:?}", other),
                }
            },
        }
    }
    assert_eq!(copies.get(&a), Some(&6));
    assert_eq!(copies.get(&b), Some(&2));
    assert_eq!(copies.get(&c), None);
}

#[test]
fn returns_when_network_event_stream_closes() {
    let mut g = GossipForwarder::new();
    assert!(!g.is_terminated());
    let out = g.on_idle_poll(Polled::Closed, Polled::Pending);
    assert!(matches!(out, IdleOutcome::Terminate(ref a) if a.is_empty()));
    assert!(g.is_terminated());
}

/// Forward every batch of notifications through subscribers whose channels hold `length + 1`
/// messages each (a full channel is drained by its reader before forwarding goes on) and count,
/// per topic, the messages that the readers got.
fn forward_through_channels(channels: &[(usize, u8)], batches: &[Vec<u8>]) -> std::collections::HashMap<u8, usize> {
    let mut g = GossipForwarder::new();
    for (sink, (_, topic)) in channels.iter().enumerate() {
        g.messages_for([*topic; 32], 0, sink as u64);
    }
    let mut queues: Vec<Vec<u8>> = vec![Vec::new(); channels.len()];
    let mut read = std::collections::HashMap::new();
    let mut drain = |queues: &mut Vec<Vec<u8>>, read: &mut std::collections::HashMap<u8, usize>| {
        for q in queues.iter_mut() {
            for topic in q.drain(..) {
                *read.entry(topic).or_insert(0usize) += 1;
            }
        }
    };
    for batch in batches {
        let to_forward = batch.iter().map(|t| ([*t; 32], note(*t))).collect();
        g.on_idle_poll(Polled::Ready(NotificationEvent::NotificationReceived { peer: vec![7], to_forward }), Polled::Pending);
        loop {
            match g.step_busy() {
                BusyStep::Idle => break,
                BusyStep::Dropped => {},
                BusyStep::CheckSinks { sinks, .. } => {
                    let polls = sinks.iter()
                        .map(|s| if queues[*s as usize].len() > channels[*s as usize].0 { SinkPoll::Pending } else { SinkPoll::Ready })
                        .collect();
                    match g.deliver_front(polls) {
                        Delivery::Blocked => drain(&mut queues, &mut read),
                        Delivery::Send { sinks, notification } => {
                            for s in sinks {
                                queues[s as usize].push(notification.message[0]);
                            }
                        },
                        Delivery::Dropped => panic!("no subscriber was closed"),
                    }
                },
            }
        }
    }
    drain(&mut queues, &mut read);
    read
}

#[test]
fn forwarding_to_different_size_and_topic_channels() {
    let mut seed: u64 = 0x2545_f491;
    let mut next = |n: u64| {
        seed = seed.wrapping_mul(6364136223846793005).wrapping_add(1442695040888963407);
        (seed >> 33) % n
    };
    for _ in 0..50 {
        let channels: Vec<(usize, u8)> = (0..next(8)).map(|_| (next(5) as usize, next(4) as u8)).collect();
        let batches: Vec<Vec<u8>> = (0..next(4)).map(|_| (0..next(12)).map(|_| next(4) as u8).collect()).collect();
        let read = forward_through_channels(&channels, &batches);
        for topic in 0..4u8 {
            let sent = batches.iter().flatten().filter(|t| **t == topic).count();
            let subscribed = channels.iter().filter(|(_, t)| *t == topic).count();
            assert_eq!(read.get(&topic).copied().unwrap_or(0), sent * subscribed);
        }
    }
}
