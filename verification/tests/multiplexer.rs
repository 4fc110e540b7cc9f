use game_transport::message::{
    InternalMessage, Message, ReliableMessage, SignedMessage, Target,
};
use game_transport::multiplexer::ConnectionMultiplexer;

#[test]
fn register_mints_increasing_ids_from_one() {
    let (packet_sender, _packet_receiver) = async_channel::unbounded();
    let mut multiplexer = ConnectionMultiplexer::new(packet_sender);
    assert!(multiplexer.can_register());
    let (first, first_processor) = multiplexer.register();
    let (second, second_processor) = multiplexer.register();
    assert_eq!(first, 1);
    assert_eq!(second, 2);
    assert_ne!(first, second);
    assert_eq!(first_processor.id(), 1);
    assert_eq!(second_processor.id(), 2);
    assert!(multiplexer.contains(1));
    assert!(multiplexer.contains(2));
    assert!(!multiplexer.contains(3));
}

#[test]
fn send_to_unknown_client_fails_and_broadcast_to_nobody_succeeds() {
    let (packet_sender, _packet_receiver) = async_channel::unbounded();
    let multiplexer = ConnectionMultiplexer::new(packet_sender);
    assert_eq!(multiplexer.send_message(Target::Client(1), Message::Sync), Err(()));
    assert_eq!(
        multiplexer.send_reliable_message(Target::Client(1), ReliableMessage::Connect),
        Err(())
    );
    assert_eq!(multiplexer.send_raw(Target::Client(1), vec![1]), Err(()));
    assert_eq!(multiplexer.send_message(Target::All, Message::Sync), Ok(()));
    assert_eq!(multiplexer.send_reliable_message(Target::All, ReliableMessage::Connect), Ok(()));
    assert_eq!(multiplexer.send_raw(Target::All, vec![1]), Ok(()));
    assert_eq!(multiplexer.recipients(Target::All), Ok(vec![]));
    assert_eq!(multiplexer.recipients(Target::Client(1)), Err(()));
}

#[test]
fn a_message_for_one_peer_reaches_that_peer_only() {
    let (packet_sender, _packet_receiver) = async_channel::unbounded();
    let mut multiplexer = ConnectionMultiplexer::new(packet_sender);
    let (first, first_processor) = multiplexer.register();
    let (second, second_processor) = multiplexer.register();
    let first = (first, first_processor.endpoints());
    let second = (second, second_processor.endpoints());

    assert_eq!(multiplexer.recipients(Target::Client(second.0)), Ok(vec![2]));
    assert_eq!(multiplexer.send_message(Target::Client(second.0), Message::Sync), Ok(()));
    assert_eq!(first.1.outgoing_messages.try_recv().ok(), None);
    assert_eq!(second.1.outgoing_messages.try_recv().ok(), Some(Message::Sync));

    assert_eq!(
        multiplexer
            .send_reliable_message(Target::Client(first.0), ReliableMessage::Text("a".to_string())),
        Ok(())
    );
    assert_eq!(
        first.1.outgoing_reliable_messages.try_recv().ok(),
        Some(ReliableMessage::Text("a".to_string()))
    );
    assert_eq!(second.1.outgoing_reliable_messages.try_recv().ok(), None);

    assert_eq!(multiplexer.send_raw(Target::Client(first.0), vec![1, 2, 3]), Ok(()));
    assert_eq!(first.1.incoming_bytes.try_recv().ok(), Some(vec![1, 2, 3]));
    assert_eq!(second.1.incoming_bytes.try_recv().ok(), None);
}

#[test]
fn a_broadcast_reaches_every_peer_once() {
    let (packet_sender, _packet_receiver) = async_channel::unbounded();
    let mut multiplexer = ConnectionMultiplexer::new(packet_sender);
    let (_, first) = multiplexer.register();
    let (_, second) = multiplexer.register();
    let (_, third) = multiplexer.register();
    let mut all = multiplexer.recipients(Target::All).unwrap();
    all.sort();
    assert_eq!(all, vec![1, 2, 3]);

    assert_eq!(multiplexer.send_message(Target::All, Message::Sync), Ok(()));
    assert_eq!(multiplexer.send_raw(Target::All, vec![8]), Ok(()));
    assert_eq!(
        multiplexer.send_reliable_message(Target::All, ReliableMessage::Text("x".to_string())),
        Ok(())
    );
    for processor in [&first, &second, &third] {
        let endpoints = processor.endpoints();
        assert_eq!(endpoints.outgoing_messages.try_recv().ok(), Some(Message::Sync));
        assert_eq!(endpoints.outgoing_messages.try_recv().ok(), None);
        assert_eq!(endpoints.incoming_bytes.try_recv().ok(), Some(vec![8]));
        assert_eq!(endpoints.incoming_bytes.try_recv().ok(), None);
        assert_eq!(
            endpoints.outgoing_reliable_messages.try_recv().ok(),
            Some(ReliableMessage::Text("x".to_string()))
        );
        assert_eq!(endpoints.outgoing_reliable_messages.try_recv().ok(), None);
    }
}

#[test]
fn kill_shuts_the_processor_down_and_retires_the_id() {
    let (packet_sender, _packet_receiver) = async_channel::unbounded();
    let mut multiplexer = ConnectionMultiplexer::new(packet_sender);
    let (id, processor) = multiplexer.register();
    let endpoints = processor.endpoints();
    multiplexer.kill(id);
    assert_eq!(endpoints.control.try_recv().ok(), Some(InternalMessage::Shutdown));
    assert!(!multiplexer.contains(id));
    assert_eq!(multiplexer.send_message(Target::Client(id), Message::Sync), Err(()));
    let (next, _) = multiplexer.register();
    assert_eq!(next, 2);
    assert_eq!(multiplexer.send_message(Target::Client(id), Message::Sync), Err(()));
    assert_eq!(multiplexer.send_raw(Target::Client(id), vec![]), Err(()));
    assert_eq!(multiplexer.recipients(Target::All), Ok(vec![2]));
}

#[test]
fn killing_an_unknown_peer_changes_nothing() {
    let (packet_sender, _packet_receiver) = async_channel::unbounded();
    let mut multiplexer = ConnectionMultiplexer::new(packet_sender);
    let (id, processor) = multiplexer.register();
    multiplexer.kill(17);
    assert!(multiplexer.contains(id));
    assert_eq!(processor.endpoints().control.try_recv().ok(), None);
    assert_eq!(multiplexer.register().0, 2);
}

#[test]
fn the_channels_of_a_peer_are_those_of_its_processor() {
    let (packet_sender, _packet_receiver) = async_channel::unbounded();
    let mut multiplexer = ConnectionMultiplexer::new(packet_sender);
    let (id, processor) = multiplexer.register();
    let endpoints = processor.endpoints();
    multiplexer.get_message_channel(id).try_send(Message::Unknown).unwrap();
    multiplexer.get_reliable_message_channel(id).try_send(ReliableMessage::Connect).unwrap();
    multiplexer.get_raw_channel(id).try_send(vec![4]).unwrap();
    assert_eq!(endpoints.outgoing_messages.try_recv().ok(), Some(Message::Unknown));
    assert_eq!(
        endpoints.outgoing_reliable_messages.try_recv().ok(),
        Some(ReliableMessage::Connect)
    );
    assert_eq!(endpoints.incoming_bytes.try_recv().ok(), Some(vec![4]));
}

#[test]
fn a_send_hands_each_recipient_its_copy_of_the_message() {
    let (packet_sender, _packet_receiver) = async_channel::unbounded();
    let mut multiplexer = ConnectionMultiplexer::new(packet_sender);
    assert_eq!(multiplexer.deliveries(Target::All, Message::Sync), Ok(vec![]));
    assert_eq!(multiplexer.deliveries(Target::Client(1), Message::Sync), Err(()));
    multiplexer.register();
    multiplexer.register();
    multiplexer.register();
    assert_eq!(
        multiplexer.deliveries(Target::Client(2), ReliableMessage::Text("two".to_string())),
        Ok(vec![SignedMessage { id: 2, message: ReliableMessage::Text("two".to_string()) }])
    );
    let mut all = multiplexer.deliveries(Target::All, vec![7u8, 8]).unwrap();
    all.sort_by_key(|delivery| delivery.id);
    assert_eq!(
        all,
        vec![
            SignedMessage { id: 1, message: vec![7u8, 8] },
            SignedMessage { id: 2, message: vec![7u8, 8] },
            SignedMessage { id: 3, message: vec![7u8, 8] },
        ]
    );
    multiplexer.kill(2);
    assert_eq!(multiplexer.deliveries(Target::Client(2), Message::Sync), Err(()));
    assert_eq!(multiplexer.deliveries(Target::All, Message::Sync).unwrap().len(), 2);
}

#[test]
fn a_kill_asks_the_processor_of_the_peer_to_shut_down() {
    let (packet_sender, _packet_receiver) = async_channel::unbounded();
    let mut multiplexer = ConnectionMultiplexer::new(packet_sender);
    let (first, first_processor) = multiplexer.register();
    let (second, second_processor) = multiplexer.register();
    assert_eq!(ConnectionMultiplexer::kill_request(), InternalMessage::Shutdown);
    assert!(multiplexer.control_of(9).is_none());
    let control = multiplexer.control_of(first).unwrap();
    control.try_send(ConnectionMultiplexer::kill_request()).unwrap();
    assert_eq!(
        first_processor.endpoints().control.try_recv().ok(),
        Some(InternalMessage::Shutdown)
    );
    multiplexer.kill(second);
    assert!(multiplexer.control_of(second).is_none());
    assert_eq!(
        second_processor.endpoints().control.try_recv().ok(),
        Some(InternalMessage::Shutdown)
    );
    assert_eq!(first_processor.endpoints().control.try_recv().ok(), None);
}
