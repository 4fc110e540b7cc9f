use game_transport::message::{
    InternalMessage, Message, Object, ObjectInfo, ReliableMessage, Scalar, SignedMessage, Tree,
};
use game_transport::multiplexer::ConnectionMultiplexer;
use game_transport::processor::{
    flush_wait, Action, BidirectionalChannel, DirectionalChannel, Effect, Event, MessageProcessor,
    MessageProcessorFactory, WrappedMessage, FLUSH_INTERVAL_MICROS, FLUSH_INTERVAL_MILLIS,
};
use game_transport::settings::{message_channel_settings, reliable_message_channel_settings};

fn scalar(value: f32) -> Scalar {
    Scalar::from_bits(value.to_bits())
}

fn processor(id: usize) -> MessageProcessor {
    let (bytes, _) = async_channel::unbounded();
    let (messages, _) = async_channel::unbounded();
    let (reliable, _) = async_channel::unbounded();
    MessageProcessorFactory::new(bytes, messages, reliable).build(id)
}

#[test]
fn each_event_selects_its_action() {
    let position = Message::Position(scalar(10.0), scalar(20.0));
    assert_eq!(
        MessageProcessor::select_action(Event::IncomingMessage(Some(position.clone()))),
        Action::EmitMessage(WrappedMessage::Message(position.clone()))
    );
    assert_eq!(
        MessageProcessor::select_action(Event::IncomingReliableMessage(Some(
            ReliableMessage::Connect
        ))),
        Action::EmitMessage(WrappedMessage::ReliableMessage(ReliableMessage::Connect))
    );
    assert_eq!(
        MessageProcessor::select_action(Event::OutgoingMessage(Some(Message::Sync))),
        Action::DispatchMessage(WrappedMessage::Message(Message::Sync))
    );
    assert_eq!(
        MessageProcessor::select_action(Event::OutgoingReliableMessage(Some(
            ReliableMessage::Text("hi".to_string())
        ))),
        Action::DispatchMessage(WrappedMessage::ReliableMessage(ReliableMessage::Text(
            "hi".to_string()
        )))
    );
    assert_eq!(
        MessageProcessor::select_action(Event::IncomingBytes(Some(vec![1, 2, 3]))),
        Action::DispatchBytes(vec![1, 2, 3])
    );
    assert_eq!(
        MessageProcessor::select_action(Event::OutgoingBytes(Some(vec![4, 5]))),
        Action::EmitBytes(vec![4, 5])
    );
    assert_eq!(
        MessageProcessor::select_action(Event::Internal(Some(InternalMessage::Shutdown))),
        Action::Shutdown
    );
    assert_eq!(MessageProcessor::select_action(Event::Timer), Action::Flush);
}

#[test]
fn a_wait_that_ended_in_an_error_is_an_error_and_changes_nothing() {
    let events = vec![
        Event::IncomingMessage(None),
        Event::IncomingReliableMessage(None),
        Event::OutgoingMessage(None),
        Event::OutgoingReliableMessage(None),
        Event::IncomingBytes(None),
        Event::OutgoingBytes(None),
        Event::Internal(None),
    ];
    let processor = processor(3);
    for event in events {
        let action = MessageProcessor::select_action(event);
        assert_eq!(action, Action::Error);
        assert_eq!(processor.perform(action), Effect::Continue);
    }
}

#[test]
fn each_action_has_its_effect_signed_with_the_peer_id() {
    let processor = processor(7);
    assert_eq!(processor.id(), 7);
    assert_eq!(
        processor.perform(Action::EmitBytes(vec![9, 8, 7])),
        Effect::PublishBytes(SignedMessage { id: 7, message: vec![9, 8, 7] })
    );
    assert_eq!(
        processor.perform(Action::EmitMessage(WrappedMessage::Message(Message::Sync))),
        Effect::PublishMessage(SignedMessage { id: 7, message: Message::Sync })
    );
    assert_eq!(
        processor.perform(Action::EmitMessage(WrappedMessage::ReliableMessage(
            ReliableMessage::Connected("2".to_string())
        ))),
        Effect::PublishReliableMessage(SignedMessage {
            id: 7,
            message: ReliableMessage::Connected("2".to_string())
        })
    );
    assert_eq!(processor.perform(Action::DispatchBytes(vec![1; 32])), Effect::Frame(vec![1; 32]));
    assert_eq!(
        processor.perform(Action::DispatchMessage(WrappedMessage::Message(Message::Unknown))),
        Effect::Encode(WrappedMessage::Message(Message::Unknown))
    );
    assert_eq!(processor.perform(Action::Flush), Effect::Flush);
    assert_eq!(processor.perform(Action::Error), Effect::Continue);
    assert_eq!(processor.perform(Action::Shutdown), Effect::Stop);
}

#[test]
fn a_packet_must_fit_into_a_pool_buffer() {
    let processor = processor(1);
    assert_eq!(processor.pool().0, 32);
    assert!(processor.can_perform(&Action::DispatchBytes(vec![0; 32])));
    assert!(!processor.can_perform(&Action::DispatchBytes(vec![0; 33])));
    assert!(processor.can_perform(&Action::EmitBytes(vec![0; 1000])));
    assert_eq!(processor.step(Event::IncomingBytes(Some(vec![0; 33]))), None);
    assert_eq!(
        processor.step(Event::IncomingBytes(Some(vec![5; 32]))),
        Some(Effect::Frame(vec![5; 32]))
    );
    assert_eq!(processor.step(Event::IncomingBytes(Some(vec![]))), Some(Effect::Frame(vec![])));
}

#[test]
fn the_timer_flushes_every_five_milliseconds() {
    assert_eq!(FLUSH_INTERVAL_MILLIS, 5);
    assert_eq!(processor(1).step(Event::Timer), Some(Effect::Flush));
}

#[test]
fn only_a_shutdown_request_stops_the_processor() {
    let processor = processor(1);
    assert_eq!(
        processor.step(Event::Internal(Some(InternalMessage::Shutdown))),
        Some(Effect::Stop)
    );
    assert_eq!(processor.step(Event::Internal(None)), Some(Effect::Continue));
    assert_eq!(processor.step(Event::OutgoingBytes(None)), Some(Effect::Continue));
}

#[test]
fn a_position_from_the_first_peer_is_observed_with_its_id() {
    let processor = processor(1);
    let sent = Message::Position(scalar(10.0), scalar(20.0));
    assert_eq!(
        processor.step(Event::IncomingMessage(Some(sent))),
        Some(Effect::PublishMessage(SignedMessage {
            id: 1,
            message: Message::Position(scalar(10.0), scalar(20.0))
        }))
    );
}

#[test]
fn a_message_dropped_on_the_wire_is_not_observed_and_the_rest_keep_their_order() {
    let processor = processor(4);
    // Three positions were sent; the second never arrived.
    let arrived = vec![(1.0f32, 1.0f32), (3.0, 3.0)];
    let mut observed = Vec::new();
    for (x, y) in &arrived {
        let event = Event::IncomingMessage(Some(Message::Position(scalar(*x), scalar(*y))));
        match processor.step(event) {
            Some(Effect::PublishMessage(signed)) => observed.push(signed),
            other => panic!("unexpected effect {:?}", other),
        }
    }
    assert_eq!(
        observed,
        vec![
            SignedMessage { id: 4, message: Message::Position(scalar(1.0), scalar(1.0)) },
            SignedMessage { id: 4, message: Message::Position(scalar(3.0), scalar(3.0)) },
        ]
    );
}

#[test]
fn twenty_pings_give_twenty_emitted_syncs() {
    let processor = processor(1);
    let mut emitted = 0;
    for _ in 0..20 {
        let action = MessageProcessor::select_action(Event::IncomingMessage(Some(Message::Sync)));
        assert_eq!(action, Action::EmitMessage(WrappedMessage::Message(Message::Sync)));
        if let Effect::PublishMessage(signed) = processor.perform(action) {
            assert_eq!(signed, SignedMessage { id: 1, message: Message::Sync });
            emitted += 1;
        }
    }
    assert_eq!(emitted, 20);
}

#[test]
fn as_many_messages_are_emitted_as_were_decoded() {
    let processor = processor(2);
    let tree = Object {
        id: 5,
        object_info: ObjectInfo::Tree(Tree {
            position: (scalar(1.0), scalar(2.0)),
            size: scalar(3.0),
        }),
    };
    let events = vec![
        Event::IncomingBytes(Some(vec![1])),
        Event::IncomingMessage(Some(Message::State(tree))),
        Event::Timer,
        Event::IncomingReliableMessage(Some(ReliableMessage::Connect)),
        Event::IncomingMessage(None),
        Event::OutgoingMessage(Some(Message::Sync)),
        Event::IncomingMessage(Some(Message::Unknown)),
    ];
    let mut emitted = 0;
    for event in events {
        if let Action::EmitMessage(_) = MessageProcessor::select_action(event) {
            emitted += 1;
        }
    }
    assert_eq!(emitted, 3);
    assert_eq!(processor.id(), 2);
}

#[test]
fn the_bundle_of_a_registered_peer_feeds_its_processor() {
    let (packets, packet_receiver) = async_channel::unbounded();
    let mut multiplexer = ConnectionMultiplexer::new(packets);
    let (id, processor) = multiplexer.register();
    let endpoints = processor.endpoints();
    let bundle = processor.channel_bundle();

    bundle.message_sender.try_send(Message::Sync).unwrap();
    assert_eq!(endpoints.outgoing_messages.try_recv().ok(), Some(Message::Sync));
    bundle.reliable_message_sender.try_send(ReliableMessage::Connect).unwrap();
    assert_eq!(
        endpoints.outgoing_reliable_messages.try_recv().ok(),
        Some(ReliableMessage::Connect)
    );
    bundle.byte_sender.try_send(vec![1, 2]).unwrap();
    assert_eq!(endpoints.incoming_bytes.try_recv().ok(), Some(vec![1, 2]));
    bundle.internal_sender.try_send(InternalMessage::Shutdown).unwrap();
    assert_eq!(endpoints.control.try_recv().ok(), Some(InternalMessage::Shutdown));

    // What the processor publishes arrives at the multiplexer's fan-in queues.
    endpoints.byte_fanin.try_send(SignedMessage { id, message: vec![7] }).unwrap();
    assert_eq!(packet_receiver.try_recv().ok(), Some(SignedMessage { id, message: vec![7] }));
    endpoints.message_fanin.try_send(SignedMessage { id, message: Message::Sync }).unwrap();
    assert_eq!(
        multiplexer.message_receiver().try_recv().ok(),
        Some(SignedMessage { id, message: Message::Sync })
    );
    endpoints
        .reliable_message_fanin
        .try_send(SignedMessage { id, message: ReliableMessage::Connect })
        .unwrap();
    assert_eq!(
        multiplexer.reliable_message_receiver().try_recv().ok(),
        Some(SignedMessage { id, message: ReliableMessage::Connect })
    );
}

#[test]
fn channels_carry_what_is_sent_in_order() {
    let both: BidirectionalChannel<u8> = BidirectionalChannel::new();
    both.incoming_sender.try_send(1).unwrap();
    both.incoming_sender.try_send(2).unwrap();
    both.outgoing_sender.try_send(3).unwrap();
    assert_eq!(both.incoming_reciever.try_recv().ok(), Some(1));
    assert_eq!(both.incoming_reciever.try_recv().ok(), Some(2));
    assert_eq!(both.outgoing_receiver.try_recv().ok(), Some(3));
    assert_eq!(both.outgoing_receiver.try_recv().ok(), None);

    let one: DirectionalChannel<u8> = DirectionalChannel::new();
    one.sender().try_send(9).unwrap();
    assert_eq!(one.receiver().try_recv().ok(), Some(9));
}

#[test]
fn a_processor_runs_its_two_channels_with_the_documented_settings() {
    let processor = processor(1);
    assert_eq!(processor.message_settings(), message_channel_settings());
    assert_eq!(processor.reliable_message_settings(), reliable_message_channel_settings());
    assert_eq!(processor.message_settings().channel, 1);
    assert_eq!(processor.reliable_message_settings().channel, 0);
    assert!(processor.reliable_message_settings().admits(65534));
    assert!(!processor.reliable_message_settings().admits(65535));
}

#[test]
fn a_closed_fan_in_queue_is_an_error_and_the_processor_goes_on() {
    let processor = processor(1);
    assert_eq!(processor.after_publish(false), Effect::Continue);
    assert_eq!(processor.after_publish(true), Effect::Continue);
    assert_eq!(processor.after_publish(false), processor.perform(Action::Error));

    // The consumer of the byte fan-in queue has gone: a publish is not taken.
    let (bytes, byte_receiver) = async_channel::unbounded();
    let (messages, message_receiver) = async_channel::unbounded();
    let (reliable, _reliable_receiver) = async_channel::unbounded();
    let processor = MessageProcessorFactory::new(bytes, messages, reliable).build(5);
    drop(byte_receiver);
    let endpoints = processor.endpoints();
    let taken = match processor.step(Event::OutgoingBytes(Some(vec![1]))) {
        Some(Effect::PublishBytes(signed)) => endpoints.byte_fanin.try_send(signed).is_ok(),
        other => panic!("unexpected effect {:?}", other),
    };
    assert!(!taken);
    assert_eq!(processor.after_publish(taken), Effect::Continue);
    // The processor still serves its other queues.
    let taken = match processor.step(Event::IncomingMessage(Some(Message::Sync))) {
        Some(Effect::PublishMessage(signed)) => endpoints.message_fanin.try_send(signed).is_ok(),
        other => panic!("unexpected effect {:?}", other),
    };
    assert!(taken);
    assert_eq!(
        message_receiver.try_recv().ok(),
        Some(SignedMessage { id: 5, message: Message::Sync })
    );
}

#[test]
fn the_flush_is_due_one_interval_after_the_last_one() {
    assert_eq!(FLUSH_INTERVAL_MICROS, 1000 * FLUSH_INTERVAL_MILLIS);
    assert_eq!(flush_wait(0), 5000);
    assert_eq!(flush_wait(1), 4999);
    assert_eq!(flush_wait(4999), 1);
    assert_eq!(flush_wait(5000), 0);
    assert_eq!(flush_wait(5001), 0);
    assert_eq!(flush_wait(u64::MAX), 0);
}

#[test]
fn the_loop_serves_a_run_in_order_until_it_is_shut_down() {
    let processor = processor(9);
    let effects = processor.run(vec![
        Event::IncomingBytes(Some(vec![1, 2])),
        Event::IncomingMessage(Some(Message::Position(scalar(1.0), scalar(2.0)))),
        Event::OutgoingBytes(None),
        Event::Timer,
        Event::IncomingMessage(Some(Message::Sync)),
        Event::Internal(Some(InternalMessage::Shutdown)),
        Event::IncomingMessage(Some(Message::Unknown)),
        Event::Timer,
    ]);
    assert_eq!(
        effects,
        vec![
            Effect::Frame(vec![1, 2]),
            Effect::PublishMessage(SignedMessage {
                id: 9,
                message: Message::Position(scalar(1.0), scalar(2.0))
            }),
            Effect::Continue,
            Effect::Flush,
            Effect::PublishMessage(SignedMessage { id: 9, message: Message::Sync }),
            Effect::Stop,
        ]
    );
    assert_eq!(processor.run(vec![]), vec![]);
    assert_eq!(processor.run(vec![Event::Timer, Event::Timer]), vec![Effect::Flush, Effect::Flush]);
    assert_eq!(
        processor.run(vec![Event::Internal(Some(InternalMessage::Shutdown)), Event::Timer]),
        vec![Effect::Stop]
    );
}
