use game_transport::game::Universe;
use game_transport::lookup::SocketAddress;
use game_transport::message::{
    Message, Object, ObjectInfo, ReliableMessage, Scalar, SignedMessage, Target, Tree,
};
use game_transport::server::{Action, Departure, InternalMessage, Switchboard};
use std::collections::{HashMap, HashSet};

fn v4(last: u8) -> SocketAddress {
    SocketAddress::V4 { ip: u32::from_be_bytes([192, 168, 0, last]), port: 42424 }
}

fn ids(list: &[usize]) -> HashSet<usize> {
    list.iter().copied().collect()
}

fn trees() -> [Tree; 20] {
    std::array::from_fn(|i| Tree {
        position: (
            Scalar::from_bits((i as f32).to_bits()),
            Scalar::from_bits((2.0 * i as f32).to_bits()),
        ),
        size: Scalar::from_bits(5.0f32.to_bits()),
    })
}

fn world_of(universe: &Universe) -> HashMap<u32, Object> {
    universe.objects().clone()
}

#[test]
fn a_datagram_from_a_new_address_registers_a_peer() {
    let (packets, _packet_receiver) = async_channel::unbounded();
    let mut switchboard = Switchboard::new(packets);
    assert!(switchboard.can_admit());
    let arrival = switchboard.receive(v4(1), vec![1, 2, 3]);
    assert_eq!(arrival.id, 1);
    assert_eq!(arrival.snapshot, Some(ids(&[1])));
    let processor = arrival.processor.unwrap();
    assert_eq!(processor.id(), 1);
    // The bytes are queued for the new peer's processor.
    assert_eq!(processor.endpoints().incoming_bytes.try_recv().ok(), Some(vec![1, 2, 3]));
    assert!(switchboard.contains(&v4(1)));
    assert_eq!(switchboard.destination(1), Some(v4(1)));

    // A second datagram from the same address belongs to the same peer.
    let again = switchboard.receive(v4(1), vec![4]);
    assert_eq!(again.id, 1);
    assert!(again.processor.is_none());
    assert_eq!(again.snapshot, None);
    assert_eq!(processor.endpoints().incoming_bytes.try_recv().ok(), Some(vec![4]));
    assert_eq!(switchboard.snapshot(), ids(&[1]));
}

#[test]
fn two_clients_connect() {
    let (packets, _packet_receiver) = async_channel::unbounded();
    let mut switchboard = Switchboard::new(packets);
    let mut universe = Universe::new(trees());
    let world = world_of(&universe);
    assert_eq!(world.len(), 20);

    let a = switchboard.receive(v4(1), vec![0]);
    assert_eq!(a.id, 1);
    assert_eq!(a.snapshot, Some(ids(&[1])));
    let to_a = universe.client_tick(&a.snapshot.unwrap());
    assert_eq!(
        to_a,
        vec![
            SignedMessage { id: 1, message: ReliableMessage::Connect },
            SignedMessage { id: 1, message: ReliableMessage::State(world.clone()) },
        ]
    );

    let b = switchboard.receive(v4(2), vec![0]);
    assert_eq!(b.id, 2);
    assert_eq!(b.snapshot, Some(ids(&[1, 2])));
    let after_b = universe.client_tick(&b.snapshot.unwrap());
    assert_eq!(
        after_b,
        vec![
            SignedMessage { id: 2, message: ReliableMessage::Connect },
            SignedMessage { id: 2, message: ReliableMessage::State(world.clone()) },
            SignedMessage { id: 1, message: ReliableMessage::Connected("2".to_string()) },
        ]
    );
    if let ReliableMessage::State(objects) = &after_b[1].message {
        assert_eq!(objects.len(), 20);
        assert!(objects.values().all(|o| matches!(o.object_info, ObjectInfo::Tree(_))));
    } else {
        panic!("the second message is the world");
    }
}

#[test]
fn a_peer_that_has_gone_is_killed_on_the_next_outgoing_packet() {
    let (packets, _packet_receiver) = async_channel::unbounded();
    let mut switchboard = Switchboard::new(packets);
    let mut universe = Universe::new(trees());
    let a = switchboard.receive(v4(1), vec![0]);
    universe.client_tick(&a.snapshot.unwrap());
    let b = switchboard.receive(v4(2), vec![0]);
    universe.client_tick(&b.snapshot.unwrap());
    let b_processor = b.processor.unwrap();

    // B is no longer among the transport's connections.
    let connected = vec![v4(1)];
    let departure = switchboard.dispatch(2, &connected);
    assert_eq!(departure, Departure { destination: None, snapshot: Some(ids(&[1])) });
    assert_eq!(
        b_processor.endpoints().control.try_recv().ok(),
        Some(game_transport::message::InternalMessage::Shutdown)
    );
    assert!(!switchboard.contains(&v4(2)));
    assert_eq!(switchboard.destination(2), None);
    assert!(!switchboard.multiplexer().contains(2));
    assert_eq!(switchboard.multiplexer().send_message(Target::Client(2), Message::Sync), Err(()));

    let told = universe.client_tick(&departure.snapshot.unwrap());
    assert_eq!(
        told,
        vec![SignedMessage { id: 1, message: ReliableMessage::Disconnected("2".to_string()) }]
    );

    // The id of B is not given out again.
    let c = switchboard.receive(v4(3), vec![0]);
    assert_eq!(c.id, 3);
    assert_eq!(c.snapshot, Some(ids(&[1, 3])));
}

#[test]
fn a_packet_goes_to_the_address_of_its_peer_while_the_peer_is_connected() {
    let (packets, _packet_receiver) = async_channel::unbounded();
    let mut switchboard = Switchboard::new(packets);
    switchboard.receive(v4(1), vec![0]);
    switchboard.receive(v4(2), vec![0]);
    let connected = vec![v4(2), v4(1)];
    assert_eq!(
        switchboard.dispatch(1, &connected),
        Departure { destination: Some(v4(1)), snapshot: None }
    );
    assert_eq!(
        switchboard.dispatch(2, &connected),
        Departure { destination: Some(v4(2)), snapshot: None }
    );
    // A packet of a peer that the table does not know goes nowhere.
    assert_eq!(
        switchboard.dispatch(9, &connected),
        Departure { destination: None, snapshot: None }
    );
    assert_eq!(switchboard.snapshot(), ids(&[1, 2]));
}

#[test]
fn dropping_the_departed_keeps_those_that_are_connected() {
    let (packets, _packet_receiver) = async_channel::unbounded();
    let mut switchboard = Switchboard::new(packets);
    for last in 1..=4 {
        switchboard.receive(v4(last), vec![]);
    }
    assert_eq!(switchboard.drop_departed(&vec![v4(1), v4(2), v4(3), v4(4)]), None);
    assert_eq!(switchboard.drop_departed(&vec![v4(4), v4(2), v4(9)]), Some(ids(&[2, 4])));
    assert!(switchboard.multiplexer().contains(2));
    assert!(switchboard.multiplexer().contains(4));
    assert!(!switchboard.multiplexer().contains(1));
    assert!(!switchboard.multiplexer().contains(3));
    assert_eq!(switchboard.drop_departed(&vec![]), Some(ids(&[])));
    assert_eq!(switchboard.drop_departed(&vec![]), None);
    assert_eq!(switchboard.receive(v4(1), vec![]).id, 5);
}

#[test]
fn a_datagram_is_handed_over_as_a_raw_packet_for_its_peer_alone() {
    assert_eq!(Switchboard::handover(3, vec![1, 2, 3]), (Target::Client(3), vec![1, 2, 3]));
    assert_eq!(Switchboard::handover(1, vec![]), (Target::Client(1), vec![]));
}

#[test]
fn the_loop_sends_what_comes_from_the_queue_of_outgoing_packets() {
    let packet = SignedMessage { id: 1, message: vec![1u8, 2] };
    assert_eq!(
        Action::for_outgoing(Some(packet)),
        Action::Send(SignedMessage { id: 1, message: vec![1u8, 2] })
    );
    assert_eq!(Action::for_outgoing(None), Action::Idle);
    assert_eq!(InternalMessage::ClientSnapshot(ids(&[1])), InternalMessage::ClientSnapshot(ids(&[1])));
}
