use game_transport::lookup::{ClientLookup, SocketAddress};

fn v4(last: u8, port: u16) -> SocketAddress {
    SocketAddress::V4 { ip: u32::from_be_bytes([10, 0, 0, last]), port }
}

#[test]
fn a_new_table_is_empty() {
    let table = ClientLookup::new();
    assert_eq!(table.lookup(1), None);
    assert_eq!(table.lookup_socket(&v4(1, 5000)), None);
    assert!(!table.contains(&v4(1, 5000)));
    assert_eq!(table.clients(), vec![]);
    assert_eq!(table.ids(), Vec::<usize>::new());
}

#[test]
fn the_two_directions_are_mutual_inverses() {
    let mut table = ClientLookup::new();
    table.register(1, v4(1, 5000));
    table.register(2, v4(2, 5000));
    table.register(3, v4(1, 5001));
    for id in 1..=3 {
        let socket = table.lookup(id).unwrap();
        assert_eq!(table.lookup_socket(&socket), Some(id));
    }
    for socket in table.clients() {
        let id = table.lookup_socket(&socket).unwrap();
        assert_eq!(table.lookup(id), Some(socket));
    }
    assert_eq!(table.lookup(1), Some(v4(1, 5000)));
    assert_eq!(table.lookup(3), Some(v4(1, 5001)));
    assert_eq!(table.ids(), vec![1, 2, 3]);
    assert_eq!(table.clients(), vec![v4(1, 5000), v4(2, 5000), v4(1, 5001)]);
    assert_eq!(table.ids().len(), table.clients().len());
}

#[test]
fn remove_takes_a_peer_out_of_both_directions() {
    let mut table = ClientLookup::new();
    table.register(1, v4(1, 5000));
    table.register(2, v4(2, 5000));
    table.remove(&v4(1, 5000));
    assert!(!table.contains(&v4(1, 5000)));
    assert_eq!(table.lookup(1), None);
    assert_eq!(table.lookup_socket(&v4(1, 5000)), None);
    assert_eq!(table.lookup(2), Some(v4(2, 5000)));
    assert_eq!(table.ids(), vec![2]);
    // Removing what is not there changes nothing.
    table.remove(&v4(9, 9));
    assert_eq!(table.ids(), vec![2]);
    assert_eq!(table.clients(), vec![v4(2, 5000)]);
}

#[test]
fn binding_again_unbinds_what_was_bound_before() {
    let mut table = ClientLookup::new();
    table.register(1, v4(1, 5000));
    table.register(2, v4(2, 5000));
    // The address of peer 1 goes to peer 3: peer 1 is no longer in the table.
    table.register(3, v4(1, 5000));
    assert_eq!(table.lookup(1), None);
    assert_eq!(table.lookup(3), Some(v4(1, 5000)));
    assert_eq!(table.lookup_socket(&v4(1, 5000)), Some(3));
    // Peer 2 moves to a new address: its old address is no longer in the table.
    table.register(2, v4(7, 7000));
    assert_eq!(table.lookup_socket(&v4(2, 5000)), None);
    assert_eq!(table.lookup(2), Some(v4(7, 7000)));
    let mut ids = table.ids();
    ids.sort();
    assert_eq!(ids, vec![2, 3]);
    assert_eq!(table.clients().len(), 2);
}

#[test]
fn addresses_differ_by_every_field() {
    let mut table = ClientLookup::new();
    let a = SocketAddress::V6 { ip: 1, port: 80, flowinfo: 0, scope_id: 0 };
    let b = SocketAddress::V6 { ip: 1, port: 80, flowinfo: 0, scope_id: 1 };
    let c = SocketAddress::V4 { ip: 1, port: 80 };
    table.register(1, a);
    table.register(2, b);
    table.register(3, c);
    assert_eq!(table.lookup_socket(&a), Some(1));
    assert_eq!(table.lookup_socket(&b), Some(2));
    assert_eq!(table.lookup_socket(&c), Some(3));
}
