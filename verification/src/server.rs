//! The server's coupling of transport and peers: who a datagram comes from,
//! where a packet goes, and who has silently gone away.

use crate::lookup::{
    bound_ids, bound_sockets, one_to_one, unbind, Binding, ClientLookup, SocketAddress,
};
use crate::message::{RawMessage, SignedMessage, Target};
use crate::multiplexer::{lemma_operation_keeps_order, ConnectionMultiplexer, Operation, Registry};
use crate::processor::MessageProcessor;
use crate::table::{enumerates, lemma_prefix_grows};
use async_channel::Sender;
use std::collections::HashSet;
use vstd::prelude::*;

verus! {

broadcast use vstd::std_specs::hash::group_hash_axioms;

/// What the server tells the world about its peers.
#[derive(Debug, PartialEq, Eq)]
pub enum InternalMessage {
    /// The ids of the peers that are connected now.
    ClientSnapshot(HashSet<usize>),
}

/// What the server's loop does once one of its waits has completed.
#[derive(Debug, PartialEq, Eq)]
pub enum Action {
    /// Nothing is left to do in this iteration.
    Idle,
    /// Send the packet to its peer.
    Send(SignedMessage<RawMessage>),
    Incoming(),
}

impl Action {
    /// The action for what came from the queue of outgoing packets: a packet
    /// is sent, a closed queue leaves nothing to do.
    pub fn for_outgoing(received: Option<SignedMessage<RawMessage>>) -> (action: Action)
        ensures
            action == (match received {
                Some(packet) => Action::Send(packet),
                None => Action::Idle,
            }),
    {
        match received {
            Some(packet) => Action::Send(packet),
            None => Action::Idle,
        }
    }
}

/// What became of a datagram: the peer it belongs to, and, where the peer is
/// new, its processor for the caller to start and the snapshot to publish.
pub struct Arrival {
    pub id: usize,
    pub processor: Option<MessageProcessor>,
    pub snapshot: Option<HashSet<usize>>,
}

/// What to do with an outgoing packet: the address to send it to, if its peer
/// is still there, and the snapshot to publish, if peers have gone.
#[derive(Debug, PartialEq, Eq)]
pub struct Departure {
    pub destination: Option<SocketAddress>,
    pub snapshot: Option<HashSet<usize>>,
}

/// The ids of the peers of `bindings` whose address is not among `connected`.
pub open spec fn departed_ids(bindings: Set<Binding>, connected: Seq<SocketAddress>) -> Set<int> {
    Set::new(
        |p: int|
            exists|b: Binding|
                #[trigger] bindings.contains(b) && b.0 as int == p && !connected.contains(b.1),
    )
}

/// The bindings whose address is among `connected`.
pub open spec fn remaining(bindings: Set<Binding>, connected: Seq<SocketAddress>) -> Set<Binding> {
    bindings.filter(|b: Binding| connected.contains(b.1))
}

/// Whether `socket` is in `list`.
fn holds(list: &Vec<SocketAddress>, socket: &SocketAddress) -> (found: bool)
    ensures
        found == list@.contains(*socket),
{
    let mut next: usize = 0;
    while next < list.len()
        invariant
            next <= list.len(),
            forall|i: int| 0 <= i < next ==> list@[i] != *socket,
        decreases list.len() - next,
    {
        if list[next] == *socket {
            return true;
        }
        next = next + 1;
    }
    false
}

/// The set of the ids of a list.
fn id_set(ids: &Vec<usize>) -> (set: HashSet<usize>)
    ensures
        set@ == ids@.to_set(),
{
    let mut set: HashSet<usize> = HashSet::new();
    let mut next: usize = 0;
    while next < ids.len()
        invariant
            next <= ids.len(),
            set@ == ids@.take(next as int).to_set(),
        decreases ids.len() - next,
    {
        set.insert(ids[next]);
        proof {
            lemma_prefix_grows(ids@, next as int);
        }
        next = next + 1;
    }
    assert(ids@.take(ids.len() as int) =~= ids@);
    set
}

/// The multiplexer together with the table of addresses.
pub struct Switchboard {
    multiplexer: ConnectionMultiplexer,
    client_lookup: ClientLookup,
}

impl Switchboard {
    /// The peers of the multiplexer.
    pub closed spec fn registry(&self) -> Registry {
        self.multiplexer@
    }

    /// The bindings of the table of addresses.
    pub closed spec fn bindings(&self) -> Set<Binding> {
        self.client_lookup.bindings()
    }

    /// The table is one-to-one, and every id in it is that of a connected
    /// peer.
    pub closed spec fn wf(&self) -> bool {
        &&& self.client_lookup.wf()
        &&& self.multiplexer@.wf()
        &&& forall|b: Binding| #[trigger]
            self.client_lookup.bindings().contains(b) ==> self.multiplexer@.peers.contains(
                b.0 as int,
            )
    }

    /// In a well-formed switchboard the table is one-to-one, the registry is
    /// well formed, and every bound id is connected.
    pub proof fn lemma_wf(&self)
        requires
            self.wf(),
        ensures
            one_to_one(self.bindings()),
            self.registry().wf(),
            forall|b: Binding| #[trigger]
                self.bindings().contains(b) ==> self.registry().peers.contains(b.0 as int),
    {
        self.client_lookup.lemma_wf_is_one_to_one();
    }

    /// A switchboard without peers. The processors will publish their
    /// outgoing packets on `packet_sender`.
    pub fn new(packet_sender: Sender<SignedMessage<RawMessage>>) -> (switchboard: Self)
        ensures
            switchboard.wf(),
            switchboard.registry() == Registry::initial(),
            switchboard.bindings() == Set::<Binding>::empty(),
    {
        Switchboard {
            multiplexer: ConnectionMultiplexer::new(packet_sender),
            client_lookup: ClientLookup::new(),
        }
    }

    /// Whether one more peer can be admitted.
    pub fn can_admit(&self) -> (ok: bool)
        ensures
            ok == (self.registry().next_id < usize::MAX),
    {
        self.multiplexer.can_register()
    }

    /// The multiplexer, to send through and to read the fan-in queues from.
    pub fn multiplexer(&self) -> (multiplexer: &ConnectionMultiplexer)
        ensures
            multiplexer@ == self.registry(),
    {
        &self.multiplexer
    }

    /// Whether a peer at `socket` is in the table.
    pub fn contains(&self, socket: &SocketAddress) -> (known: bool)
        ensures
            known == bound_sockets(self.bindings()).contains(*socket),
    {
        self.client_lookup.contains(socket)
    }

    /// The ids of the peers in the table, as a snapshot for the world.
    pub fn snapshot(&self) -> (snapshot: HashSet<usize>)
        requires
            self.wf(),
        ensures
            snapshot@ == bound_ids(self.bindings()),
    {
        let ids = self.client_lookup.ids();
        let snapshot = id_set(&ids);
        assert(snapshot@ =~= bound_ids(self.bindings()));
        snapshot
    }

    /// What is handed to the multiplexer for a datagram of peer `id`: the
    /// bytes as they came, as a raw packet for that peer alone.
    pub fn handover(id: usize, bytes: RawMessage) -> (request: (Target, RawMessage))
        ensures
            request == (Target::Client(id), bytes),
    {
        (Target::Client(id), bytes)
    }

    /// Takes a datagram from `socket`. A peer at an address that the table
    /// does not know is registered under the next id and bound to the
    /// address. The bytes are then queued for the peer's processor: what
    /// `handover` gives goes to the multiplexer.
    pub fn receive(&mut self, socket: SocketAddress, bytes: RawMessage) -> (arrival: Arrival)
        requires
            old(self).wf(),
            old(self).registry().next_id < usize::MAX,
        ensures
            final(self).wf(),
            final(self).bindings().contains((arrival.id, socket)),
            bound_sockets(old(self).bindings()).contains(socket) ==> {
                &&& final(self).bindings() == old(self).bindings()
                &&& final(self).registry() == old(self).registry()
                &&& arrival.processor is None
                &&& arrival.snapshot is None
            },
            !bound_sockets(old(self).bindings()).contains(socket) ==> {
                &&& arrival.id == old(self).registry().next_id
                &&& final(self).bindings() == old(self).bindings().insert((arrival.id, socket))
                &&& final(self).registry() == old(self).registry().register()
                &&& arrival.processor matches Some(processor) && processor.peer_id() == arrival.id
                &&& arrival.snapshot matches Some(snapshot) && snapshot@ == bound_ids(
                    final(self).bindings(),
                )
            },
    {
        match self.client_lookup.lookup_socket(&socket) {
            Some(id) => {
                let (target, packet) = Switchboard::handover(id, bytes);
                let _ = self.multiplexer.send_raw(target, packet);
                Arrival { id, processor: None, snapshot: None }
            },
            None => {
                let ghost bindings = self.client_lookup.bindings();
                let ghost registry = self.multiplexer@;
                let (id, processor) = self.multiplexer.register();
                self.client_lookup.register(id, socket);
                proof {
                    old(self).client_lookup.lemma_wf_is_one_to_one();
                    lemma_operation_keeps_order(registry, Operation::Register);
                    assert forall|b: Binding| bindings.contains(b) implies b.0 != id && b.1
                        != socket by {
                        if b.1 == socket {
                            assert(bindings.contains((b.0, socket)));
                        }
                    }
                }
                let snapshot = self.snapshot();
                let (target, packet) = Switchboard::handover(id, bytes);
                let _ = self.multiplexer.send_raw(target, packet);
                Arrival { id, processor: Some(processor), snapshot: Some(snapshot) }
            },
        }
    }

    /// The address of peer `id`, if it is in the table.
    pub fn destination(&self, id: usize) -> (found: Option<SocketAddress>)
        requires
            self.wf(),
        ensures
            match found {
                Some(socket) => self.bindings().contains((id, socket)),
                None => !bound_ids(self.bindings()).contains(id),
            },
    {
        self.client_lookup.lookup(id)
    }

    /// Drops the peers that have gone. `connected` lists the addresses that
    /// the transport still holds a connection to. Every peer of the table at
    /// another address is killed and unbound. Where that happened to any, the
    /// result is the snapshot of those that remain, to be published.
    pub fn drop_departed(&mut self, connected: &Vec<SocketAddress>) -> (snapshot: Option<
        HashSet<usize>,
    >)
        requires
            old(self).wf(),
        ensures
            final(self).wf(),
            final(self).bindings() == remaining(old(self).bindings(), connected@),
            final(self).registry().next_id == old(self).registry().next_id,
            final(self).registry().peers == old(self).registry().peers.difference(
                departed_ids(old(self).bindings(), connected@),
            ),
            snapshot is Some <==> final(self).bindings() != old(self).bindings(),
            snapshot matches Some(ids) ==> ids@ == bound_ids(final(self).bindings()),
    {
        let ghost bindings = self.client_lookup.bindings();
        let ghost registry = self.multiplexer@;
        let clients = self.client_lookup.clients();
        let mut dropped = false;
        let mut next: usize = 0;
        proof {
            old(self).client_lookup.lemma_wf_is_one_to_one();
            assert(self.client_lookup.bindings() =~= remaining(
                bindings,
                connected@ + clients@.skip(0),
            )) by {
                assert forall|b: Binding| bindings.contains(b) implies (connected@ + clients@.skip(
                    0,
                )).contains(b.1) by {
                    assert(bound_sockets(bindings).contains(b.1));
                    let i = choose|i: int| 0 <= i < clients@.len() && clients@[i] == b.1;
                    assert((connected@ + clients@.skip(0))[connected@.len() + i] == b.1);
                }
            }
            assert(self.multiplexer@.peers =~= registry.peers.difference(
                departed_ids(bindings, connected@ + clients@.skip(0)),
            )) by {
                assert forall|p: int|
                    !departed_ids(bindings, connected@ + clients@.skip(0)).contains(p) by {
                    if departed_ids(bindings, connected@ + clients@.skip(0)).contains(p) {
                        let b = choose|b: Binding|
                            #[trigger] bindings.contains(b) && b.0 as int == p && !(connected@
                                + clients@.skip(0)).contains(b.1);
                        assert(bound_sockets(bindings).contains(b.1));
                        let i = choose|i: int| 0 <= i < clients@.len() && clients@[i] == b.1;
                        assert((connected@ + clients@.skip(0))[connected@.len() + i] == b.1);
                    }
                }
            }
        }
        while next < clients.len()
            invariant
                next <= clients.len(),
                one_to_one(bindings),
                enumerates(clients@, bound_sockets(bindings)),
                forall|b: Binding| #[trigger]
                    bindings.contains(b) ==> registry.peers.contains(b.0 as int),
                registry.wf(),
                self.client_lookup.wf(),
                self.client_lookup.bindings() == remaining(
                    bindings,
                    connected@ + clients@.skip(next as int),
                ),
                self.multiplexer@.next_id == registry.next_id,
                self.multiplexer@.peers == registry.peers.difference(
                    departed_ids(bindings, connected@ + clients@.skip(next as int)),
                ),
                dropped <==> self.client_lookup.bindings() != bindings,
            decreases clients.len() - next,
        {
            let socket = clients[next];
            let ghost still = connected@ + clients@.skip(next as int);
            let ghost after = connected@ + clients@.skip(next as int + 1);
            let ghost table = self.client_lookup.bindings();
            let ghost peers = self.multiplexer@.peers;
            proof {
                assert(clients@.contains(socket));
                assert(forall|q: SocketAddress|
                    still.contains(q) <==> (connected@.contains(q) || clients@.skip(
                        next as int,
                    ).contains(q))) by {
                    lemma_concat_holds(connected@, clients@.skip(next as int));
                }
                assert(forall|q: SocketAddress|
                    after.contains(q) <==> (connected@.contains(q) || clients@.skip(
                        next as int + 1,
                    ).contains(q))) by {
                    lemma_concat_holds(connected@, clients@.skip(next as int + 1));
                }
                lemma_suffix_shrinks(clients@, next as int);
            }
            if !holds(connected, &socket) {
                let found = self.client_lookup.lookup_socket(&socket);
                proof {
                    let id = choose|id: usize| bindings.contains((id, socket));
                    assert(bindings.contains((id, socket)));
                    assert(still.contains(socket)) by {
                        assert(clients@.skip(next as int)[0] == socket);
                    }
                    assert(table.contains((id, socket)));
                }
                let id = found.unwrap();
                self.multiplexer.kill(id);
                self.client_lookup.remove(&socket);
                dropped = true;
                proof {
                    assert forall|b: Binding|
                        unbind(table, socket).contains(b) <==> remaining(bindings, after).contains(
                            b,
                        ) by {}
                    assert forall|p: int|
                        peers.remove(id as int).contains(p) <==> registry.peers.difference(
                            departed_ids(bindings, after),
                        ).contains(p) by {
                        if departed_ids(bindings, after).contains(p) && !departed_ids(
                            bindings,
                            still,
                        ).contains(p) {
                            let b = choose|b: Binding|
                                #[trigger] bindings.contains(b) && b.0 as int == p
                                    && !after.contains(b.1);
                            assert(b.1 == socket);
                        }
                        if p == id as int {
                            assert(departed_ids(bindings, after).contains(p));
                        }
                        if departed_ids(bindings, still).contains(p) {
                            let b = choose|b: Binding|
                                #[trigger] bindings.contains(b) && b.0 as int == p
                                    && !still.contains(b.1);
                            assert(!after.contains(b.1));
                        }
                    }
                    assert(peers.remove(id as int) =~= registry.peers.difference(
                        departed_ids(bindings, after),
                    ));
                }
            } else {
                proof {
                    assert forall|b: Binding|
                        remaining(bindings, still).contains(b) <==> remaining(
                            bindings,
                            after,
                        ).contains(b) by {}
                    assert forall|p: int|
                        departed_ids(bindings, still).contains(p) <==> departed_ids(
                            bindings,
                            after,
                        ).contains(p) by {
                        if departed_ids(bindings, still).contains(p) {
                            let b = choose|b: Binding|
                                #[trigger] bindings.contains(b) && b.0 as int == p
                                    && !still.contains(b.1);
                            assert(!after.contains(b.1));
                        }
                        if departed_ids(bindings, after).contains(p) {
                            let b = choose|b: Binding|
                                #[trigger] bindings.contains(b) && b.0 as int == p
                                    && !after.contains(b.1);
                            assert(!still.contains(b.1));
                        }
                    }
                }
            }
            next = next + 1;
        }
        proof {
            assert forall|b: Binding| #[trigger]
                self.client_lookup.bindings().contains(b) implies self.multiplexer@.peers.contains(
                b.0 as int,
            ) by {
                if departed_ids(bindings, connected@).contains(b.0 as int) {
                    let gone = choose|gone: Binding|
                        #[trigger] bindings.contains(gone) && gone.0 as int == b.0 as int
                            && !connected@.contains(gone.1);
                    assert(gone == b);
                }
            }
            lemma_kills_keep_order(registry, self.multiplexer@);
        }
        if dropped {
            Some(self.snapshot())
        } else {
            None
        }
    }

    /// Handles an outgoing packet of peer `id`: finds the address to send it
    /// to, which is there if the peer is in the table and the transport is
    /// connected to its address, and then drops the peers that have gone.
    pub fn dispatch(&mut self, id: usize, connected: &Vec<SocketAddress>) -> (departure: Departure)
        requires
            old(self).wf(),
        ensures
            final(self).wf(),
            match departure.destination {
                Some(socket) => old(self).bindings().contains((id, socket)) && connected@.contains(
                    socket,
                ),
                None => forall|socket: SocketAddress|
                    old(self).bindings().contains((id, socket)) ==> !connected@.contains(socket),
            },
            final(self).bindings() == remaining(old(self).bindings(), connected@),
            final(self).registry().next_id == old(self).registry().next_id,
            final(self).registry().peers == old(self).registry().peers.difference(
                departed_ids(old(self).bindings(), connected@),
            ),
            departure.snapshot is Some <==> final(self).bindings() != old(self).bindings(),
            departure.snapshot matches Some(ids) ==> ids@ == bound_ids(final(self).bindings()),
    {
        let destination = match self.client_lookup.lookup(id) {
            Some(socket) => {
                proof {
                    self.client_lookup.lemma_wf_is_one_to_one();
                }
                if holds(connected, &socket) {
                    Some(socket)
                } else {
                    None
                }
            },
            None => None,
        };
        let snapshot = self.drop_departed(connected);
        Departure { destination, snapshot }
    }
}

/// What a list and another hold together.
proof fn lemma_concat_holds<K>(a: Seq<K>, b: Seq<K>)
    ensures
        forall|q: K| #[trigger] (a + b).contains(q) <==> (a.contains(q) || b.contains(q)),
{
    assert forall|q: K| #[trigger] (a + b).contains(q) <==> (a.contains(q) || b.contains(q)) by {
        if (a + b).contains(q) {
            let i = choose|i: int| 0 <= i < (a + b).len() && (a + b)[i] == q;
            if i < a.len() {
                assert(a[i] == q);
            } else {
                assert(b[i - a.len()] == q);
            }
        }
        if a.contains(q) {
            let i = choose|i: int| 0 <= i < a.len() && a[i] == q;
            assert((a + b)[i] == q);
        }
        if b.contains(q) {
            let i = choose|i: int| 0 <= i < b.len() && b[i] == q;
            assert((a + b)[a.len() + i] == q);
        }
    }
}

/// What the rest of a list holds, once it is one shorter.
proof fn lemma_suffix_shrinks<K>(list: Seq<K>, n: int)
    requires
        0 <= n < list.len(),
        list.no_duplicates(),
    ensures
        forall|q: K| #[trigger]
            list.skip(n).contains(q) <==> (list.skip(n + 1).contains(q) || q == list[n]),
        !list.skip(n + 1).contains(list[n]),
{
    let rest = list.skip(n);
    let shorter = list.skip(n + 1);
    assert forall|q: K| #[trigger] rest.contains(q) <==> (shorter.contains(q) || q == list[n]) by {
        if rest.contains(q) {
            let i = choose|i: int| 0 <= i < rest.len() && rest[i] == q;
            if i > 0 {
                assert(shorter[i - 1] == q);
            }
        }
        if shorter.contains(q) {
            let i = choose|i: int| 0 <= i < shorter.len() && shorter[i] == q;
            assert(rest[i + 1] == q);
        }
        if q == list[n] {
            assert(rest[0] == q);
        }
    }
    if shorter.contains(list[n]) {
        let i = choose|i: int| 0 <= i < shorter.len() && shorter[i] == list[n];
        assert(list[n + 1 + i] == list[n]);
    }
}

/// A registry that has only lost peers is as well formed as it was.
proof fn lemma_kills_keep_order(before: Registry, after: Registry)
    requires
        before.wf(),
        after.next_id == before.next_id,
        after.peers.subset_of(before.peers),
    ensures
        after.wf(),
{
    vstd::set_lib::lemma_set_subset_finite(before.peers, after.peers);
}

} // verus!
