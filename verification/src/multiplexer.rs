//! The connection multiplexer: a registry of peers, keyed by a dense id, that
//! routes a target to one peer or to all of them.

use crate::channel::offer;
use crate::message::{
    InternalMessage, Message, RawMessage, ReliableMessage, SignedMessage, Target,
};
use crate::processor::{ChannelBundle, MessageProcessor, MessageProcessorFactory};
use crate::settings::{message_settings, reliable_message_settings};
use async_channel::{Receiver, Sender};
use std::collections::HashMap;
use vstd::prelude::*;
use vstd::std_specs::iter::IteratorSpec;

verus! {

broadcast use vstd::std_specs::hash::group_hash_axioms;

/// What a multiplexer is, apart from its queues: the id that the next peer
/// will get, and the ids of the peers that are connected.
pub struct Registry {
    pub next_id: int,
    pub peers: Set<int>,
}

/// A change of the registry.
pub enum Operation {
    Register,
    Kill(usize),
}

impl Registry {
    /// The registry of a new multiplexer: nobody is connected, and the first
    /// peer will be number 1.
    pub open spec fn initial() -> Registry {
        Registry { next_id: 1, peers: Set::empty() }
    }

    /// Ids are positive, and every connected peer got its id before `next_id`.
    pub open spec fn wf(self) -> bool {
        &&& self.next_id >= 1
        &&& self.peers.finite()
        &&& forall|p: int| self.peers.contains(p) ==> 1 <= p < self.next_id
    }

    /// The registry after one more peer has registered. The peer's id is the
    /// `next_id` of before.
    pub open spec fn register(self) -> Registry {
        Registry { next_id: self.next_id + 1, peers: self.peers.insert(self.next_id) }
    }

    /// The registry after peer `p` was killed. Its id is not given out again.
    pub open spec fn kill(self, p: int) -> Registry {
        Registry { next_id: self.next_id, peers: self.peers.remove(p) }
    }

    /// The registry after one operation.
    pub open spec fn apply(self, operation: Operation) -> Registry {
        match operation {
            Operation::Register => self.register(),
            Operation::Kill(p) => self.kill(p as int),
        }
    }

    /// The registry after a run of operations, the first one first.
    pub open spec fn run(self, operations: Seq<Operation>) -> Registry
        decreases operations.len(),
    {
        if operations.len() == 0 {
            self
        } else {
            self.run(operations.drop_last()).apply(operations.last())
        }
    }

    /// The peers that a message for `target` goes to, or `None` where the
    /// send fails: a broadcast goes to everybody who is connected, and be it
    /// nobody; a message for one peer fails unless that peer is connected.
    pub open spec fn recipients(self, target: Target) -> Option<Set<int>> {
        match target {
            Target::All => Some(self.peers),
            Target::Client(p) => if self.peers.contains(p as int) {
                Some(set![p as int])
            } else {
                None
            },
        }
    }
}

/// Every operation keeps the registry well formed, never lowers `next_id`, and
/// never connects a peer whose id was given out before and is not connected.
pub proof fn lemma_operation_keeps_order(registry: Registry, operation: Operation)
    requires
        registry.wf(),
    ensures
        registry.apply(operation).wf(),
        registry.apply(operation).next_id >= registry.next_id,
        forall|p: int|
            p < registry.next_id && !registry.peers.contains(p) ==> !registry.apply(
                operation,
            ).peers.contains(p),
{
}

/// The same over a whole run of operations.
pub proof fn lemma_run_keeps_order(registry: Registry, operations: Seq<Operation>)
    requires
        registry.wf(),
    ensures
        registry.run(operations).wf(),
        registry.run(operations).next_id >= registry.next_id,
        forall|p: int|
            p < registry.next_id && !registry.peers.contains(p) ==> !registry.run(
                operations,
            ).peers.contains(p),
    decreases operations.len(),
{
    if operations.len() > 0 {
        lemma_run_keeps_order(registry, operations.drop_last());
        lemma_operation_keeps_order(registry.run(operations.drop_last()), operations.last());
    }
}

/// Ids are unique and strictly increasing: a peer that registers gets an id
/// that no connected peer has, and whatever happens afterwards, the next peer
/// to register gets a greater one.
pub proof fn lemma_ids_unique_and_increasing(registry: Registry, operations: Seq<Operation>)
    requires
        registry.wf(),
    ensures
        !registry.peers.contains(registry.next_id),
        registry.next_id < registry.register().run(operations).next_id,
{
    lemma_operation_keeps_order(registry, Operation::Register);
    lemma_run_keeps_order(registry.register(), operations);
}

/// After a peer was killed, no send to it succeeds, whatever happens in
/// between: its id is never given out again. The peer is one that has
/// registered, so its id lies below `next_id`.
pub proof fn lemma_killed_peer_stays_unreachable(
    registry: Registry,
    p: usize,
    operations: Seq<Operation>,
)
    requires
        registry.wf(),
        p < registry.next_id,
    ensures
        registry.kill(p as int).run(operations).recipients(Target::Client(p)) is None,
{
    let killed = registry.kill(p as int);
    assert(killed == registry.apply(Operation::Kill(p)));
    lemma_operation_keeps_order(registry, Operation::Kill(p));
    lemma_run_keeps_order(killed, operations);
    assert(!killed.peers.contains(p as int));
}

/// The server-side fan-in and fan-out: one processor's handles for each
/// connected peer, and the read ends of the two typed fan-in queues.
pub struct ConnectionMultiplexer {
    next_id: usize,
    connections: HashMap<usize, ChannelBundle>,
    processor_factory: MessageProcessorFactory,
    reliable_message_receiver: Receiver<SignedMessage<ReliableMessage>>,
    message_receiver: Receiver<SignedMessage<Message>>,
}

impl View for ConnectionMultiplexer {
    type V = Registry;

    closed spec fn view(&self) -> Registry {
        Registry {
            next_id: self.next_id as int,
            peers: Set::new(
                |p: int| 0 <= p <= usize::MAX && self.connections@.contains_key(p as usize),
            ),
        }
    }
}

/// The peers that a list of deliveries is addressed to, in its order.
pub open spec fn addressees<M>(list: Seq<SignedMessage<M>>) -> Seq<usize> {
    Seq::new(list.len(), |i: int| list[i].id)
}

/// That `ids` lists the peers of `peers`, each of them once.
pub open spec fn lists_peers(ids: Seq<usize>, peers: Set<int>) -> bool {
    &&& ids.no_duplicates()
    &&& forall|p: int| peers.contains(p) <==> exists|i: int| 0 <= i < ids.len() && ids[i] == p
}

impl ConnectionMultiplexer {
    /// The handles of peer `id`, where it is connected: the write ends of
    /// its processor's queues.
    pub closed spec fn bundle_of(&self, id: usize) -> ChannelBundle {
        self.connections@[id]
    }

    /// The write end of the fan-in queue on which the processors publish
    /// their outgoing raw packets.
    pub closed spec fn packet_fanin(&self) -> Sender<SignedMessage<RawMessage>> {
        self.processor_factory.byte_fanin()
    }

    /// The write end of the fan-in queue on which the processors publish
    /// the messages of the unreliable channel.
    pub closed spec fn message_fanin(&self) -> Sender<SignedMessage<Message>> {
        self.processor_factory.message_fanin()
    }

    /// The write end of the fan-in queue on which the processors publish
    /// the messages of the reliable channel.
    pub closed spec fn reliable_message_fanin(&self) -> Sender<SignedMessage<ReliableMessage>> {
        self.processor_factory.reliable_message_fanin()
    }

    /// A multiplexer to which nobody is connected. Its processors will
    /// publish their outgoing packets on `packet_sender`.
    pub fn new(packet_sender: Sender<SignedMessage<RawMessage>>) -> (multiplexer: Self)
        ensures
            multiplexer@ == Registry::initial(),
            multiplexer@.wf(),
            multiplexer.packet_fanin() == packet_sender,
    {
        let (message_sender, message_receiver) = async_channel::unbounded();
        let (reliable_message_sender, reliable_message_receiver) = async_channel::unbounded();
        let multiplexer = ConnectionMultiplexer {
            next_id: 1,
            processor_factory: MessageProcessorFactory::new(
                packet_sender,
                message_sender,
                reliable_message_sender,
            ),
            connections: HashMap::new(),
            message_receiver,
            reliable_message_receiver,
        };
        assert(multiplexer@.peers =~= Set::empty());
        multiplexer
    }

    /// Whether one more peer can register: ids are never reused, so the
    /// registry is exhausted once `next_id` is the greatest number there is.
    pub fn can_register(&self) -> (ok: bool)
        ensures
            ok == (self@.next_id < usize::MAX),
    {
        self.next_id < usize::MAX
    }

    /// Whether peer `id` is connected.
    pub fn contains(&self, id: usize) -> (known: bool)
        ensures
            known == self@.peers.contains(id as int),
    {
        self.connections.contains_key(&id)
    }

    /// Registers one more peer: mints the next id, builds the peer's
    /// processor and keeps its handles. The processor publishes its outgoing
    /// packets on the multiplexer's fan-in queue, and the handles kept are
    /// the write ends of its queues; those of the other peers stay as they
    /// are. The id is one that no peer has had before. The caller starts the
    /// processor.
    pub fn register(&mut self) -> (registered: (usize, MessageProcessor))
        requires
            old(self)@.next_id < usize::MAX,
        ensures
            registered.0 == old(self)@.next_id,
            registered.1.peer_id() == registered.0,
            registered.1.byte_fanin() == old(self).packet_fanin(),
            registered.1.message_fanin() == old(self).message_fanin(),
            registered.1.reliable_message_fanin() == old(self).reliable_message_fanin(),
            registered.1.unreliable_channel() == message_settings(),
            registered.1.reliable_channel() == reliable_message_settings(),
            final(self)@ == old(self)@.register(),
            final(self)@.next_id == registered.0 + 1,
            old(self)@.wf() ==> final(self)@.wf() && !old(self)@.peers.contains(
                registered.0 as int,
            ),
            final(self).packet_fanin() == old(self).packet_fanin(),
            final(self).message_fanin() == old(self).message_fanin(),
            final(self).reliable_message_fanin() == old(self).reliable_message_fanin(),
            final(self).bundle_of(registered.0) == registered.1.bundle(),
            forall|p: usize|
                p != registered.0 && old(self)@.peers.contains(p as int) ==> final(self).bundle_of(
                    p,
                ) == old(self).bundle_of(p),
    {
        let id = self.next_id;
        self.next_id = self.next_id + 1;
        let processor = self.processor_factory.build(id);
        let bundle = processor.channel_bundle();
        self.connections.insert(id, bundle);
        assert(self@.peers =~= old(self)@.register().peers);
        proof {
            if old(self)@.wf() {
                lemma_operation_keeps_order(old(self)@, Operation::Register);
                lemma_ids_unique_and_increasing(old(self)@, Seq::empty());
            }
        }
        (id, processor)
    }

    /// Kills peer `target`: asks its processor to shut down and forgets its
    /// handles. Nothing happens when the peer is not connected. The handles
    /// of the other peers stay as they are.
    pub fn kill(&mut self, target: usize)
        ensures
            final(self)@ == old(self)@.kill(target as int),
            final(self)@.next_id == old(self)@.next_id,
            old(self)@.wf() ==> final(self)@.wf(),
            final(self).packet_fanin() == old(self).packet_fanin(),
            final(self).message_fanin() == old(self).message_fanin(),
            final(self).reliable_message_fanin() == old(self).reliable_message_fanin(),
            forall|p: usize|
                p != target && old(self)@.peers.contains(p as int) ==> final(self).bundle_of(p)
                    == old(self).bundle_of(p),
    {
        match self.control_of(target) {
            Some(control) => {
                let _ = offer(&control, ConnectionMultiplexer::kill_request());
            },
            None => {},
        }
        self.connections.remove(&target);
        assert(self@.peers =~= old(self)@.kill(target as int).peers);
        proof {
            if old(self)@.wf() {
                lemma_operation_keeps_order(old(self)@, Operation::Kill(target));
            }
        }
    }

    /// The control queue to put the request on when peer `target` is to be
    /// killed: that of the peer's processor, and none where the peer is not
    /// connected.
    pub fn control_of(&self, target: usize) -> (control: Option<Sender<InternalMessage>>)
        ensures
            control is Some <==> self@.peers.contains(target as int),
            control matches Some(sender) ==> sender == self.bundle_of(target).internal_sender,
    {
        match self.connections.get(&target) {
            Some(connection) => Some(connection.internal_sender.clone()),
            None => None,
        }
    }

    /// What a processor is asked when its peer is killed: to shut down.
    pub fn kill_request() -> (request: InternalMessage)
        ensures
            request == InternalMessage::Shutdown,
    {
        InternalMessage::Shutdown
    }

    /// What a send for `target` hands to the queues: for each peer that the
    /// message goes to, once, the peer and its copy of the message. A message
    /// for one peer is handed over as it is. The queue that takes a peer's
    /// copy is the one of its handles that feeds the kind of message sent.
    pub fn deliveries<M: Clone>(&self, target: Target, message: M) -> (plan: Result<
        Vec<SignedMessage<M>>,
        (),
    >)
        ensures
            plan is Ok <==> self@.recipients(target) is Some,
            plan matches Ok(list) ==> lists_peers(
                addressees(list@),
                self@.recipients(target)->0,
            ),
            plan matches Ok(list) ==> forall|i: int|
                0 <= i < list@.len() ==> cloned(message, #[trigger] list@[i].message),
            plan matches Ok(list) ==> (target matches Target::Client(client) ==> list@ == seq![
                SignedMessage { id: client, message },
            ]),
    {
        match target {
            Target::All => {
                let ids = self.recipients(target).unwrap();
                let mut list: Vec<SignedMessage<M>> = Vec::new();
                let mut next: usize = 0;
                while next < ids.len()
                    invariant
                        next <= ids.len(),
                        list@.len() == next,
                        addressees(list@) == ids@.take(next as int),
                        forall|i: int|
                            0 <= i < list@.len() ==> cloned(message, #[trigger] list@[i].message),
                    decreases ids.len() - next,
                {
                    let ghost before = list@;
                    let copy = message.clone();
                    list.push(SignedMessage { id: ids[next], message: copy });
                    proof {
                        assert forall|i: int| 0 <= i < list@.len() implies addressees(list@)[i]
                            == ids@.take(next as int + 1)[i] by {
                            if i < before.len() {
                                assert(addressees(before)[i] == ids@.take(next as int)[i]);
                            }
                        }
                        assert(addressees(list@) =~= ids@.take(next as int + 1));
                    }
                    next = next + 1;
                }
                assert(ids@.take(ids.len() as int) =~= ids@);
                Ok(list)
            },
            Target::Client(client) => {
                if self.connections.contains_key(&client) {
                    let mut list: Vec<SignedMessage<M>> = Vec::new();
                    list.push(SignedMessage { id: client, message });
                    proof {
                        assert(list@ =~= seq![SignedMessage { id: client, message }]);
                        assert(addressees(list@) =~= seq![client]);
                        assert(addressees(list@)[0] == client);
                        assert(lists_peers(addressees(list@), set![client as int]));
                    }
                    Ok(list)
                } else {
                    Err(())
                }
            },
        }
    }

    /// The peers that a message for `target` goes to, each of them once, or
    /// an error when the target is one peer and that peer is not connected.
    pub fn recipients(&self, target: Target) -> (route: Result<Vec<usize>, ()>)
        ensures
            route is Ok <==> self@.recipients(target) is Some,
            route matches Ok(ids) ==> lists_peers(ids@, self@.recipients(target)->0),
            route matches Ok(ids) ==> (target matches Target::Client(client) ==> ids@
                == seq![client]),
    {
        match target {
            Target::All => {
                let mut ids: Vec<usize> = Vec::new();
                let ghost keys = vstd::std_specs::hash::spec_keys_iter(
                    &self.connections,
                ).remaining();
                for id in it: self.connections.keys()
                    invariant
                        it.seq() == keys,
                        ids@.len() == it.index(),
                        forall|j: int| 0 <= j < ids@.len() ==> ids@[j] == *keys[j],
                {
                    ids.push(*id);
                }
                proof {
                    assert(ids@ =~= keys.unref());
                    assert forall|i: int, j: int|
                        0 <= i < ids@.len() && 0 <= j < ids@.len() && i != j implies ids@[i]
                        != ids@[j] by {
                        assert(keys[i] != keys[j]);
                    }
                    assert forall|p: int| self@.peers.contains(p) implies exists|i: int|
                        0 <= i < ids@.len() && ids@[i] == p by {
                        let i = choose|i: int| 0 <= i < ids@.len() && ids@[i] == p as usize;
                        assert(ids@[i] == p);
                    }
                    assert forall|p: int|
                        (exists|i: int| 0 <= i < ids@.len() && ids@[i] == p) implies self@.peers.contains(
                        p,
                    ) by {
                        let i = choose|i: int| 0 <= i < ids@.len() && ids@[i] == p;
                        assert(ids@.to_set().contains(ids@[i]));
                    }
                }
                Ok(ids)
            },
            Target::Client(client) => {
                if self.connections.contains_key(&client) {
                    let mut ids: Vec<usize> = Vec::new();
                    ids.push(client);
                    proof {
                        assert(ids@[0] == client);
                    }
                    Ok(ids)
                } else {
                    Err(())
                }
            },
        }
    }

    /// Queues a message of the unreliable channel for the peers of `target`.
    /// The send fails when the target is one peer and that peer is not
    /// connected, and in no other case; a broadcast to nobody succeeds. What
    /// is handed to the queues is what `deliveries` lists. A processor that
    /// has gone away in the meantime misses the message.
    pub fn send_message(&self, target: Target, message: Message) -> (sent: Result<(), ()>)
        ensures
            sent is Ok <==> self@.recipients(target) is Some,
    {
        match self.deliveries(target, message) {
            Ok(list) => {
                for signed in list {
                    match self.connections.get(&signed.id) {
                        Some(connection) => {
                            let _ = offer(&connection.message_sender, signed.message);
                        },
                        None => {},
                    }
                }
                Ok(())
            },
            Err(_) => Err(()),
        }
    }

    /// Queues a message of the reliable channel for the peers of `target`.
    /// The send fails when the target is one peer and that peer is not
    /// connected, and in no other case; a broadcast to nobody succeeds. What
    /// is handed to the queues is what `deliveries` lists. A processor that
    /// has gone away in the meantime misses the message.
    pub fn send_reliable_message(&self, target: Target, message: ReliableMessage) -> (sent: Result<(), ()>)
        ensures
            sent is Ok <==> self@.recipients(target) is Some,
    {
        match self.deliveries(target, message) {
            Ok(list) => {
                for signed in list {
                    match self.connections.get(&signed.id) {
                        Some(connection) => {
                            let _ = offer(&connection.reliable_message_sender, signed.message);
                        },
                        None => {},
                    }
                }
                Ok(())
            },
            Err(_) => Err(()),
        }
    }

    /// Queues a raw packet from the transport for the peers of `target`.
    /// The send fails when the target is one peer and that peer is not
    /// connected, and in no other case; a broadcast to nobody succeeds. What
    /// is handed to the queues is what `deliveries` lists. A processor that
    /// has gone away in the meantime misses the message.
    pub fn send_raw(&self, target: Target, message: RawMessage) -> (sent: Result<(), ()>)
        ensures
            sent is Ok <==> self@.recipients(target) is Some,
    {
        match self.deliveries(target, message) {
            Ok(list) => {
                for signed in list {
                    match self.connections.get(&signed.id) {
                        Some(connection) => {
                            let _ = offer(&connection.byte_sender, signed.message);
                        },
                        None => {},
                    }
                }
                Ok(())
            },
            Err(_) => Err(()),
        }
    }

    /// One more write end of the queue that feeds the unreliable channel of peer `target`, who is connected.
    pub fn get_message_channel(&self, target: usize) -> (sender: Sender<Message>)
        requires
            self@.peers.contains(target as int),
        ensures
            sender == self.bundle_of(target).message_sender,
    {
        let connection = self.connections.get(&target).unwrap();
        connection.message_sender.clone()
    }

    /// One more write end of the queue that feeds the reliable channel of peer `target`, who is connected.
    pub fn get_reliable_message_channel(&self, target: usize) -> (sender: Sender<ReliableMessage>)
        requires
            self@.peers.contains(target as int),
        ensures
            sender == self.bundle_of(target).reliable_message_sender,
    {
        let connection = self.connections.get(&target).unwrap();
        connection.reliable_message_sender.clone()
    }

    /// One more write end of the queue that takes the raw packets of peer `target`, who is connected.
    pub fn get_raw_channel(&self, target: usize) -> (sender: Sender<RawMessage>)
        requires
            self@.peers.contains(target as int),
        ensures
            sender == self.bundle_of(target).byte_sender,
    {
        let connection = self.connections.get(&target).unwrap();
        connection.byte_sender.clone()
    }

    /// One more read end of the fan-in queue of the reliable channel.
    pub fn reliable_message_receiver(&self) -> Receiver<SignedMessage<ReliableMessage>> {
        self.reliable_message_receiver.clone()
    }

    /// One more read end of the fan-in queue of the unreliable channel.
    pub fn message_receiver(&self) -> Receiver<SignedMessage<Message>> {
        self.message_receiver.clone()
    }
}

} // verus!
