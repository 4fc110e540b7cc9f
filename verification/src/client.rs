//! The client's side of the transport: one connection at a time, and what
//! has come in over it.

use crate::channel::{offer, poll};
use crate::game::Position;
use crate::message::{
    InternalMessage, Message, Object, RawMessage, ReliableMessage, Scalar, SignedMessage,
};
use crate::multiplexer::{ConnectionMultiplexer, Registry};
use crate::processor::{ChannelBundle, MessageProcessor};
use crate::settings::{message_settings, reliable_message_settings};
use crate::table::{enumerates, key_list, lemma_prefix_grows};
use async_channel::{Receiver, Sender};
use std::collections::HashMap;
use vstd::prelude::*;
use vstd::string::*;

verus! {

broadcast use vstd::std_specs::hash::group_hash_axioms;

/// The time between two heartbeats of a connected client, in milliseconds.
pub const PING_INTERVAL_MILLIS: u64 = 1000;

/// How many messages are taken from each fan-in queue in one go.
pub const PENDING_BATCH: usize = 10;

/// How many shutdown requests a disconnect leaves for the tasks of the
/// connection, at most.
pub const SHUTDOWN_REQUESTS: usize = 100;

/// The bit pattern of the coordinate at which a client starts: fifty.
pub const START_COORDINATE_BITS: u32 = 0x4248_0000;

/// Something that waits to be shown to the user.
#[derive(Debug, PartialEq, Eq)]
pub enum Pending {
    /// A text from the server.
    Text(String),
    /// The position that the server has put the client at.
    Position(Position),
}

/// The client's handles of its connection: where it queues what it sends, how
/// it stops the connection's tasks, and the peer id of the connection.
pub struct ConnectionBundle {
    tx: Sender<Message>,
    reliable_tx: Sender<ReliableMessage>,
    internal_tx: Sender<InternalMessage>,
    channel_number: usize,
}

/// All that the host needs to run a new connection: the processor to start,
/// the queues to drain into it, and the queues between it and the transport.
pub struct Connection {
    /// The signalling endpoint to open the session at.
    pub url: String,
    /// The processor of the connection, to be started.
    pub processor: MessageProcessor,
    /// Where heartbeats are queued.
    pub ping: Sender<Message>,
    /// What the client has queued for the unreliable channel.
    pub queued_messages: Receiver<Message>,
    /// What the client has queued for the reliable channel.
    pub queued_reliable_messages: Receiver<ReliableMessage>,
    /// Where shutdown requests arrive.
    pub internal: Receiver<InternalMessage>,
    /// Into the processor: messages for the unreliable channel.
    pub message_sender: Sender<Message>,
    /// Into the processor: messages for the reliable channel.
    pub reliable_message_sender: Sender<ReliableMessage>,
    /// Into the processor: raw packets from the transport.
    pub raw_sender: Sender<RawMessage>,
    /// Out of the processor: raw packets for the transport.
    pub outgoing_packets: Receiver<SignedMessage<RawMessage>>,
}

/// What a client knows, apart from its queues.
pub struct ClientView {
    pub connected: bool,
    pub position: Position,
    pub pending: Seq<Pending>,
    pub world: Map<u32, Object>,
    pub players: Map<u32, Position>,
}

impl ClientView {
    /// The client after a message of the unreliable channel: a position moves
    /// the client and waits to be shown, an object takes its place in the
    /// world, and nothing else changes anything.
    pub open spec fn absorb(self, message: Message) -> ClientView {
        match message {
            Message::Position(x, y) => ClientView {
                position: (x, y),
                pending: self.pending.push(Pending::Position((x, y))),
                ..self
            },
            Message::State(object) => ClientView {
                world: self.world.insert(object.id, object),
                ..self
            },
            _ => self,
        }
    }

    /// The client after a message of the reliable channel: a snapshot puts
    /// its objects into the world, a text waits to be shown, `Connect` makes
    /// the client connected, and nothing else changes anything.
    pub open spec fn absorb_reliable(self, message: ReliableMessage) -> ClientView {
        match message {
            ReliableMessage::State(objects) => ClientView {
                world: self.world.union_prefer_right(objects@),
                ..self
            },
            ReliableMessage::Text(text) => ClientView {
                pending: self.pending.push(Pending::Text(text)),
                ..self
            },
            ReliableMessage::Connect => ClientView { connected: true, ..self },
            _ => self,
        }
    }

    /// The client after a run of messages of the unreliable channel.
    pub open spec fn absorb_all(self, messages: Seq<Message>) -> ClientView
        decreases messages.len(),
    {
        if messages.len() == 0 {
            self
        } else {
            self.absorb_all(messages.drop_last()).absorb(messages.last())
        }
    }

    /// The client after a run of messages of the reliable channel.
    pub open spec fn absorb_all_reliable(self, messages: Seq<ReliableMessage>) -> ClientView
        decreases messages.len(),
    {
        if messages.len() == 0 {
            self
        } else {
            self.absorb_all_reliable(messages.drop_last()).absorb_reliable(messages.last())
        }
    }

    /// Whether `after` is the client once it has taken what has come in: at
    /// most a batch of messages of the unreliable channel, then at most a
    /// batch of the reliable one.
    pub open spec fn processed(self, after: ClientView) -> bool {
        exists|messages: Seq<Message>, reliable: Seq<ReliableMessage>| #[trigger]
            self.absorb_all(messages).absorb_all_reliable(reliable) == after && messages.len()
                <= PENDING_BATCH && reliable.len() <= PENDING_BATCH
    }
}

/// The client's end of the transport.
pub struct Processor {
    connection_bundle: Option<ConnectionBundle>,
    multiplexer: ConnectionMultiplexer,
    pending_messages: Vec<Pending>,
    message_receiver: Receiver<SignedMessage<Message>>,
    reliable_message_receiver: Receiver<SignedMessage<ReliableMessage>>,
    signed_packet_receiver: Receiver<SignedMessage<RawMessage>>,
    position: Position,
    state: HashMap<u32, Object>,
    players: HashMap<u32, Position>,
    connected: bool,
}

impl View for Processor {
    type V = ClientView;

    closed spec fn view(&self) -> ClientView {
        ClientView {
            connected: self.connected,
            position: self.position,
            pending: self.pending_messages@,
            world: self.state@,
            players: self.players@,
        }
    }
}

impl Processor {
    /// The peers of the client's multiplexer.
    pub closed spec fn registry(&self) -> Registry {
        self.multiplexer@
    }

    /// The peer id of the connection that was made last, if any was.
    pub closed spec fn channel_number(&self) -> Option<usize> {
        match self.connection_bundle {
            Some(bundle) => Some(bundle.channel_number),
            None => None,
        }
    }

    /// Where the client queues what it sends on the unreliable channel, once
    /// a connection has been made.
    pub closed spec fn message_queue(&self) -> Option<Sender<Message>> {
        match self.connection_bundle {
            Some(bundle) => Some(bundle.tx),
            None => None,
        }
    }

    /// Where the client queues what it sends on the reliable channel, once a
    /// connection has been made.
    pub closed spec fn reliable_message_queue(&self) -> Option<Sender<ReliableMessage>> {
        match self.connection_bundle {
            Some(bundle) => Some(bundle.reliable_tx),
            None => None,
        }
    }

    /// Where the client asks the tasks of its connection to stop, once a
    /// connection has been made.
    pub closed spec fn stop_queue(&self) -> Option<Sender<InternalMessage>> {
        match self.connection_bundle {
            Some(bundle) => Some(bundle.internal_tx),
            None => None,
        }
    }

    /// The handles of peer `id` of the client's multiplexer.
    pub closed spec fn peer_handles(&self, id: usize) -> ChannelBundle {
        self.multiplexer.bundle_of(id)
    }

    /// The write end of the queue on which the client's processors publish
    /// their outgoing raw packets.
    pub closed spec fn packet_fanin(&self) -> Sender<SignedMessage<RawMessage>> {
        self.multiplexer.packet_fanin()
    }

    /// A client that is not connected, knows an empty world and has nothing
    /// to show.
    pub fn start() -> (processor: Self)
        ensures
            !processor@.connected,
            processor@.position == (
                Scalar { bits: START_COORDINATE_BITS },
                Scalar { bits: START_COORDINATE_BITS },
            ),
            processor@.pending == Seq::<Pending>::empty(),
            processor@.world == Map::<u32, Object>::empty(),
            processor@.players == Map::<u32, Position>::empty(),
            processor.registry() == Registry::initial(),
            processor.channel_number() is None,
            processor.message_queue() is None,
            processor.reliable_message_queue() is None,
            processor.stop_queue() is None,
    {
        let (signed_packet_sender, signed_packet_receiver) = async_channel::unbounded();
        let multiplexer = ConnectionMultiplexer::new(signed_packet_sender);
        let message_receiver = multiplexer.message_receiver();
        let reliable_message_receiver = multiplexer.reliable_message_receiver();
        Processor {
            connection_bundle: None,
            multiplexer,
            connected: false,
            pending_messages: Vec::new(),
            position: (
                Scalar { bits: START_COORDINATE_BITS },
                Scalar { bits: START_COORDINATE_BITS },
            ),
            players: HashMap::new(),
            state: HashMap::new(),
            message_receiver,
            reliable_message_receiver,
            signed_packet_receiver,
        }
    }

    /// Whether the client is connected.
    pub fn is_connected(&self) -> (connected: bool)
        ensures
            connected == self@.connected,
    {
        self.connected
    }

    /// Where the server has put the client.
    pub fn position(&self) -> (position: Position)
        ensures
            position == self@.position,
    {
        self.position
    }

    /// The peer id of the connection that was made last, if any was.
    pub fn connection_id(&self) -> (number: Option<usize>)
        ensures
            number == self.channel_number(),
    {
        match &self.connection_bundle {
            Some(bundle) => Some(bundle.channel_number),
            None => None,
        }
    }

    /// Whether a connection can be made: the client is not connected, and
    /// its multiplexer has an id left.
    pub fn can_connect(&self) -> (ok: bool)
        ensures
            ok == (!self@.connected && self.registry().next_id < usize::MAX),
    {
        !self.connected && self.multiplexer.can_register()
    }

    /// Makes a connection to `url`, unless the client is connected already,
    /// in which case nothing happens. The connection is registered with the
    /// multiplexer, the client keeps its handles and counts as connected, and
    /// the host gets what it needs to run it: the processor of the new peer,
    /// the write ends of that processor's queues, and one more write end of
    /// the queue that the client's clicks go to, for the heartbeats.
    pub fn connect(&mut self, url: String) -> (connection: Option<Connection>)
        requires
            !old(self)@.connected ==> old(self).registry().next_id < usize::MAX,
        ensures
            old(self)@.connected ==> {
                &&& connection is None
                &&& final(self)@ == old(self)@
                &&& final(self).registry() == old(self).registry()
                &&& final(self).channel_number() == old(self).channel_number()
                &&& final(self).message_queue() == old(self).message_queue()
                &&& final(self).reliable_message_queue() == old(self).reliable_message_queue()
                &&& final(self).stop_queue() == old(self).stop_queue()
            },
            !old(self)@.connected ==> {
                &&& connection matches Some(made) && made.url == url && made.processor.peer_id()
                    == old(self).registry().next_id
                &&& final(self)@ == (ClientView { connected: true, ..old(self)@ })
                &&& final(self).registry() == old(self).registry().register()
                &&& final(self).channel_number() == Some(old(self).registry().next_id as usize)
            },
            !old(self)@.connected ==> (connection matches Some(made) && {
                &&& final(self).message_queue() == Some(made.ping)
                &&& final(self).reliable_message_queue() is Some
                &&& final(self).stop_queue() is Some
                &&& final(self).peer_handles(made.processor.peer_id()) == made.processor.bundle()
                &&& made.message_sender == made.processor.bundle().message_sender
                &&& made.reliable_message_sender == made.processor.bundle().reliable_message_sender
                &&& made.raw_sender == made.processor.bundle().byte_sender
                &&& made.processor.byte_fanin() == old(self).packet_fanin()
                &&& made.processor.unreliable_channel() == message_settings()
                &&& made.processor.reliable_channel() == reliable_message_settings()
            }),
            final(self).packet_fanin() == old(self).packet_fanin(),
    {
        if self.connected {
            return None;
        }
        let (tx, queued_messages) = async_channel::unbounded();
        let (reliable_tx, queued_reliable_messages) = async_channel::unbounded();
        let (internal_tx, internal) = async_channel::unbounded();
        let (channel_number, processor) = self.multiplexer.register();
        let connection = Connection {
            url,
            processor,
            ping: tx.clone(),
            queued_messages,
            queued_reliable_messages,
            internal,
            message_sender: self.multiplexer.get_message_channel(channel_number),
            reliable_message_sender: self.multiplexer.get_reliable_message_channel(channel_number),
            raw_sender: self.multiplexer.get_raw_channel(channel_number),
            outgoing_packets: self.signed_packet_receiver.clone(),
        };
        self.connection_bundle = Some(
            ConnectionBundle { tx, reliable_tx, internal_tx, channel_number },
        );
        self.connected = true;
        Some(connection)
    }

    /// Ends the connection that was made last: its processor is killed, and
    /// its tasks are asked to shut down. The client no longer counts as
    /// connected.
    pub fn disconnect(&mut self)
        ensures
            final(self)@ == (ClientView { connected: false, ..old(self)@ }),
            final(self).channel_number() == old(self).channel_number(),
            final(self).registry() == (match old(self).channel_number() {
                Some(number) => old(self).registry().kill(number as int),
                None => old(self).registry(),
            }),
    {
        match &self.connection_bundle {
            None => {},
            Some(bundle) => {
                self.multiplexer.kill(bundle.channel_number);
                let mut asked: usize = 0;
                while asked < SHUTDOWN_REQUESTS
                    invariant
                        asked <= SHUTDOWN_REQUESTS,
                    decreases SHUTDOWN_REQUESTS - asked,
                {
                    if !offer(&bundle.internal_tx, InternalMessage::Shutdown) {
                        break ;
                    }
                    asked = asked + 1;
                }
            },
        }
        self.connected = false;
    }

    /// Takes a message of the unreliable channel.
    pub fn absorb(&mut self, message: Message)
        ensures
            final(self)@ == old(self)@.absorb(message),
            final(self).registry() == old(self).registry(),
            final(self).channel_number() == old(self).channel_number(),
    {
        match message {
            Message::Position(x, y) => {
                self.position = (x, y);
                self.pending_messages.push(Pending::Position((x, y)));
            },
            Message::State(object) => {
                self.state.insert(object.id, object);
            },
            _ => {},
        }
    }

    /// Takes a message of the reliable channel.
    pub fn absorb_reliable(&mut self, message: ReliableMessage)
        ensures
            final(self)@ == old(self)@.absorb_reliable(message),
            final(self).registry() == old(self).registry(),
            final(self).channel_number() == old(self).channel_number(),
    {
        match message {
            ReliableMessage::State(objects) => {
                let ghost before = self.state@;
                let keys = key_list(&objects);
                let mut next: usize = 0;
                while next < keys.len()
                    invariant
                        next <= keys.len(),
                        enumerates(keys@, objects@.dom()),
                        self.connected == old(self).connected,
                        self.position == old(self).position,
                        self.players == old(self).players,
                        self.pending_messages@ == old(self).pending_messages@,
                        self.multiplexer@ == old(self).multiplexer@,
                        self.connection_bundle == old(self).connection_bundle,
                        forall|k: u32| #[trigger]
                            self.state@.contains_key(k) <==> (before.contains_key(k)
                                || keys@.take(next as int).contains(k)),
                        forall|k: u32| #[trigger]
                            self.state@.contains_key(k) ==> self.state@[k] == (if keys@.take(
                                next as int,
                            ).contains(k) {
                                objects@[k]
                            } else {
                                before[k]
                            }),
                    decreases keys.len() - next,
                {
                    let key = keys[next];
                    assert(keys@.contains(key));
                    let ghost prior = self.state@;
                    let object = objects.get(&key).unwrap().clone();
                    self.state.insert(key, object);
                    proof {
                        lemma_prefix_grows(keys@, next as int);
                        let grown = keys@.take(next as int + 1);
                        assert forall|k: u32| #[trigger]
                            self.state@.contains_key(k) <==> (before.contains_key(k)
                                || grown.contains(k)) by {
                            assert(prior.contains_key(k) <==> (before.contains_key(k)
                                || keys@.take(next as int).contains(k)));
                            assert(self.state@.contains_key(k) <==> (prior.contains_key(k) || k
                                == key));
                            assert(grown.contains(k) <==> (keys@.take(next as int).contains(k)
                                || k == key));
                        }
                        assert forall|k: u32| #[trigger]
                            self.state@.contains_key(k) implies self.state@[k] == (
                        if grown.contains(k) {
                            objects@[k]
                        } else {
                            before[k]
                        }) by {
                            assert(grown.contains(k) <==> (keys@.take(next as int).contains(k)
                                || k == key));
                            if k != key {
                                assert(prior.contains_key(k));
                            }
                        }
                    }
                    next = next + 1;
                }
                assert(keys@.take(keys.len() as int) =~= keys@);
                assert forall|k: u32| #[trigger]
                    self.state@.contains_key(k) <==> before.union_prefer_right(
                        objects@,
                    ).contains_key(k) by {
                    assert(keys@.contains(k) <==> objects@.dom().contains(k));
                }
                assert forall|k: u32| #[trigger]
                    self.state@.contains_key(k) implies self.state@[k]
                    == before.union_prefer_right(objects@)[k] by {
                    assert(keys@.contains(k) <==> objects@.dom().contains(k));
                }
                assert(self.state@ =~= before.union_prefer_right(objects@));
            },
            ReliableMessage::Text(text) => {
                self.pending_messages.push(Pending::Text(text));
            },
            ReliableMessage::Connect => {
                self.connected = true;
            },
            _ => {},
        }
    }

    /// Takes what has come in: at most a batch of messages from the fan-in
    /// queue of the unreliable channel, then at most a batch from that of
    /// the reliable one, each until its queue is empty.
    pub fn process_pending(&mut self)
        ensures
            old(self)@.processed(final(self)@),
            final(self).registry() == old(self).registry(),
            final(self).channel_number() == old(self).channel_number(),
    {
        let ghost mut messages: Seq<Message> = Seq::empty();
        let mut taken: usize = 0;
        while taken < PENDING_BATCH
            invariant
                taken <= PENDING_BATCH,
                messages.len() <= taken,
                self@ == old(self)@.absorb_all(messages),
                self.registry() == old(self).registry(),
                self.channel_number() == old(self).channel_number(),
            decreases PENDING_BATCH - taken,
        {
            match poll(&self.message_receiver) {
                Some(signed) => {
                    proof {
                        assert(messages.push(signed.message).drop_last() =~= messages);
                        messages = messages.push(signed.message);
                    }
                    self.absorb(signed.message);
                },
                None => {
                    break ;
                },
            }
            taken = taken + 1;
        }
        let ghost mut reliable: Seq<ReliableMessage> = Seq::empty();
        let ghost halfway = self@;
        let mut taken: usize = 0;
        while taken < PENDING_BATCH
            invariant
                taken <= PENDING_BATCH,
                reliable.len() <= taken,
                self@ == halfway.absorb_all_reliable(reliable),
                self.registry() == old(self).registry(),
                self.channel_number() == old(self).channel_number(),
            decreases PENDING_BATCH - taken,
        {
            match poll(&self.reliable_message_receiver) {
                Some(signed) => {
                    proof {
                        assert(reliable.push(signed.message).drop_last() =~= reliable);
                        reliable = reliable.push(signed.message);
                    }
                    self.absorb_reliable(signed.message);
                },
                None => {
                    break ;
                },
            }
            taken = taken + 1;
        }
    }

    /// Takes what has come in, and hands out all that waits to be shown,
    /// the oldest first. Nothing waits afterwards.
    pub fn get_pending(&mut self) -> (shown: Vec<Pending>)
        ensures
            exists|after: ClientView| #[trigger]
                old(self)@.processed(after) && shown@ == after.pending && final(self)@ == (
                ClientView { pending: Seq::empty(), ..after }),
            final(self).registry() == old(self).registry(),
            final(self).channel_number() == old(self).channel_number(),
    {
        self.process_pending();
        let ghost after = self@;
        let mut shown: Vec<Pending> = Vec::new();
        core::mem::swap(&mut shown, &mut self.pending_messages);
        assert(old(self)@.processed(after) && shown@ == after.pending && self@ == (ClientView {
            pending: Seq::empty(),
            ..after
        }));
        shown
    }

    /// Takes what has come in, and hands out the world as the client knows
    /// it then.
    pub fn state(&mut self) -> (world: HashMap<u32, Object>)
        ensures
            old(self)@.processed(final(self)@),
            world@ == final(self)@.world,
            final(self).registry() == old(self).registry(),
            final(self).channel_number() == old(self).channel_number(),
    {
        if !self.connected {
            let _ = self.send(String::from_str("Hello!"));
        }
        self.process_pending();
        self.state.clone()
    }

    /// What a click at `(x, y)` puts on the client's queue of the unreliable
    /// channel: the position, `x` first, when the client is connected, and
    /// nothing when it is not.
    pub fn click_request(&self, x: Scalar, y: Scalar) -> (request: Option<Message>)
        ensures
            request == (if self@.connected && self.channel_number() is Some {
                Some(Message::Position(x, y))
            } else {
                None
            }),
    {
        if self.connected && self.connection_bundle.is_some() {
            Some(Message::Position(x, y))
        } else {
            None
        }
    }

    /// What sending `string` puts on the client's queue of the reliable
    /// channel: the text, when the client is connected, and nothing when it
    /// is not.
    pub fn send_request(&self, string: String) -> (request: Option<ReliableMessage>)
        ensures
            request == (if self@.connected && self.channel_number() is Some {
                Some(ReliableMessage::Text(string))
            } else {
                None
            }),
    {
        if self.connected && self.connection_bundle.is_some() {
            Some(ReliableMessage::Text(string))
        } else {
            None
        }
    }

    /// Queues a click at `(x, y)` for the server: what `click_request` gives
    /// goes to the client's queue of the unreliable channel, and nothing goes
    /// anywhere else. The result says whether the click was queued: it is
    /// not when the client is not connected.
    pub fn click(&self, x: Scalar, y: Scalar) -> (queued: bool)
        ensures
            queued ==> self@.connected && self.channel_number() is Some,
    {
        match self.click_request(x, y) {
            Some(request) => match &self.connection_bundle {
                Some(bundle) => offer(&bundle.tx, request),
                None => false,
            },
            None => false,
        }
    }

    /// Queues a text for the server: what `send_request` gives goes to the
    /// client's queue of the reliable channel, and nothing goes anywhere
    /// else. The result says whether the text was queued: it is not when the
    /// client is not connected.
    pub fn send(&self, string: String) -> (queued: bool)
        ensures
            queued ==> self@.connected && self.channel_number() is Some,
    {
        match self.send_request(string) {
            Some(request) => match &self.connection_bundle {
                Some(bundle) => offer(&bundle.reliable_tx, request),
                None => false,
            },
            None => false,
        }
    }
}

} // verus!
