//! The per-peer message processor.
//!
//! A processor serves exactly one peer. Its host waits on seven sources and a
//! flush timer at once; whichever completes first is an [`Event`]. The
//! processor turns each event into exactly one [`Action`], and each action
//! into exactly one [`Effect`] for the host to carry out on the queues and on
//! the reliability engine.

use crate::buffer::{SimpleBufferPool, DEFAULT_PACKET_CAPACITY};
use crate::message::{InternalMessage, Message, RawMessage, ReliableMessage, SignedMessage};
use crate::settings::{
    message_channel_settings, message_settings, reliable_message_channel_settings,
    reliable_message_settings, ChannelSettings,
};
use async_channel::{Receiver, Sender};
use vstd::prelude::*;

verus! {

/// The time after which an idle processor flushes its logical channels, in
/// milliseconds.
pub const FLUSH_INTERVAL_MILLIS: u64 = 5;

/// The same time in microseconds.
pub const FLUSH_INTERVAL_MICROS: u64 = 5000;

/// How long the flush timer has still to run when the last flush was
/// `since_last_flush` microseconds ago: the rest of the interval, and nothing
/// once the interval is over.
pub open spec fn flush_due_in(since_last_flush: u64) -> u64 {
    if since_last_flush >= FLUSH_INTERVAL_MICROS {
        0
    } else {
        (FLUSH_INTERVAL_MICROS - since_last_flush) as u64
    }
}

/// The wait of the flush timer, in microseconds, when the last flush was
/// `since_last_flush` microseconds ago. The timer is not started afresh by
/// other traffic: however often the loop comes round, the flush is due one
/// interval after the last one and no later.
pub fn flush_wait(since_last_flush: u64) -> (wait: u64)
    ensures
        wait == flush_due_in(since_last_flush),
        wait <= FLUSH_INTERVAL_MICROS,
        since_last_flush < FLUSH_INTERVAL_MICROS ==> since_last_flush + wait
            == FLUSH_INTERVAL_MICROS,
        since_last_flush >= FLUSH_INTERVAL_MICROS ==> wait == 0,
{
    if since_last_flush >= FLUSH_INTERVAL_MICROS {
        0
    } else {
        FLUSH_INTERVAL_MICROS - since_last_flush
    }
}

/// Two queues, one for each direction, with all four endpoints.
#[verifier::reject_recursive_types(T)]
pub struct BidirectionalChannel<T> {
    pub incoming_reciever: Receiver<T>,
    pub incoming_sender: Sender<T>,
    pub outgoing_receiver: Receiver<T>,
    pub outgoing_sender: Sender<T>,
}

impl<T> BidirectionalChannel<T> {
    /// Two fresh unbounded queues.
    pub fn new() -> Self {
        let (incoming_sender, incoming_reciever) = async_channel::unbounded();
        let (outgoing_sender, outgoing_receiver) = async_channel::unbounded();
        BidirectionalChannel { incoming_reciever, incoming_sender, outgoing_receiver, outgoing_sender }
    }
}

/// One queue with both of its endpoints.
#[verifier::reject_recursive_types(T)]
pub struct DirectionalChannel<T> {
    receiver: Receiver<T>,
    sender: Sender<T>,
}

impl<T> DirectionalChannel<T> {
    /// The sending endpoint of the queue.
    pub closed spec fn sender_end(&self) -> Sender<T> {
        self.sender
    }

    /// A fresh unbounded queue.
    pub fn new() -> Self {
        let (sender, receiver) = async_channel::unbounded();
        DirectionalChannel { receiver, sender }
    }

    /// One more sending endpoint of the queue.
    pub fn sender(&self) -> (sender: Sender<T>)
        ensures
            sender == self.sender_end(),
    {
        self.sender.clone()
    }

    /// One more receiving endpoint of the queue.
    pub fn receiver(&self) -> Receiver<T> {
        self.receiver.clone()
    }
}

/// The four write-only handles through which a multiplexer feeds a processor.
pub struct ChannelBundle {
    pub message_sender: Sender<Message>,
    pub byte_sender: Sender<RawMessage>,
    pub reliable_message_sender: Sender<ReliableMessage>,
    pub internal_sender: Sender<InternalMessage>,
}

/// The read ends of a processor's own queues and the write ends of the three
/// fan-in queues, for the host that runs the processor.
pub struct ProcessorEndpoints {
    pub outgoing_messages: Receiver<Message>,
    pub outgoing_reliable_messages: Receiver<ReliableMessage>,
    pub incoming_bytes: Receiver<RawMessage>,
    pub control: Receiver<InternalMessage>,
    pub byte_fanin: Sender<SignedMessage<RawMessage>>,
    pub message_fanin: Sender<SignedMessage<Message>>,
    pub reliable_message_fanin: Sender<SignedMessage<ReliableMessage>>,
}

/// A typed message of either logical channel.
#[derive(Debug, PartialEq, Eq)]
pub enum WrappedMessage {
    Message(Message),
    ReliableMessage(ReliableMessage),
}

/// The wait that completed in one iteration, with what it brought. `None`
/// stands for a wait that ended in an error: a closed queue, a disconnected
/// engine.
#[derive(Debug, PartialEq, Eq)]
pub enum Event {
    /// The engine decoded a message of the unreliable channel.
    IncomingMessage(Option<Message>),
    /// The engine decoded a message of the reliable channel.
    IncomingReliableMessage(Option<ReliableMessage>),
    /// The multiplexer queued a message for the unreliable channel.
    OutgoingMessage(Option<Message>),
    /// The multiplexer queued a message for the reliable channel.
    OutgoingReliableMessage(Option<ReliableMessage>),
    /// A raw packet arrived from the transport.
    IncomingBytes(Option<RawMessage>),
    /// The engine produced a raw packet for the transport.
    OutgoingBytes(Option<RawMessage>),
    /// A request arrived on the control channel.
    Internal(Option<InternalMessage>),
    /// The flush timer fired.
    Timer,
}

/// What the processor does in one iteration.
#[derive(Debug, PartialEq, Eq)]
pub enum Action {
    EmitBytes(RawMessage),
    DispatchBytes(RawMessage),
    DispatchMessage(WrappedMessage),
    EmitMessage(WrappedMessage),
    Error,
    Shutdown,
    Flush,
}

/// What an action asks of the host.
#[derive(Debug, PartialEq, Eq)]
pub enum Effect {
    /// Publish the signed packet on the outbound-bytes fan-in queue.
    PublishBytes(SignedMessage<RawMessage>),
    /// Publish the signed message on the fan-in queue of the unreliable channel.
    PublishMessage(SignedMessage<Message>),
    /// Publish the signed message on the fan-in queue of the reliable channel.
    PublishReliableMessage(SignedMessage<ReliableMessage>),
    /// Copy the bytes into a fresh pool buffer and push it onto the engine's
    /// incoming packet queue.
    Frame(RawMessage),
    /// Hand the message to the engine for encoding.
    Encode(WrappedMessage),
    /// Flush both logical channels.
    Flush,
    /// Nothing to do but to go on with the next iteration.
    Continue,
    /// Leave the loop: the processor's task ends.
    Stop,
}

/// The action for an event: a message that the engine decoded is emitted, a
/// message or packet queued for the peer is dispatched, a packet from the
/// engine is emitted, a shutdown request shuts down, the timer flushes, and a
/// wait that ended in an error is an error.
pub open spec fn action_for(event: Event) -> Action {
    match event {
        Event::IncomingMessage(Some(message)) => Action::EmitMessage(
            WrappedMessage::Message(message),
        ),
        Event::IncomingReliableMessage(Some(message)) => Action::EmitMessage(
            WrappedMessage::ReliableMessage(message),
        ),
        Event::OutgoingMessage(Some(message)) => Action::DispatchMessage(
            WrappedMessage::Message(message),
        ),
        Event::OutgoingReliableMessage(Some(message)) => Action::DispatchMessage(
            WrappedMessage::ReliableMessage(message),
        ),
        Event::IncomingBytes(Some(bytes)) => Action::DispatchBytes(bytes),
        Event::OutgoingBytes(Some(bytes)) => Action::EmitBytes(bytes),
        Event::Internal(Some(InternalMessage::Shutdown)) => Action::Shutdown,
        Event::Timer => Action::Flush,
        _ => Action::Error,
    }
}

/// The effect of an action in the processor of peer `id`: what is emitted is
/// signed with `id` and published, what is dispatched goes to the engine, an
/// error changes nothing, and only a shutdown stops the processor.
pub open spec fn effect_for(id: usize, action: Action) -> Effect {
    match action {
        Action::EmitBytes(bytes) => Effect::PublishBytes(SignedMessage { id, message: bytes }),
        Action::DispatchBytes(bytes) => Effect::Frame(bytes),
        Action::DispatchMessage(message) => Effect::Encode(message),
        Action::EmitMessage(WrappedMessage::Message(message)) => Effect::PublishMessage(
            SignedMessage { id, message },
        ),
        Action::EmitMessage(WrappedMessage::ReliableMessage(message)) => {
            Effect::PublishReliableMessage(SignedMessage { id, message })
        },
        Action::Error => Effect::Continue,
        Action::Flush => Effect::Flush,
        Action::Shutdown => Effect::Stop,
    }
}

/// Whether an event brought a complete message that the engine decoded.
pub open spec fn is_decoded_message(event: Event) -> bool {
    event matches Event::IncomingMessage(Some(_)) || event matches Event::IncomingReliableMessage(
        Some(_),
    )
}

/// How many events of a run brought a decoded message.
pub open spec fn decoded_messages(events: Seq<Event>) -> nat
    decreases events.len(),
{
    if events.len() == 0 {
        0
    } else {
        decoded_messages(events.drop_last()) + if is_decoded_message(events.last()) {
            1nat
        } else {
            0nat
        }
    }
}

/// How many events of a run lead to an `EmitMessage` action.
pub open spec fn emitted_messages(events: Seq<Event>) -> nat
    decreases events.len(),
{
    if events.len() == 0 {
        0
    } else {
        emitted_messages(events.drop_last()) + if action_for(events.last()) is EmitMessage {
            1nat
        } else {
            0nat
        }
    }
}

/// Over any run of events, the processor emits exactly as many messages as
/// the engine decoded: one `EmitMessage` action for each complete message,
/// and none for anything else.
pub proof fn lemma_one_emit_per_decoded_message(events: Seq<Event>)
    ensures
        emitted_messages(events) == decoded_messages(events),
    decreases events.len(),
{
    if events.len() > 0 {
        lemma_one_emit_per_decoded_message(events.drop_last());
    }
}

/// The processor stops on a shutdown request and on nothing else, and it
/// flushes whenever the timer fires and at no other time.
pub proof fn lemma_stop_and_flush(id: usize, event: Event)
    ensures
        effect_for(id, action_for(event)) is Stop <==> event matches Event::Internal(
            Some(InternalMessage::Shutdown),
        ),
        effect_for(id, action_for(event)) is Flush <==> event is Timer,
{
}

/// The messages of the unreliable channel that the engine decoded in a run,
/// in their order.
pub open spec fn decoded_in(events: Seq<Event>) -> Seq<Message>
    decreases events.len(),
{
    if events.len() == 0 {
        Seq::empty()
    } else {
        match events.last() {
            Event::IncomingMessage(Some(message)) => decoded_in(events.drop_last()).push(message),
            _ => decoded_in(events.drop_last()),
        }
    }
}

/// The messages that the processor of peer `id` publishes on the fan-in
/// queue of the unreliable channel in a run, in their order.
pub open spec fn published_in(id: usize, events: Seq<Event>) -> Seq<SignedMessage<Message>>
    decreases events.len(),
{
    if events.len() == 0 {
        Seq::empty()
    } else {
        match effect_for(id, action_for(events.last())) {
            Effect::PublishMessage(signed) => published_in(id, events.drop_last()).push(signed),
            _ => published_in(id, events.drop_last()),
        }
    }
}

/// The packets that came from the transport in a run, in their order.
pub open spec fn received_in(events: Seq<Event>) -> Seq<RawMessage>
    decreases events.len(),
{
    if events.len() == 0 {
        Seq::empty()
    } else {
        match events.last() {
            Event::IncomingBytes(Some(bytes)) => received_in(events.drop_last()).push(bytes),
            _ => received_in(events.drop_last()),
        }
    }
}

/// The packets that the processor hands to the engine in a run, in their
/// order.
pub open spec fn framed_in(id: usize, events: Seq<Event>) -> Seq<RawMessage>
    decreases events.len(),
{
    if events.len() == 0 {
        Seq::empty()
    } else {
        match effect_for(id, action_for(events.last())) {
            Effect::Frame(bytes) => framed_in(id, events.drop_last()).push(bytes),
            _ => framed_in(id, events.drop_last()),
        }
    }
}

/// Within one direction of one logical channel the processor keeps the
/// order and loses nothing: over any run of events, what it publishes on the
/// fan-in queue of the unreliable channel is what the engine decoded, message
/// for message and signed with the peer's id, and what it hands to the engine
/// is what came from the transport, packet for packet.
pub proof fn lemma_order_is_kept(id: usize, events: Seq<Event>)
    ensures
        published_in(id, events) == decoded_in(events).map_values(
            |message: Message| SignedMessage { id, message },
        ),
        framed_in(id, events) == received_in(events),
    decreases events.len(),
{
    let sign = |message: Message| SignedMessage { id, message };
    if events.len() > 0 {
        lemma_order_is_kept(id, events.drop_last());
        let before = decoded_in(events.drop_last());
        match events.last() {
            Event::IncomingMessage(Some(message)) => {
                assert(before.push(message).map_values(sign) =~= before.map_values(sign).push(
                    sign(message),
                ));
            },
            _ => {},
        }
    } else {
        assert(published_in(id, events) =~= decoded_in(events).map_values(sign));
    }
}

/// Whether an event ends the processor: it is a shutdown request.
pub open spec fn stops(event: Event) -> bool {
    event matches Event::Internal(Some(InternalMessage::Shutdown))
}

/// How many events of a run the processor serves: all up to the first
/// shutdown request, and that request.
pub open spec fn served_len(events: Seq<Event>) -> nat
    decreases events.len(),
{
    if events.len() == 0 {
        0
    } else if stops(events.first()) {
        1
    } else {
        1 + served_len(events.drop_first())
    }
}

/// The effects of a run in the processor of peer `id`: one for each event,
/// in their order.
pub open spec fn effects_of(id: usize, events: Seq<Event>) -> Seq<Effect> {
    Seq::new(events.len(), |i: int| effect_for(id, action_for(events[i])))
}

/// The messages of the unreliable channel that a list of effects publishes,
/// in their order.
pub open spec fn published_messages(effects: Seq<Effect>) -> Seq<SignedMessage<Message>>
    decreases effects.len(),
{
    if effects.len() == 0 {
        Seq::empty()
    } else {
        match effects.last() {
            Effect::PublishMessage(signed) => published_messages(effects.drop_last()).push(signed),
            _ => published_messages(effects.drop_last()),
        }
    }
}

/// The packets that a list of effects hands to the engine, in their order.
pub open spec fn framed_packets(effects: Seq<Effect>) -> Seq<RawMessage>
    decreases effects.len(),
{
    if effects.len() == 0 {
        Seq::empty()
    } else {
        match effects.last() {
            Effect::Frame(bytes) => framed_packets(effects.drop_last()).push(bytes),
            _ => framed_packets(effects.drop_last()),
        }
    }
}

/// What the effects of a run publish and frame is what the run publishes and
/// frames.
pub proof fn lemma_effects_of_run(id: usize, events: Seq<Event>)
    ensures
        published_messages(effects_of(id, events)) == published_in(id, events),
        framed_packets(effects_of(id, events)) == framed_in(id, events),
    decreases events.len(),
{
    if events.len() > 0 {
        lemma_effects_of_run(id, events.drop_last());
        assert(effects_of(id, events).drop_last() =~= effects_of(id, events.drop_last()));
    }
}

/// The processor serves every event before the first shutdown request.
pub proof fn lemma_served_len(events: Seq<Event>, n: int)
    requires
        0 <= n <= events.len(),
        forall|j: int| 0 <= j < n ==> !stops(#[trigger] events[j]),
    ensures
        served_len(events) == n + served_len(events.skip(n)),
        served_len(events) <= events.len(),
    decreases n,
{
    lemma_served_len_bound(events);
    if n == 0 {
        assert(events.skip(0) =~= events);
    } else {
        lemma_served_len(events, n - 1);
        let rest = events.skip(n - 1);
        assert(rest.first() == events[n - 1]);
        assert(rest.drop_first() =~= events.skip(n));
    }
}

/// The processor serves no more events than there are.
pub proof fn lemma_served_len_bound(events: Seq<Event>)
    ensures
        served_len(events) <= events.len(),
    decreases events.len(),
{
    if events.len() > 0 && !stops(events.first()) {
        lemma_served_len_bound(events.drop_first());
    }
}

/// What the processor of peer `id` publishes is signed with `id`, and is
/// exactly what the engine handed it: one packet for each packet that the
/// engine produced, one message for each message that the engine decoded.
pub proof fn lemma_published_is_signed(id: usize, event: Event)
    ensures
        effect_for(id, action_for(event)) matches Effect::PublishBytes(packet) ==> packet.id == id
            && event == Event::OutgoingBytes(Some(packet.message)),
        effect_for(id, action_for(event)) matches Effect::PublishMessage(signed) ==> signed.id
            == id && event == Event::IncomingMessage(Some(signed.message)),
        effect_for(id, action_for(event)) matches Effect::PublishReliableMessage(signed)
            ==> signed.id == id && event == Event::IncomingReliableMessage(Some(signed.message)),
        event matches Event::OutgoingBytes(Some(bytes)) ==> effect_for(id, action_for(event))
            == Effect::PublishBytes(SignedMessage { id, message: bytes }),
{
}

/// The state of one peer's processor: the peer's id, the pool that frames its
/// incoming packets, its own four queues and the three fan-in queues.
pub struct MessageProcessor {
    id: usize,
    pool: SimpleBufferPool,
    message_settings: ChannelSettings,
    reliable_message_settings: ChannelSettings,
    reliable_message_channel: DirectionalChannel<ReliableMessage>,
    message_channel: DirectionalChannel<Message>,
    byte_channel_outgoing: Sender<SignedMessage<RawMessage>>,
    message_outgoing: Sender<SignedMessage<Message>>,
    reliable_message_outgoing: Sender<SignedMessage<ReliableMessage>>,
    incoming_byte_channel: DirectionalChannel<RawMessage>,
    internal_channel: DirectionalChannel<InternalMessage>,
}

impl MessageProcessor {
    /// The peer that the processor serves.
    pub closed spec fn peer_id(&self) -> usize {
        self.id
    }

    /// The capacity of the buffers that frame incoming packets.
    pub closed spec fn packet_capacity(&self) -> nat {
        self.pool.capacity()
    }

    /// The settings of the processor's unreliable channel.
    pub closed spec fn unreliable_channel(&self) -> ChannelSettings {
        self.message_settings
    }

    /// The settings of the processor's reliable channel.
    pub closed spec fn reliable_channel(&self) -> ChannelSettings {
        self.reliable_message_settings
    }

    /// The write ends of the processor's own queues: where its multiplexer
    /// puts messages for either logical channel, raw packets from the
    /// transport, and requests to the processor itself.
    pub closed spec fn bundle(&self) -> ChannelBundle {
        ChannelBundle {
            message_sender: self.message_channel.sender,
            byte_sender: self.incoming_byte_channel.sender,
            reliable_message_sender: self.reliable_message_channel.sender,
            internal_sender: self.internal_channel.sender,
        }
    }

    /// The write end of the fan-in queue on which the processor publishes
    /// outgoing raw packets.
    pub closed spec fn byte_fanin(&self) -> Sender<SignedMessage<RawMessage>> {
        self.byte_channel_outgoing
    }

    /// The write end of the fan-in queue on which the processor publishes
    /// the messages of the unreliable channel.
    pub closed spec fn message_fanin(&self) -> Sender<SignedMessage<Message>> {
        self.message_outgoing
    }

    /// The write end of the fan-in queue on which the processor publishes
    /// the messages of the reliable channel.
    pub closed spec fn reliable_message_fanin(&self) -> Sender<SignedMessage<ReliableMessage>> {
        self.reliable_message_outgoing
    }

    /// Whether the processor can carry out `action`: a packet to dispatch
    /// must fit into one pool buffer.
    pub open spec fn admits(&self, action: Action) -> bool {
        action matches Action::DispatchBytes(bytes) ==> bytes@.len() <= self.packet_capacity()
    }

    /// A processor for peer `id` with four fresh queues of its own, publishing
    /// on the given fan-in queues.
    pub fn new(
        id: usize,
        byte_channel_outgoing: Sender<SignedMessage<RawMessage>>,
        reliable_message_outgoing: Sender<SignedMessage<ReliableMessage>>,
        message_outgoing: Sender<SignedMessage<Message>>,
    ) -> (processor: Self)
        ensures
            processor.peer_id() == id,
            processor.packet_capacity() == DEFAULT_PACKET_CAPACITY,
            processor.byte_fanin() == byte_channel_outgoing,
            processor.reliable_message_fanin() == reliable_message_outgoing,
            processor.message_fanin() == message_outgoing,
            processor.unreliable_channel() == message_settings(),
            processor.reliable_channel() == reliable_message_settings(),
    {
        MessageProcessor {
            id,
            pool: SimpleBufferPool(DEFAULT_PACKET_CAPACITY),
            message_settings: message_channel_settings(),
            reliable_message_settings: reliable_message_channel_settings(),
            reliable_message_channel: DirectionalChannel::new(),
            message_channel: DirectionalChannel::new(),
            byte_channel_outgoing,
            message_outgoing,
            reliable_message_outgoing,
            incoming_byte_channel: DirectionalChannel::new(),
            internal_channel: DirectionalChannel::new(),
        }
    }

    /// The peer that the processor serves.
    pub fn id(&self) -> (id: usize)
        ensures
            id == self.peer_id(),
    {
        self.id
    }

    /// The settings with which the engine is to run the unreliable channel.
    pub fn message_settings(&self) -> (settings: ChannelSettings)
        ensures
            settings == self.unreliable_channel(),
    {
        self.message_settings
    }

    /// The settings with which the engine is to run the reliable channel.
    pub fn reliable_message_settings(&self) -> (settings: ChannelSettings)
        ensures
            settings == self.reliable_channel(),
    {
        self.reliable_message_settings
    }

    /// The pool that frames incoming packets.
    pub fn pool(&self) -> (pool: SimpleBufferPool)
        ensures
            pool.capacity() == self.packet_capacity(),
    {
        self.pool
    }

    /// The write ends of the processor's queues, for its multiplexer: one
    /// more endpoint of each of the four.
    pub fn channel_bundle(&self) -> (bundle: ChannelBundle)
        ensures
            bundle == self.bundle(),
    {
        ChannelBundle {
            message_sender: self.message_channel.sender(),
            reliable_message_sender: self.reliable_message_channel.sender(),
            byte_sender: self.incoming_byte_channel.sender(),
            internal_sender: self.internal_channel.sender(),
        }
    }

    /// The read ends of the processor's queues and the write ends of the
    /// fan-in queues, for the host that runs it: one more endpoint of each.
    /// The write ends are those that the processor publishes on.
    pub fn endpoints(&self) -> (endpoints: ProcessorEndpoints)
        ensures
            endpoints.byte_fanin == self.byte_fanin(),
            endpoints.message_fanin == self.message_fanin(),
            endpoints.reliable_message_fanin == self.reliable_message_fanin(),
    {
        ProcessorEndpoints {
            outgoing_messages: self.message_channel.receiver(),
            outgoing_reliable_messages: self.reliable_message_channel.receiver(),
            incoming_bytes: self.incoming_byte_channel.receiver(),
            control: self.internal_channel.receiver(),
            byte_fanin: self.byte_channel_outgoing.clone(),
            message_fanin: self.message_outgoing.clone(),
            reliable_message_fanin: self.reliable_message_outgoing.clone(),
        }
    }

    /// The one action for the wait that completed.
    pub fn select_action(event: Event) -> (action: Action)
        ensures
            action == action_for(event),
    {
        match event {
            Event::IncomingMessage(Some(message)) => Action::EmitMessage(
                WrappedMessage::Message(message),
            ),
            Event::IncomingReliableMessage(Some(message)) => Action::EmitMessage(
                WrappedMessage::ReliableMessage(message),
            ),
            Event::OutgoingMessage(Some(message)) => Action::DispatchMessage(
                WrappedMessage::Message(message),
            ),
            Event::OutgoingReliableMessage(Some(message)) => Action::DispatchMessage(
                WrappedMessage::ReliableMessage(message),
            ),
            Event::IncomingBytes(Some(bytes)) => Action::DispatchBytes(bytes),
            Event::OutgoingBytes(Some(bytes)) => Action::EmitBytes(bytes),
            Event::Internal(Some(InternalMessage::Shutdown)) => Action::Shutdown,
            Event::Timer => Action::Flush,
            _ => Action::Error,
        }
    }

    /// One iteration: the effect of the wait that completed, or nothing
    /// where the event is a packet from the transport that does not fit into
    /// a pool buffer.
    pub fn step(&self, event: Event) -> (effect: Option<Effect>)
        ensures
            effect == (if self.admits(action_for(event)) {
                Some(effect_for(self.peer_id(), action_for(event)))
            } else {
                None
            }),
    {
        let action = MessageProcessor::select_action(event);
        if self.can_perform(&action) {
            Some(self.perform(action))
        } else {
            None
        }
    }

    /// The loop of the processor over a run of events: each event in turn
    /// becomes one action and that action one effect, until a shutdown
    /// request has been served; the events after it are not looked at. The
    /// packets of the run fit into the pool's buffers. The result lists the
    /// effects in the order of the events. So what is published on the
    /// fan-in queue of the unreliable channel is what the engine decoded,
    /// message for message, in its order and signed with the peer's id, and
    /// what is handed to the engine is what came from the transport.
    pub fn run(&self, events: Vec<Event>) -> (effects: Vec<Effect>)
        requires
            forall|i: int| 0 <= i < events@.len() ==> self.admits(action_for(#[trigger] events@[i])),
        ensures
            effects@ == effects_of(
                self.peer_id(),
                events@.take(served_len(events@) as int),
            ),
            served_len(events@) < events@.len() ==> effects@.last() is Stop,
            forall|i: int| 0 <= i < effects@.len() - 1 ==> !(#[trigger] effects@[i] is Stop),
            published_messages(effects@) == decoded_in(
                events@.take(served_len(events@) as int),
            ).map_values(|message: Message| SignedMessage { id: self.peer_id(), message }),
            framed_packets(effects@) == received_in(events@.take(served_len(events@) as int)),
    {
        let ghost all = events@;
        let mut effects: Vec<Effect> = Vec::new();
        let mut stopped = false;
        proof {
            lemma_served_len_bound(all);
            assert(effects@ =~= effects_of(self.peer_id(), all.take(0)));
        }
        for event in it: events
            invariant
                it.seq() == all,
                served_len(all) <= all.len(),
                forall|i: int| 0 <= i < all.len() ==> self.admits(action_for(#[trigger] all[i])),
                stopped ==> served_len(all) <= it.index() && effects@ == effects_of(
                    self.peer_id(),
                    all.take(served_len(all) as int),
                ),
                stopped ==> effects@.len() > 0 && effects@.last() is Stop,
                forall|i: int|
                    0 <= i < effects@.len() - (if stopped {
                        1int
                    } else {
                        0int
                    }) ==> !(#[trigger] effects@[i] is Stop),
                !stopped ==> effects@ == effects_of(self.peer_id(), all.take(it.index())),
                !stopped ==> forall|j: int| 0 <= j < it.index() ==> !stops(#[trigger] all[j]),
        {
            if !stopped {
                let ghost n = it.index();
                let action = MessageProcessor::select_action(event);
                let effect = self.perform(action);
                let last = match &effect {
                    Effect::Stop => true,
                    _ => false,
                };
                proof {
                    lemma_served_len(all, n);
                    assert(all.skip(n).first() == all[n]);
                    assert(all.skip(n).drop_first() =~= all.skip(n + 1));
                    if !last {
                        lemma_served_len(all, n + 1);
                    }
                    assert(effects@.push(effect) =~= effects_of(self.peer_id(), all.take(n + 1)));
                }
                effects.push(effect);
                stopped = last;
            }
        }
        proof {
            if !stopped {
                lemma_served_len(all, all.len() as int);
                assert(all.take(all.len() as int) =~= all);
            }
            lemma_effects_of_run(self.peer_id(), all.take(served_len(all) as int));
            lemma_order_is_kept(self.peer_id(), all.take(served_len(all) as int));
        }
        effects
    }

    /// What follows a publish on a fan-in queue. `taken` says whether the
    /// queue took what was published. A queue that did not is closed: that is
    /// an error, and like every error it changes nothing and ends nothing.
    /// Either way the processor goes on with its next iteration.
    pub fn after_publish(&self, taken: bool) -> (effect: Effect)
        ensures
            effect == Effect::Continue,
            !taken ==> effect == effect_for(self.peer_id(), Action::Error),
    {
        if taken {
            Effect::Continue
        } else {
            self.perform(Action::Error)
        }
    }

    /// Whether the processor can carry out `action`.
    pub fn can_perform(&self, action: &Action) -> (ok: bool)
        ensures
            ok == self.admits(*action),
    {
        match action {
            Action::DispatchBytes(bytes) => self.pool.fits(bytes),
            _ => true,
        }
    }

    /// The one effect of an action. A packet that does not fit into a pool
    /// buffer is a violated invariant of the caller, and is kept out.
    pub fn perform(&self, action: Action) -> (effect: Effect)
        requires
            self.admits(action),
        ensures
            effect == effect_for(self.peer_id(), action),
    {
        match action {
            Action::EmitBytes(bytes) => Effect::PublishBytes(
                SignedMessage { id: self.id, message: bytes },
            ),
            Action::DispatchBytes(bytes) => Effect::Frame(bytes),
            Action::DispatchMessage(message) => Effect::Encode(message),
            Action::EmitMessage(WrappedMessage::Message(message)) => Effect::PublishMessage(
                SignedMessage { id: self.id, message },
            ),
            Action::EmitMessage(WrappedMessage::ReliableMessage(message)) => {
                Effect::PublishReliableMessage(SignedMessage { id: self.id, message })
            },
            Action::Error => Effect::Continue,
            Action::Flush => Effect::Flush,
            Action::Shutdown => Effect::Stop,
        }
    }
}

/// Builds the processors of one multiplexer: each publishes on the same three
/// fan-in queues.
pub struct MessageProcessorFactory {
    byte_channel_outgoing: Sender<SignedMessage<RawMessage>>,
    message_channel_outgoing: Sender<SignedMessage<Message>>,
    reliable_channel_outgoing: Sender<SignedMessage<ReliableMessage>>,
}

impl MessageProcessorFactory {
    /// The write end of the fan-in queue for outgoing raw packets.
    pub closed spec fn byte_fanin(&self) -> Sender<SignedMessage<RawMessage>> {
        self.byte_channel_outgoing
    }

    /// The write end of the fan-in queue of the unreliable channel.
    pub closed spec fn message_fanin(&self) -> Sender<SignedMessage<Message>> {
        self.message_channel_outgoing
    }

    /// The write end of the fan-in queue of the reliable channel.
    pub closed spec fn reliable_message_fanin(&self) -> Sender<SignedMessage<ReliableMessage>> {
        self.reliable_channel_outgoing
    }

    /// A factory whose processors publish on the given fan-in queues.
    pub fn new(
        byte_channel_outgoing: Sender<SignedMessage<RawMessage>>,
        message_channel_outgoing: Sender<SignedMessage<Message>>,
        reliable_channel_outgoing: Sender<SignedMessage<ReliableMessage>>,
    ) -> (factory: Self)
        ensures
            factory.byte_fanin() == byte_channel_outgoing,
            factory.message_fanin() == message_channel_outgoing,
            factory.reliable_message_fanin() == reliable_channel_outgoing,
    {
        MessageProcessorFactory {
            byte_channel_outgoing,
            message_channel_outgoing,
            reliable_channel_outgoing,
        }
    }

    /// A processor for peer `id`, which publishes on the factory's fan-in
    /// queues.
    pub fn build(&self, id: usize) -> (processor: MessageProcessor)
        ensures
            processor.peer_id() == id,
            processor.packet_capacity() == DEFAULT_PACKET_CAPACITY,
            processor.byte_fanin() == self.byte_fanin(),
            processor.message_fanin() == self.message_fanin(),
            processor.reliable_message_fanin() == self.reliable_message_fanin(),
            processor.unreliable_channel() == message_settings(),
            processor.reliable_channel() == reliable_message_settings(),
    {
        MessageProcessor::new(
            id,
            self.byte_channel_outgoing.clone(),
            self.reliable_channel_outgoing.clone(),
            self.message_channel_outgoing.clone(),
        )
    }
}

} // verus!
