//! The messages that travel between the peers and the server.

use std::collections::HashMap;
use vstd::prelude::*;

verus! {

/// A single-precision IEEE-754 number, carried by its bit pattern.
///
/// Two scalars are equal when their bit patterns are equal.
#[derive(Debug, Clone, Copy, PartialEq, Eq, Structural)]
pub struct Scalar {
    pub bits: u32,
}

impl Scalar {
    /// The scalar with the given bit pattern.
    pub fn from_bits(bits: u32) -> (s: Scalar)
        ensures
            s.bits == bits,
    {
        Scalar { bits }
    }

    /// The bit pattern of the scalar.
    pub fn to_bits(&self) -> (bits: u32)
        ensures
            bits == self.bits,
    {
        self.bits
    }
}

#[derive(Debug, Clone, Copy, PartialEq, Eq)]
pub struct Tree {
    pub position: (Scalar, Scalar),
    pub size: Scalar,
}

#[derive(Debug, PartialEq, Eq)]
pub struct Player {
    pub position: (Scalar, Scalar),
    pub color: String,
}

impl Clone for Player {
    fn clone(&self) -> (copy: Self)
        ensures
            copy == *self,
    {
        Player { position: self.position, color: self.color.clone() }
    }
}

#[derive(Debug, PartialEq, Eq)]
pub enum ObjectInfo {
    Tree(Tree),
    Player(Player),
}

impl Clone for ObjectInfo {
    fn clone(&self) -> (copy: Self)
        ensures
            copy == *self,
    {
        match self {
            ObjectInfo::Tree(tree) => ObjectInfo::Tree(*tree),
            ObjectInfo::Player(player) => ObjectInfo::Player(player.clone()),
        }
    }
}

#[derive(Debug, PartialEq, Eq)]
pub struct Object {
    pub id: u32,
    pub object_info: ObjectInfo,
}

impl Clone for Object {
    fn clone(&self) -> (copy: Self)
        ensures
            copy == *self,
    {
        Object { id: self.id, object_info: self.object_info.clone() }
    }
}

#[derive(Debug, PartialEq, Eq)]
pub struct GameState {
    pub objects: Vec<Object>,
}

/// A message of the unreliable channel: high-rate updates that may be lost.
#[derive(Debug, PartialEq, Eq)]
pub enum Message {
    Sync,
    Position(Scalar, Scalar),
    Player(u32, (Scalar, Scalar)),
    State(Object),
    Unknown,
}

impl Clone for Message {
    fn clone(&self) -> (copy: Self)
        ensures
            copy == *self,
    {
        match self {
            Message::Sync => Message::Sync,
            Message::Position(x, y) => Message::Position(*x, *y),
            Message::Player(id, position) => Message::Player(*id, *position),
            Message::State(object) => Message::State(object.clone()),
            Message::Unknown => Message::Unknown,
        }
    }
}

/// A message of the reliable channel: control notices and bulk data.
#[derive(Debug, PartialEq, Eq)]
pub enum ReliableMessage {
    Disconnected(String),
    Connected(String),
    State(HashMap<u32, Object>),
    Text(String),
    Connect,
}

/// What a reliable message says: its texts as sequences of characters, its
/// snapshot as a map from object id to object.
pub enum ReliableMessageView {
    Disconnected(Seq<char>),
    Connected(Seq<char>),
    State(Map<u32, Object>),
    Text(Seq<char>),
    Connect,
}

impl View for ReliableMessage {
    type V = ReliableMessageView;

    open spec fn view(&self) -> ReliableMessageView {
        match *self {
            ReliableMessage::Disconnected(name) => ReliableMessageView::Disconnected(name@),
            ReliableMessage::Connected(name) => ReliableMessageView::Connected(name@),
            ReliableMessage::State(objects) => ReliableMessageView::State(objects@),
            ReliableMessage::Text(text) => ReliableMessageView::Text(text@),
            ReliableMessage::Connect => ReliableMessageView::Connect,
        }
    }
}

impl Clone for ReliableMessage {
    fn clone(&self) -> (copy: Self)
        ensures
            copy@ == self@,
    {
        match self {
            ReliableMessage::Disconnected(name) => ReliableMessage::Disconnected(name.clone()),
            ReliableMessage::Connected(name) => ReliableMessage::Connected(name.clone()),
            ReliableMessage::State(objects) => ReliableMessage::State(objects.clone()),
            ReliableMessage::Text(text) => ReliableMessage::Text(text.clone()),
            ReliableMessage::Connect => ReliableMessage::Connect,
        }
    }
}

/// Where an outgoing message goes: to every connected peer, or to one.
#[derive(Debug, Clone, Copy, PartialEq, Eq, Structural)]
pub enum Target {
    All,
    Client(usize),
}

/// A payload together with the peer it came from, or is meant for.
#[derive(Debug, PartialEq, Eq)]
pub struct SignedMessage<T> {
    pub id: usize,
    pub message: T,
}

impl<T: Clone> Clone for SignedMessage<T> {
    fn clone(&self) -> (copy: Self)
        ensures
            copy.id == self.id,
            cloned::<T>(self.message, copy.message),
    {
        SignedMessage { id: self.id, message: self.message.clone() }
    }
}

/// A request on a processor's control channel.
#[derive(Debug, Clone, Copy, PartialEq, Eq, Structural)]
pub enum InternalMessage {
    Shutdown,
}

/// An owned buffer of raw bytes, as it travels on the wire.
pub type RawMessage = Vec<u8>;

} // verus!
