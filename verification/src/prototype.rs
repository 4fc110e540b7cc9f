//! The first client: a heartbeat of one byte, sent as it is over the data
//! channel, and what comes back shown as text.

use vstd::prelude::*;

verus! {

/// The byte that stands for a heartbeat.
pub const SYNC_BYTE: u8 = 1;

/// The room that a client's buffer starts with.
pub const BUFFER_CAPACITY: usize = 65536;

/// How many messages and packets each of the first client's queues holds.
pub const QUEUE_SIZE: usize = 8;

/// The number of the first client's logical channel.
pub const CHANNEL: u8 = 1;

/// What the first client sends.
#[derive(Debug, Clone, Copy, PartialEq, Eq, Structural)]
pub enum Message {
    Sync,
}

/// What the first client shows.
#[derive(Debug, PartialEq, Eq)]
pub enum Event {
    String(String),
}

/// The bytes of a message on the wire.
pub open spec fn encoding(message: Message) -> Seq<u8> {
    match message {
        Message::Sync => seq![SYNC_BYTE],
    }
}

/// A buffer that holds the bytes of one message at a time.
pub struct MessageBuffer(pub Vec<u8>);

impl View for MessageBuffer {
    type V = Seq<u8>;

    open spec fn view(&self) -> Seq<u8> {
        self.0@
    }
}

impl MessageBuffer {
    /// An empty buffer with room for `n` bytes.
    pub fn with_capacity(n: usize) -> (buffer: Self)
        ensures
            buffer@ == Seq::<u8>::empty(),
    {
        MessageBuffer(Vec::with_capacity(n))
    }

    /// Puts the bytes of `message` into the buffer, in place of what it held.
    pub fn load(&mut self, message: Message)
        ensures
            final(self)@ == encoding(message),
    {
        self.0.clear();
        match message {
            Message::Sync => self.0.push(SYNC_BYTE),
        }
    }

    /// The bytes that the buffer holds.
    pub fn as_ref(&self) -> (bytes: &[u8])
        ensures
            bytes@ == self@,
    {
        self.0.as_slice()
    }
}

} // verus!
