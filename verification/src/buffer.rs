//! Fixed-capacity byte buffers for packet framing.

use vstd::prelude::*;

verus! {

/// The packet capacity that a processor frames incoming bytes with.
pub const DEFAULT_PACKET_CAPACITY: usize = 32;

/// A pool of byte buffers that all have the same capacity, the pool's one field.
#[derive(Debug, Clone, Copy, PartialEq, Eq, Structural)]
pub struct SimpleBufferPool(pub usize);

impl SimpleBufferPool {
    /// The capacity of every buffer of the pool.
    pub open spec fn capacity(&self) -> nat {
        self.0 as nat
    }

    /// A fresh buffer: exactly `capacity` bytes, all zero.
    pub fn acquire(&self) -> (buffer: Vec<u8>)
        ensures
            buffer@.len() == self.capacity(),
            forall|i: int| 0 <= i < buffer@.len() ==> buffer@[i] == 0u8,
    {
        let mut buffer: Vec<u8> = Vec::new();
        let mut filled: usize = 0;
        while filled < self.0
            invariant
                filled <= self.0,
                buffer@.len() == filled,
                forall|i: int| 0 <= i < buffer@.len() ==> buffer@[i] == 0u8,
            decreases self.0 - filled,
        {
            buffer.push(0u8);
            filled = filled + 1;
        }
        buffer
    }

    /// Whether `bytes` can be copied into one buffer of the pool.
    pub fn fits(&self, bytes: &Vec<u8>) -> (ok: bool)
        ensures
            ok == (bytes@.len() <= self.capacity()),
    {
        bytes.len() <= self.0
    }
}

} // verus!
