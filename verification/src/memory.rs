//! The byte store: 4096 addressable bytes, never resized.

use vstd::prelude::*;

verus! {

/// Number of addressable bytes.
pub const SIZE: usize = 4096;

/// A fixed array of `SIZE` bytes, addressed from `0x000` to `0xFFF`.
pub struct Memory {
    memory: [u8; SIZE],
}

impl View for Memory {
    type V = Seq<u8>;

    /// The stored bytes in address order; always `SIZE` of them.
    closed spec fn view(&self) -> Seq<u8> {
        self.memory@
    }
}

impl Memory {
    /// A store with every byte zero.
    pub fn new() -> (m: Self)
        ensures
            m@ == Seq::new(SIZE as nat, |a: int| 0u8),
    {
        Memory { memory: [0u8; SIZE] }
    }

    /// The byte at `address`.
    pub fn read(&self, address: u16) -> (byte: u8)
        requires
            address < SIZE,
        ensures
            byte == self@[address as int],
    {
        self.memory[address as usize]
    }

    /// Stores `data` at `address` and leaves every other byte as it was.
    pub fn write(&mut self, address: u16, data: u8)
        requires
            address < SIZE,
        ensures
            final(self)@ == old(self)@.update(address as int, data),
        no_unwind
    {
        self.memory[address as usize] = data;
    }

    /// Every store holds exactly `SIZE` bytes.
    pub proof fn lemma_len(&self)
        ensures
            self@.len() == SIZE,
    {
    }
}

} // verus!
