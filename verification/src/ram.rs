use vstd::prelude::*;

verus! {

/// Number of addressable bytes.
pub const MEMORY_SIZE: usize = 4096;

/// Flat byte memory of the machine. Every address is wrapped into
/// `0..MEMORY_SIZE` before it is used, so no access is out of range.
pub struct Ram {
    memory: [u8; 4096],
}

/// The cell that a 16-bit address selects.
pub open spec fn wrap_address(address: int) -> int {
    address % 4096
}

impl View for Ram {
    type V = Seq<u8>;

    closed spec fn view(&self) -> Seq<u8> {
        self.memory@
    }
}

impl Ram {
    /// A memory with every byte zero.
    pub fn new() -> (ram: Ram)
        ensures
            ram@ == Seq::new(4096, |i: int| 0u8),
    {
        Ram { memory: [0; 4096] }
    }

    /// Stores `byte` in the cell that `address` selects; every other cell keeps its value.
    pub fn write_byte(&mut self, address: u16, byte: u8)
        ensures
            final(self)@ == old(self)@.update(wrap_address(address as int), byte),
    {
        let cell: usize = (address & 0x0FFF) as usize;
        assert(address & 0x0FFF == address % 4096) by (bit_vector);
        self.memory[cell] = byte;
    }

    /// The byte in the cell that `address` selects.
    pub fn read_byte(&self, address: u16) -> (byte: u8)
        ensures
            byte == self@[wrap_address(address as int)],
    {
        let cell: usize = (address & 0x0FFF) as usize;
        assert(address & 0x0FFF == address % 4096) by (bit_vector);
        self.memory[cell]
    }

    /// Memory always holds exactly `MEMORY_SIZE` bytes.
    pub proof fn lemma_len(&self)
        ensures
            self@.len() == 4096,
    {
    }
}

} // verus!
