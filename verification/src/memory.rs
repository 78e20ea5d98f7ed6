//! A block of kernel memory, known by its address and size.

use vstd::prelude::*;

verus! {

/// A block of memory: where it starts and how many bytes it holds.
pub struct RawData {
    addr: usize,
    size: usize,
}

impl RawData {
    /// The address where the block starts; 0 for no block.
    pub closed spec fn address(self) -> usize {
        self.addr
    }

    /// The number of bytes in the block.
    pub closed spec fn spec_len(self) -> usize {
        self.size
    }

    /// The block of `size` bytes at `addr`.
    pub fn from_raw(addr: usize, size: usize) -> (data: RawData)
        ensures
            data.address() == addr,
            data.spec_len() == size,
    {
        RawData { addr: addr, size: size }
    }

    /// The number of bytes in the block.
    pub fn len(&self) -> (n: usize)
        ensures
            n == self.spec_len(),
    {
        self.size
    }
}

impl Default for RawData {
    /// No block: address 0, no bytes.
    fn default() -> (data: RawData)
        ensures
            data.address() == 0,
            data.spec_len() == 0,
    {
        RawData { addr: 0, size: 0 }
    }
}

/// The allocator that hands out kernel memory.
pub struct KernelAlloc {}

} // verus!
