use vstd::prelude::*;

verus! {

/// Reduces an integer to a 32-bit machine word, wrapping around the address
/// space.
pub open spec fn wrap(x: int) -> u32 {
    (x % 0x1_0000_0000) as u32
}

/// `a + b` on machine words, wrapping.
pub fn add_wrap(a: u32, b: u32) -> (r: u32)
    ensures
        r == wrap(a + b),
{
    ((a as u64 + b as u64) % 0x1_0000_0000u64) as u32
}

/// `a - b` on machine words, wrapping.
pub fn sub_wrap(a: u32, b: u32) -> (r: u32)
    ensures
        r == wrap(a - b),
{
    ((a as u64 + 0x1_0000_0000u64 - b as u64) % 0x1_0000_0000u64) as u32
}

/// Answers whether a machine word may be read at an address, and reads it.
///
/// Every dereference the unwinder makes goes through this oracle, so the
/// interpreter never touches memory that was not approved first.
pub trait MemoryOracle {
    /// The four bytes at `addr` are mapped and readable.
    spec fn readable(&self, addr: u32) -> bool;

    /// The word stored at `addr`.
    spec fn word_at(&self, addr: u32) -> u32;

    /// Asks whether the word at `addr` may be read.
    fn is_readable(&self, addr: u32) -> (r: bool)
        ensures
            r == self.readable(addr),
    ;

    /// Reads the word at `addr`, which the oracle has approved.
    fn read_word(&self, addr: u32) -> (r: u32)
        requires
            self.readable(addr),
        ensures
            r == self.word_at(addr),
    ;
}

/// A block of readable memory: `words[k]` lives at `base + 4 * k`.
///
/// Nothing outside the block is readable.
pub struct WordRegion {
    pub base: u32,
    pub words: Vec<u32>,
}

impl WordRegion {
    /// Index of the word that holds `addr`, when `addr` lies in the block and
    /// is aligned to a word of it.
    pub open spec fn slot(&self, addr: u32) -> Option<int> {
        let off = addr - self.base;
        if addr >= self.base && off % 4 == 0 && off / 4 < self.words@.len() {
            Some(off / 4)
        } else {
            None
        }
    }
}

impl MemoryOracle for WordRegion {
    open spec fn readable(&self, addr: u32) -> bool {
        self.slot(addr) is Some
    }

    open spec fn word_at(&self, addr: u32) -> u32 {
        match self.slot(addr) {
            Some(k) => self.words@[k],
            None => 0,
        }
    }

    /// Asks whether the word at `addr` may be read.
    fn is_readable(&self, addr: u32) -> (r: bool) {
        addr >= self.base && (addr - self.base) % 4 == 0 && (((addr - self.base) / 4) as usize)
            < self.words.len()
    }

    fn read_word(&self, addr: u32) -> (r: u32) {
        self.words[((addr - self.base) / 4) as usize]
    }
}

} // verus!
