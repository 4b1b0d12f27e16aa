//! Byte-addressable memory with aligned little-endian halfword and word access.
use vstd::prelude::*;

verus! {

/// One byte of memory.
pub type Byte = u8;

/// Two bytes of memory.
pub type HalfWord = u16;

/// Four bytes of memory: the width of a register and of an instruction.
pub type Word = u32;

/// Number of bytes in a freshly created memory (16 MiB).
pub const MEM_SIZE: usize = 0x100_0000;

/// The halfword whose low byte is `lo` and high byte is `hi`.
pub open spec fn halfword_of(lo: u8, hi: u8) -> u16 {
    (lo as int + hi as int * 0x100) as u16
}

/// The word whose bytes, from least to most significant, are `b0`..`b3`.
pub open spec fn word_of(b0: u8, b1: u8, b2: u8, b3: u8) -> u32 {
    (b0 as int + b1 as int * 0x100 + b2 as int * 0x1_0000 + b3 as int * 0x100_0000) as u32
}

/// Byte `k` (0 is the least significant) of the value `v`.
pub open spec fn byte_of(v: int, k: nat) -> u8 {
    if k == 0 {
        (v % 0x100) as u8
    } else if k == 1 {
        ((v / 0x100) % 0x100) as u8
    } else if k == 2 {
        ((v / 0x1_0000) % 0x100) as u8
    } else {
        ((v / 0x100_0000) % 0x100) as u8
    }
}

/// The little-endian halfword stored at `a` in `m`.
pub open spec fn halfword_at(m: Seq<u8>, a: int) -> u16 {
    halfword_of(m[a], m[a + 1])
}

/// The little-endian word stored at `a` in `m`.
pub open spec fn word_at(m: Seq<u8>, a: int) -> u32 {
    word_of(m[a], m[a + 1], m[a + 2], m[a + 3])
}

/// `m` with the halfword `v` stored little-endian at `a`.
pub open spec fn with_halfword(m: Seq<u8>, a: int, v: u16) -> Seq<u8> {
    m.update(a, byte_of(v as int, 0)).update(a + 1, byte_of(v as int, 1))
}

/// `m` with the word `v` stored little-endian at `a`.
pub open spec fn with_word(m: Seq<u8>, a: int, v: u32) -> Seq<u8> {
    m.update(a, byte_of(v as int, 0)).update(a + 1, byte_of(v as int, 1)).update(
        a + 2,
        byte_of(v as int, 2),
    ).update(a + 3, byte_of(v as int, 3))
}

/// A halfword access at `a` is aligned and lies within a memory of `len` bytes.
pub open spec fn halfword_ok(len: int, a: int) -> bool {
    a % 2 == 0 && 0 <= a && a + 2 <= len
}

/// A word access at `a` is aligned and lies within a memory of `len` bytes.
pub open spec fn word_ok(len: int, a: int) -> bool {
    a % 4 == 0 && 0 <= a && a + 4 <= len
}

/// A fixed-size array of bytes.
pub struct Memory {
    mem: Vec<Byte>,
}

impl View for Memory {
    type V = Seq<u8>;

    closed spec fn view(&self) -> Seq<u8> {
        self.mem@
    }
}

impl Memory {
    /// A memory of `MEM_SIZE` bytes, all zero.
    pub fn new() -> (r: Memory)
        ensures
            r@.len() == MEM_SIZE,
            forall|i: int| 0 <= i < MEM_SIZE ==> #[trigger] r@[i] == 0,
    {
        Memory { mem: vec![0u8; MEM_SIZE] }
    }

    /// The number of bytes fits in `usize`.
    pub proof fn lemma_size_fits(&self)
        ensures
            self@.len() <= usize::MAX,
    {
        vstd::std_specs::vec::axiom_spec_len(&self.mem);
    }

    /// Number of bytes in the memory.
    pub fn size(&self) -> (r: usize)
        ensures
            r == self@.len(),
    {
        self.mem.len()
    }

    /// Reads the byte at `addr`.
    pub fn fetch_byte(&self, addr: usize) -> (r: Byte)
        requires
            addr < self@.len(),
        ensures
            r == self@[addr as int],
    {
        self.mem[addr]
    }

    /// Writes `value` to the byte at `addr`.
    pub fn store_byte(&mut self, addr: usize, value: Byte)
        requires
            addr < old(self)@.len(),
        ensures
            final(self)@ == old(self)@.update(addr as int, value),
    {
        self.mem.set(addr, value);
    }

    /// Reads the little-endian halfword at the even address `addr`.
    pub fn fetch_halfword(&self, addr: usize) -> (r: HalfWord)
        requires
            halfword_ok(self@.len() as int, addr as int),
        ensures
            r == halfword_at(self@, addr as int),
    {
        let lo = self.mem[addr] as u16;
        let hi = self.mem[addr + 1] as u16;
        lo + hi * 0x100
    }

    /// Writes `value` little-endian to the halfword at the even address `addr`.
    pub fn store_halfword(&mut self, addr: usize, value: HalfWord)
        requires
            halfword_ok(old(self)@.len() as int, addr as int),
        ensures
            final(self)@ == with_halfword(old(self)@, addr as int, value),
    {
        self.mem.set(addr, (value % 0x100) as u8);
        self.mem.set(addr + 1, (value / 0x100) as u8);
    }

    /// Reads the little-endian word at the address `addr`, a multiple of 4.
    pub fn fetch_word(&self, addr: usize) -> (r: Word)
        requires
            word_ok(self@.len() as int, addr as int),
        ensures
            r == word_at(self@, addr as int),
    {
        let b0 = self.mem[addr] as u32;
        let b1 = self.mem[addr + 1] as u32;
        let b2 = self.mem[addr + 2] as u32;
        let b3 = self.mem[addr + 3] as u32;
        b0 + b1 * 0x100 + b2 * 0x1_0000 + b3 * 0x100_0000
    }

    /// Writes `value` little-endian to the word at the address `addr`, a multiple of 4.
    pub fn store_word(&mut self, addr: usize, value: Word)
        requires
            word_ok(old(self)@.len() as int, addr as int),
        ensures
            final(self)@ == with_word(old(self)@, addr as int, value),
    {
        self.mem.set(addr, (value % 0x100) as u8);
        self.mem.set(addr + 1, ((value / 0x100) % 0x100) as u8);
        self.mem.set(addr + 2, ((value / 0x1_0000) % 0x100) as u8);
        self.mem.set(addr + 3, (value / 0x100_0000) as u8);
    }
}

/// Storing a word and then fetching the word at the same address gives back
/// the stored word.
pub proof fn lemma_word_round_trip(m: Seq<u8>, a: int, v: u32)
    requires
        0 <= a,
        a + 4 <= m.len(),
    ensures
        word_at(with_word(m, a, v), a) == v,
{
    assert(v == v % 0x100 + (v / 0x100) % 0x100 * 0x100 + (v / 0x1_0000) % 0x100 * 0x1_0000 + (v
        / 0x100_0000) % 0x100 * 0x100_0000) by (bit_vector);
}

/// Storing a halfword and then fetching the halfword at the same address gives
/// back the stored halfword.
pub proof fn lemma_halfword_round_trip(m: Seq<u8>, a: int, v: u16)
    requires
        0 <= a,
        a + 2 <= m.len(),
    ensures
        halfword_at(with_halfword(m, a, v), a) == v,
{
    assert(v == v % 0x100 + (v / 0x100) % 0x100 * 0x100) by (bit_vector);
}

/// Storing a byte and then fetching the byte at the same address gives back
/// the stored byte.
pub proof fn lemma_byte_round_trip(m: Seq<u8>, a: int, v: u8)
    requires
        0 <= a < m.len(),
    ensures
        m.update(a, v)[a] == v,
{
}

} // verus!
