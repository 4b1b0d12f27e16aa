//! Program images: a raw stream of little-endian instruction words, installed
//! into memory from address 0.
use crate::memory::{lemma_word_round_trip, with_word, word_at, Memory, Word};
use vstd::prelude::*;

verus! {

/// The `j`-th word of `m`, counting in words from address 0.
pub open spec fn nth_word(m: Seq<u8>, j: int) -> u32 {
    word_at(m, 4 * j)
}

/// The words of a byte stream whose length is a multiple of 4, in order.
pub open spec fn words_of(bytes: Seq<u8>) -> Seq<u32> {
    Seq::new(bytes.len() / 4, |j: int| nth_word(bytes, j))
}

/// Splits a program image into its little-endian words; `None` when the
/// image's length is not a multiple of 4.
pub fn words_from_bytes(bytes: &Vec<u8>) -> (r: Option<Vec<Word>>)
    ensures
        r is None <==> bytes@.len() % 4 != 0,
        r matches Some(words) ==> words@ == words_of(bytes@),
{
    if bytes.len() % 4 != 0 {
        return None;
    }
    let mut words: Vec<Word> = Vec::new();
    let mut i: usize = 0;
    while i < bytes.len() / 4
        invariant
            bytes@.len() % 4 == 0,
            i <= bytes@.len() / 4,
            words@ =~= words_of(bytes@).subrange(0, i as int),
        decreases bytes@.len() / 4 - i,
    {
        let a = 4 * i;
        let w = (bytes[a] as u32) + (bytes[a + 1] as u32) * 0x100 + (bytes[a + 2] as u32) * 0x1_0000
            + (bytes[a + 3] as u32) * 0x100_0000;
        words.push(w);
        i = i + 1;
    }
    Some(words)
}

/// Writes `words` to memory as consecutive little-endian words from address
/// 0; the bytes past them are left as they were.
pub fn load_program(mem: &mut Memory, words: &Vec<Word>)
    requires
        4 * words@.len() <= old(mem)@.len(),
    ensures
        final(mem)@.len() == old(mem)@.len(),
        forall|j: int| 0 <= j < words@.len() ==> #[trigger] nth_word(final(mem)@, j) == words@[j],
        forall|a: int|
            4 * words@.len() <= a < old(mem)@.len() ==> #[trigger] final(mem)@[a] == old(mem)@[a],
{
    let mut i: usize = 0;
    while i < words.len()
        invariant
            4 * words@.len() <= mem@.len(),
            mem@.len() == old(mem)@.len(),
            i <= words@.len(),
            forall|j: int| 0 <= j < i ==> #[trigger] nth_word(mem@, j) == words@[j],
            forall|a: int| 4 * i <= a < mem@.len() ==> #[trigger] mem@[a] == old(mem)@[a],
        decreases words@.len() - i,
    {
        let ghost before = mem@;
        proof {
            mem.lemma_size_fits();
        }
        mem.store_word(4 * i, words[i]);
        proof {
            lemma_word_round_trip(before, 4 * i, words@[i as int]);
            assert forall|j: int| 0 <= j < i + 1 implies #[trigger] nth_word(mem@, j)
                == words@[j] by {
                if j < i {
                    assert(nth_word(before, j) == words@[j]);
                }
            }
        }
        i = i + 1;
    }
}

} // verus!
