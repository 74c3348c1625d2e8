//! A 16-bit instruction word, decomposed into 4-bit fields (nibbles),
//! most-significant first.

use vstd::prelude::*;
use vstd::arithmetic::div_mod::lemma_mod_bound;

verus! {

/// Sixteen raised to the power `k`, for the nibble positions of a 16-bit word.
pub open spec fn p16(k: int) -> int {
    if k == 1 {
        0x10
    } else if k == 2 {
        0x100
    } else if k == 3 {
        0x1000
    } else if k == 4 {
        0x10000
    } else {
        1
    }
}

/// The value of the nibbles of `w` from position `start` (inclusive) to
/// position `end` (exclusive), counting from the most significant nibble.
pub open spec fn nibbles_of(w: u16, start: int, end: int) -> int {
    (w as int / p16(4 - end)) % p16(end - start)
}

fn p16_exec(k: u8) -> (r: u32)
    requires
        k <= 4,
    ensures
        r == p16(k as int),
        r >= 1,
{
    if k == 1 {
        0x10
    } else if k == 2 {
        0x100
    } else if k == 3 {
        0x1000
    } else if k == 4 {
        0x10000
    } else {
        1
    }
}

/// A 16-bit instruction word.
pub struct Opcode(u16);

impl Opcode {
    /// The raw instruction word.
    pub closed spec fn word(&self) -> u16 {
        self.0
    }

    pub fn new(opcode: u16) -> (r: Opcode)
        ensures
            r.word() == opcode,
    {
        Opcode(opcode)
    }

    pub fn value(&self) -> (r: u16)
        ensures
            r == self.word(),
    {
        self.0
    }

    /// The nibbles from `start_index` (inclusive) to `end_index` (exclusive),
    /// most significant first.
    pub fn get_nibbles(&self, start_index: u8, end_index: u8) -> (r: u16)
        requires
            start_index < end_index,
            end_index <= 4,
        ensures
            r as int == nibbles_of(self.word(), start_index as int, end_index as int),
            (r as int) < p16(end_index as int - start_index as int),
    {
        let d1 = p16_exec(4 - end_index);
        let d2 = p16_exec(end_index - start_index);
        let wide = ((self.0 as u32) / d1) % d2;
        proof {
            lemma_mod_bound((self.0 as u32 / d1) as int, d2 as int);
        }
        wide as u16
    }

    /// The single nibble at `index` (0 is the most significant).
    pub fn get_nibble(&self, index: u8) -> (r: u8)
        requires
            index <= 3,
        ensures
            r as int == nibbles_of(self.word(), index as int, index as int + 1),
            r <= 0xf,
    {
        let wide = self.get_nibbles(index, index + 1);
        proof {
            lemma_mod_bound((self.word() as int / p16(4 - (index as int + 1))), 0x10);
        }
        wide as u8
    }

    /// The nibbles from `start_index` to the end of the word.
    pub fn get_nibbles_from(&self, start_index: u8) -> (r: u16)
        requires
            start_index < 4,
        ensures
            r as int == nibbles_of(self.word(), start_index as int, 4),
            (r as int) < p16(4 - start_index as int),
    {
        self.get_nibbles(start_index, 4)
    }
}

} // verus!
