use vstd::prelude::*;

verus! {

/// 2^128: the weight of the high half of a word.
pub open spec fn half_base() -> nat {
    0x1_0000_0000_0000_0000_0000_0000_0000_0000nat
}

/// A 256-bit unsigned machine word, held as two 128-bit halves.
#[derive(Clone, Copy, Debug, PartialEq, Eq, Structural)]
pub struct Word {
    pub hi: u128,
    pub lo: u128,
}

impl Word {
    /// The number that the word stands for.
    pub open spec fn value(self) -> nat {
        self.hi as nat * half_base() + self.lo as nat
    }

    pub fn zero() -> (r: Word)
        ensures
            r.value() == 0,
    {
        Word { hi: 0, lo: 0 }
    }

    pub fn one() -> (r: Word)
        ensures
            r.value() == 1,
    {
        Word { hi: 0, lo: 1 }
    }

    /// Zero-extends a byte to a word.
    pub fn from_u8(b: u8) -> (r: Word)
        ensures
            r.value() == b as nat,
            r == Word::byte_word(b),
    {
        Word { hi: 0, lo: b as u128 }
    }

    pub open spec fn byte_word(b: u8) -> Word {
        Word { hi: 0, lo: b as u128 }
    }

    pub fn is_zero(&self) -> (r: bool)
        ensures
            r == (self.value() == 0),
    {
        self.hi == 0 && self.lo == 0
    }

    /// The word as an index below `bound`, or `None` where its value reaches `bound`.
    pub fn to_index(&self, bound: usize) -> (r: Option<usize>)
        ensures
            r == (if self.value() < bound { Some(self.value() as usize) } else { None::<usize> }),
    {
        if self.hi == 0 && self.lo < bound as u128 {
            Some(self.lo as usize)
        } else {
            None
        }
    }
}

} // verus!
