use vstd::prelude::*;
use crate::word::Word;

verus! {

/// The number of words a stack holds at most.
pub const STACK_CAPACITY: usize = 1024;

/// A fault raised while a program runs.
#[derive(Clone, Copy, Debug, PartialEq, Eq, Structural)]
pub enum VmError {
    StackOverflow,
    StackUnderflow,
    InvalidStorageSlot,
}

/// A last-in-first-out stack of words with a fixed capacity.
/// Its view lists the entries from the bottom up: the top is the last one.
pub struct Stack {
    items: Vec<Word>,
}

impl View for Stack {
    type V = Seq<Word>;

    closed spec fn view(&self) -> Seq<Word> {
        self.items@
    }
}

impl Stack {
    /// The stack holds no more than its capacity.
    pub open spec fn wf(&self) -> bool {
        self@.len() <= STACK_CAPACITY
    }

    pub fn new() -> (r: Stack)
        ensures
            r@ == Seq::<Word>::empty(),
            r.wf(),
    {
        Stack { items: Vec::new() }
    }

    pub fn len(&self) -> (r: usize)
        ensures
            r == self@.len(),
    {
        self.items.len()
    }

    /// Pushes a word; a full stack faults and is left as it was.
    pub fn push32(&mut self, value: Word) -> (r: Result<(), VmError>)
        requires
            old(self).wf(),
        ensures
            final(self).wf(),
            old(self)@.len() < STACK_CAPACITY ==> r is Ok && final(self)@ == old(self)@.push(value),
            old(self)@.len() >= STACK_CAPACITY ==> r == Err::<(), VmError>(VmError::StackOverflow)
                && final(self)@ == old(self)@,
    {
        if self.items.len() < STACK_CAPACITY {
            self.items.push(value);
            Ok(())
        } else {
            Err(VmError::StackOverflow)
        }
    }

    /// Pushes a byte, zero-extended to a word.
    pub fn push1(&mut self, value: u8) -> (r: Result<(), VmError>)
        requires
            old(self).wf(),
        ensures
            final(self).wf(),
            old(self)@.len() < STACK_CAPACITY ==> r is Ok && final(self)@ == old(self)@.push(
                Word::byte_word(value),
            ),
            old(self)@.len() >= STACK_CAPACITY ==> r == Err::<(), VmError>(VmError::StackOverflow)
                && final(self)@ == old(self)@,
    {
        self.push32(Word::from_u8(value))
    }

    /// Removes and returns the top word; an empty stack faults.
    pub fn pop(&mut self) -> (r: Result<Word, VmError>)
        requires
            old(self).wf(),
        ensures
            final(self).wf(),
            old(self)@.len() > 0 ==> r == Ok::<Word, VmError>(old(self)@.last())
                && final(self)@ == old(self)@.drop_last(),
            old(self)@.len() == 0 ==> r == Err::<Word, VmError>(VmError::StackUnderflow)
                && final(self)@ == old(self)@,
    {
        match self.items.pop() {
            Some(w) => Ok(w),
            None => Err(VmError::StackUnderflow),
        }
    }

    /// Exchanges the two top words; fewer than two entries fault.
    pub fn swap(&mut self) -> (r: Result<(), VmError>)
        requires
            old(self).wf(),
        ensures
            final(self).wf(),
            old(self)@.len() >= 2 ==> r is Ok && final(self)@ == swap_top(old(self)@),
            old(self)@.len() < 2 ==> r == Err::<(), VmError>(VmError::StackUnderflow)
                && final(self)@ == old(self)@,
    {
        let n = self.items.len();
        if n < 2 {
            return Err(VmError::StackUnderflow);
        }
        let a = self.items[n - 1];
        let b = self.items[n - 2];
        self.items.set(n - 1, b);
        self.items.set(n - 2, a);
        Ok(())
    }
}

/// The sequence `s` with its last two entries exchanged.
pub open spec fn swap_top(s: Seq<Word>) -> Seq<Word> {
    s.update(s.len() - 1, s[s.len() - 2]).update(s.len() - 2, s[s.len() - 1])
}

/// Pushing a word and then popping gives the word back and leaves the stack as it was.
pub proof fn lemma_push_pop(s: Seq<Word>, w: Word)
    ensures
        s.push(w).last() == w,
        s.push(w).drop_last() == s,
{
    assert(s.push(w).drop_last() =~= s);
}

} // verus!
