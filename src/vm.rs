use vstd::prelude::*;
use crate::stack::{Stack, VmError, STACK_CAPACITY, swap_top};
use crate::word::Word;

verus! {

/// One instruction of the machine.
#[derive(Clone, Copy, Debug, PartialEq, Eq, Structural)]
pub enum OP {
    /// Pushes a word.
    PUSH32(Word),
    /// Pushes a byte, zero-extended.
    PUSH1(u8),
    /// Discards the top word.
    POP,
    /// Duplicates the top word.
    DUP1,
    /// Exchanges the two top words.
    SWAP1,
    /// Pops a key and pushes the storage word at that slot.
    SLOAD,
    /// Pops a key, then a value, and writes the value to that slot.
    SSTORE,
    /// Pops a word and pushes 1 where it was zero, else 0.
    ISZERO,
    /// Halts; what is left on the stack is the return buffer.
    RETURN,
}

/// The persistent words of a contract, one per state variable.
#[derive(Clone, Debug)]
pub struct ContractStorage {
    pub slots: Vec<Word>,
}

impl View for ContractStorage {
    type V = Seq<Word>;

    open spec fn view(&self) -> Seq<Word> {
        self.slots@
    }
}

impl ContractStorage {
    pub fn new() -> (r: ContractStorage)
        ensures
            r@ == Seq::<Word>::empty(),
    {
        ContractStorage { slots: Vec::new() }
    }

    /// Copies the storage word for word.
    pub fn duplicate(&self) -> (r: ContractStorage)
        ensures
            r@ == self@,
    {
        ContractStorage { slots: self.slots.clone() }
    }
}

/// The word that stands for a truth value: 1 for true, 0 for false.
pub open spec fn bool_word(b: bool) -> Word {
    if b {
        Word { hi: 0, lo: 1 }
    } else {
        Word { hi: 0, lo: 0 }
    }
}

/// What one instruction does to a stack and a storage, or the fault it raises.
/// `RETURN` changes neither: halting is the business of `run_from`.
pub open spec fn step(op: OP, st: Seq<Word>, sto: Seq<Word>) -> Result<(Seq<Word>, Seq<Word>), VmError> {
    match op {
        OP::PUSH32(w) => if st.len() < STACK_CAPACITY {
            Ok((st.push(w), sto))
        } else {
            Err(VmError::StackOverflow)
        },
        OP::PUSH1(b) => if st.len() < STACK_CAPACITY {
            Ok((st.push(Word::byte_word(b)), sto))
        } else {
            Err(VmError::StackOverflow)
        },
        OP::POP => if st.len() == 0 {
            Err(VmError::StackUnderflow)
        } else {
            Ok((st.drop_last(), sto))
        },
        OP::DUP1 => if st.len() == 0 {
            Err(VmError::StackUnderflow)
        } else if st.len() >= STACK_CAPACITY {
            Err(VmError::StackOverflow)
        } else {
            Ok((st.push(st.last()), sto))
        },
        OP::SWAP1 => if st.len() < 2 {
            Err(VmError::StackUnderflow)
        } else {
            Ok((swap_top(st), sto))
        },
        OP::SLOAD => if st.len() == 0 {
            Err(VmError::StackUnderflow)
        } else if st.last().value() >= sto.len() {
            Err(VmError::InvalidStorageSlot)
        } else {
            Ok((st.drop_last().push(sto[st.last().value() as int]), sto))
        },
        OP::SSTORE => if st.len() < 2 {
            Err(VmError::StackUnderflow)
        } else if st.last().value() >= sto.len() {
            Err(VmError::InvalidStorageSlot)
        } else {
            Ok((st.drop_last().drop_last(), sto.update(st.last().value() as int, st[st.len() - 2])))
        },
        OP::ISZERO => if st.len() == 0 {
            Err(VmError::StackUnderflow)
        } else {
            Ok((st.drop_last().push(bool_word(st.last().value() == 0)), sto))
        },
        OP::RETURN => Ok((st, sto)),
    }
}

/// Runs `prog` from instruction `pc` until its end or a `RETURN`: the final
/// stack and storage, or the first fault.
pub open spec fn run_from(prog: Seq<OP>, pc: nat, st: Seq<Word>, sto: Seq<Word>) -> Result<
    (Seq<Word>, Seq<Word>),
    VmError,
>
    decreases prog.len() - pc,
{
    if pc >= prog.len() {
        Ok((st, sto))
    } else if prog[pc as int] is RETURN {
        Ok((st, sto))
    } else {
        match step(prog[pc as int], st, sto) {
            Ok((st2, sto2)) => run_from(prog, pc + 1, st2, sto2),
            Err(e) => Err(e),
        }
    }
}

/// Runs a whole program on an empty stack.
pub open spec fn execute(prog: Seq<OP>, sto: Seq<Word>) -> Result<(Seq<Word>, Seq<Word>), VmError> {
    run_from(prog, 0, Seq::empty(), sto)
}

/// Executes one instruction other than `RETURN` on a stack and a storage.
pub fn exec_op(stack: &mut Stack, storage: &mut ContractStorage, op: OP) -> (r: Result<(), VmError>)
    requires
        old(stack).wf(),
        !(op is RETURN),
    ensures
        final(stack).wf(),
        match step(op, old(stack)@, old(storage)@) {
            Ok((st, sto)) => r is Ok && final(stack)@ == st && final(storage)@ == sto,
            Err(e) => r == Err::<(), VmError>(e),
        },
{
    match op {
        OP::PUSH32(w) => stack.push32(w),
        OP::PUSH1(b) => stack.push1(b),
        OP::POP => match stack.pop() {
            Ok(_) => Ok(()),
            Err(e) => Err(e),
        },
        OP::DUP1 => {
            let top = match stack.pop() {
                Ok(w) => w,
                Err(e) => return Err(e),
            };
            let _ = stack.push32(top);
            stack.push32(top)
        },
        OP::SWAP1 => stack.swap(),
        OP::SLOAD => {
            let key = match stack.pop() {
                Ok(w) => w,
                Err(e) => return Err(e),
            };
            match key.to_index(storage.slots.len()) {
                Some(i) => stack.push32(storage.slots[i]),
                None => Err(VmError::InvalidStorageSlot),
            }
        },
        OP::SSTORE => {
            let key = match stack.pop() {
                Ok(w) => w,
                Err(e) => return Err(e),
            };
            let val = match stack.pop() {
                Ok(w) => w,
                Err(e) => return Err(e),
            };
            match key.to_index(storage.slots.len()) {
                Some(i) => {
                    storage.slots.set(i, val);
                    Ok(())
                },
                None => Err(VmError::InvalidStorageSlot),
            }
        },
        OP::ISZERO => {
            let top = match stack.pop() {
                Ok(w) => w,
                Err(e) => return Err(e),
            };
            if top.is_zero() {
                stack.push32(Word::one())
            } else {
                stack.push32(Word::zero())
            }
        },
        OP::RETURN => Ok(()),
    }
}


/// A program being run: its instructions, the program counter and the stack.
pub struct VM<'a> {
    pub stack: Stack,
    program: Vec<OP>,
    pc: usize,
    calldata: &'a [u8],
}

impl<'a> VM<'a> {
    /// The instructions being run.
    pub closed spec fn spec_program(&self) -> Seq<OP> {
        self.program@
    }

    /// The words on the stack, bottom first.
    pub closed spec fn spec_stack(&self) -> Seq<Word> {
        self.stack@
    }

    /// The index of the next instruction.
    pub closed spec fn spec_pc(&self) -> nat {
        self.pc as nat
    }

    /// A machine at the start of `program`, with an empty stack.
    pub fn new(program: Vec<OP>, calldata: &'a [u8]) -> (r: Self)
        ensures
            r.spec_program() == program@,
            r.spec_pc() == 0,
            r.spec_stack() == Seq::<Word>::empty(),
    {
        VM { stack: Stack::new(), program, pc: 0, calldata }
    }

    /// Gives up the machine and keeps its stack.
    pub fn into_stack(self) -> (r: Stack)
        ensures
            r@ == self.spec_stack(),
    {
        self.stack
    }

    /// The call data the machine was started with.
    pub fn calldata(&self) -> (r: &'a [u8])
    {
        self.calldata
    }

    /// Runs the program from the current instruction against `storage`, until
    /// its end or a `RETURN`. Gives the storage as the program left it and
    /// leaves the final stack in `self.stack`, or gives the first fault.
    pub fn run(&mut self, storage: ContractStorage) -> (r: Result<ContractStorage, VmError>)
        requires
            old(self).spec_stack().len() <= STACK_CAPACITY,
        ensures
            final(self).spec_stack().len() <= STACK_CAPACITY,
            final(self).spec_program() == old(self).spec_program(),
            match run_from(old(self).spec_program(), old(self).spec_pc(), old(self).spec_stack(), storage@) {
                Ok((st, sto)) => r is Ok && r->Ok_0@ == sto && final(self).spec_stack() == st,
                Err(e) => r == Err::<ContractStorage, VmError>(e),
            },
    {
        let mut cur = storage;
        let ghost prog = self.program@;
        let ghost outcome = run_from(prog, self.pc as nat, self.stack@, storage@);
        while self.pc < self.program.len()
            invariant
                self.stack.wf(),
                self.program@ == prog,
                prog == old(self).spec_program(),
                outcome == run_from(prog, old(self).spec_pc(), old(self).spec_stack(), storage@),
                run_from(prog, self.pc as nat, self.stack@, cur@) == outcome,
            decreases prog.len() - self.pc,
        {
            let op = self.program[self.pc];
            if let OP::RETURN = op {
                self.pc = self.pc + 1;
                return Ok(cur);
            }
            match exec_op(&mut self.stack, &mut cur, op) {
                Ok(()) => {},
                Err(e) => return Err(e),
            }
            self.pc = self.pc + 1;
        }
        Ok(cur)
    }
}


/// Storing a value at an existing slot and then loading that slot gives the
/// value back, on the stack that was there before the store.
pub proof fn lemma_store_then_load(st: Seq<Word>, sto: Seq<Word>, key: Word, val: Word)
    requires
        key.value() < sto.len(),
    ensures
        step(OP::SSTORE, st.push(val).push(key), sto) == Ok::<(Seq<Word>, Seq<Word>), VmError>(
            (st, sto.update(key.value() as int, val)),
        ),
        step(OP::SLOAD, st.push(key), sto.update(key.value() as int, val)) == Ok::<
            (Seq<Word>, Seq<Word>),
            VmError,
        >((st.push(val), sto.update(key.value() as int, val))),
{
    assert(st.push(val).push(key).drop_last().drop_last() =~= st);
    assert(st.push(key).drop_last() =~= st);
}

/// Loading or storing at a key past the end of storage faults with
/// `InvalidStorageSlot`.
pub proof fn lemma_slot_out_of_range(st: Seq<Word>, sto: Seq<Word>, key: Word, val: Word)
    requires
        key.value() >= sto.len(),
    ensures
        step(OP::SLOAD, st.push(key), sto) == Err::<(Seq<Word>, Seq<Word>), VmError>(
            VmError::InvalidStorageSlot,
        ),
        step(OP::SSTORE, st.push(val).push(key), sto) == Err::<(Seq<Word>, Seq<Word>), VmError>(
            VmError::InvalidStorageSlot,
        ),
{
}

/// `ISZERO` replaces a zero word by 1 and any other word by 0.
pub proof fn lemma_iszero(st: Seq<Word>, sto: Seq<Word>, v: Word)
    ensures
        v.value() == 0 ==> step(OP::ISZERO, st.push(v), sto) == Ok::<(Seq<Word>, Seq<Word>), VmError>(
            (st.push(bool_word(true)), sto),
        ),
        v.value() != 0 ==> step(OP::ISZERO, st.push(v), sto) == Ok::<(Seq<Word>, Seq<Word>), VmError>(
            (st.push(bool_word(false)), sto),
        ),
        bool_word(true).value() == 1,
        bool_word(false).value() == 0,
{
    assert(st.push(v).drop_last() =~= st);
}

} // verus!
