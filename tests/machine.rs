use tinyvm::contract::{Contract, FuncMutability, FuncVisibility};
use tinyvm::stack::{Stack, VmError, STACK_CAPACITY};
use tinyvm::vm::{ContractStorage, OP, VM};
use tinyvm::word::Word;

fn word(n: u128) -> Word {
    Word { hi: 0, lo: n }
}

fn storage_of(n: usize) -> ContractStorage {
    ContractStorage { slots: vec![Word::zero(); n] }
}

fn run(program: Vec<OP>, storage: ContractStorage) -> (Result<ContractStorage, VmError>, Vec<Word>) {
    let mut vm = VM::new(program, &[]);
    let r = vm.run(storage);
    let mut stack = vm.into_stack();
    let mut words = Vec::new();
    while let Ok(w) = stack.pop() {
        words.push(w);
    }
    words.reverse();
    (r, words)
}

#[test]
fn push_then_pop_gives_the_word_back() {
    let mut s = Stack::new();
    let w = Word { hi: 0xdead_beef, lo: 42 };
    assert_eq!(s.push32(w), Ok(()));
    assert_eq!(s.pop(), Ok(w));
    assert_eq!(s.len(), 0);
}

#[test]
fn push_byte_zero_extends() {
    let mut s = Stack::new();
    assert_eq!(s.push1(0xff), Ok(()));
    assert_eq!(s.pop(), Ok(Word { hi: 0, lo: 255 }));
}

#[test]
fn full_stack_overflows_on_next_push() {
    let mut s = Stack::new();
    for i in 0..1024u128 {
        assert_eq!(s.push32(word(i)), Ok(()));
    }
    assert_eq!(s.len(), STACK_CAPACITY);
    assert_eq!(s.push32(word(7)), Err(VmError::StackOverflow));
    assert_eq!(s.push1(7), Err(VmError::StackOverflow));
    assert_eq!(s.len(), 1024);
    assert_eq!(s.pop(), Ok(word(1023)));
}

#[test]
fn pop_on_empty_stack_underflows() {
    let mut s = Stack::new();
    assert_eq!(s.pop(), Err(VmError::StackUnderflow));
}

#[test]
fn swap_exchanges_top_two_and_needs_two() {
    let mut s = Stack::new();
    assert_eq!(s.swap(), Err(VmError::StackUnderflow));
    s.push32(word(1)).unwrap();
    assert_eq!(s.swap(), Err(VmError::StackUnderflow));
    s.push32(word(2)).unwrap();
    assert_eq!(s.swap(), Ok(()));
    assert_eq!(s.pop(), Ok(word(1)));
    assert_eq!(s.pop(), Ok(word(2)));
}

#[test]
fn store_then_load_gives_the_value() {
    let v = Word { hi: 5, lo: 9 };
    let program = vec![OP::PUSH32(v), OP::PUSH1(2), OP::SSTORE, OP::PUSH1(2), OP::SLOAD];
    let (r, stack) = run(program, storage_of(3));
    let sto = r.unwrap();
    assert_eq!(sto.slots, vec![Word::zero(), Word::zero(), v]);
    assert_eq!(stack, vec![v]);
}

#[test]
fn load_past_end_of_storage_faults() {
    let (r, _) = run(vec![OP::PUSH1(1), OP::SLOAD], storage_of(1));
    assert!(matches!(r, Err(VmError::InvalidStorageSlot)));
    let huge = Word { hi: 1, lo: 0 };
    let (r, _) = run(vec![OP::PUSH32(huge), OP::SLOAD], storage_of(1));
    assert!(matches!(r, Err(VmError::InvalidStorageSlot)));
}

#[test]
fn store_past_end_of_storage_faults() {
    let (r, _) = run(vec![OP::PUSH1(1), OP::PUSH1(0), OP::SSTORE], storage_of(0));
    assert!(matches!(r, Err(VmError::InvalidStorageSlot)));
}

#[test]
fn store_with_one_word_underflows() {
    let (r, _) = run(vec![OP::PUSH1(0), OP::SSTORE], storage_of(1));
    assert!(matches!(r, Err(VmError::StackUnderflow)));
}

#[test]
fn iszero_maps_zero_to_one_and_rest_to_zero() {
    let (r, stack) = run(vec![OP::PUSH1(0), OP::ISZERO], storage_of(0));
    assert!(r.is_ok());
    assert_eq!(stack, vec![word(1)]);
    let (_, stack) = run(vec![OP::PUSH1(3), OP::ISZERO], storage_of(0));
    assert_eq!(stack, vec![word(0)]);
    let (_, stack) = run(vec![OP::PUSH32(Word { hi: 1, lo: 0 }), OP::ISZERO], storage_of(0));
    assert_eq!(stack, vec![word(0)]);
}

#[test]
fn dup_pop_and_faults_on_empty() {
    let (r, stack) = run(vec![OP::PUSH1(4), OP::DUP1, OP::PUSH1(5), OP::POP], storage_of(0));
    assert!(r.is_ok());
    assert_eq!(stack, vec![word(4), word(4)]);
    let (r, _) = run(vec![OP::DUP1], storage_of(0));
    assert!(matches!(r, Err(VmError::StackUnderflow)));
    let (r, _) = run(vec![OP::POP], storage_of(0));
    assert!(matches!(r, Err(VmError::StackUnderflow)));
    let (r, _) = run(vec![OP::ISZERO], storage_of(0));
    assert!(matches!(r, Err(VmError::StackUnderflow)));
}

#[test]
fn swap1_opcode_exchanges() {
    let (r, stack) = run(vec![OP::PUSH1(1), OP::PUSH1(2), OP::SWAP1], storage_of(0));
    assert!(r.is_ok());
    assert_eq!(stack, vec![word(2), word(1)]);
}

#[test]
fn return_halts_execution() {
    let (r, stack) = run(vec![OP::PUSH1(1), OP::RETURN, OP::PUSH1(2), OP::POP, OP::POP], storage_of(0));
    assert!(r.is_ok());
    assert_eq!(stack, vec![word(1)]);
}

#[test]
fn dup_on_full_stack_overflows() {
    let mut program = vec![OP::PUSH1(1); 1024];
    program.push(OP::DUP1);
    let (r, _) = run(program, storage_of(0));
    assert!(matches!(r, Err(VmError::StackOverflow)));
}

#[test]
fn word_helpers() {
    assert!(Word::zero().is_zero());
    assert!(!Word::one().is_zero());
    assert!(!Word { hi: 1, lo: 0 }.is_zero());
    assert_eq!(Word::from_u8(200), word(200));
    assert_eq!(word(3).to_index(4), Some(3));
    assert_eq!(word(4).to_index(4), None);
    assert_eq!(Word { hi: 1, lo: 0 }.to_index(usize::MAX), None);
}

#[test]
fn new_contract_is_empty() {
    let c = Contract::new("C".to_string());
    assert_eq!(c.name, "C");
    assert!(c.functions.is_empty());
    assert!(c.variable_map.is_empty());
    assert!(c.storage.slots.is_empty());
    let _ = (FuncVisibility::Public, FuncMutability::Payable);
}
