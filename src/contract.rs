use vstd::prelude::*;
use crate::ast::{Expression, Type};
use crate::stack::{Stack, VmError, STACK_CAPACITY};
use crate::vm::{ContractStorage, OP, VM, execute};
use crate::word::Word;

verus! {

/// Who may call a function.
#[derive(Clone, Copy, Debug, PartialEq, Eq, Structural)]
pub enum FuncVisibility {
    Public,
    Private,
    Internal,
    External,
}

/// Whether a function may change storage: a `View` or `Pure` call never does.
#[derive(Clone, Copy, Debug, PartialEq, Eq, Structural)]
pub enum FuncMutability {
    Constant,
    NonPayable,
    Payable,
    View,
    Pure,
}

/// A lowered function: its program, attributes and the types of its return values.
#[derive(Debug)]
pub struct Function {
    pub program: Vec<OP>,
    pub visibility: FuncVisibility,
    pub mutability: FuncMutability,
    pub return_types: Vec<Type>,
}

/// What a function is, as the contracts speak of it.
pub struct FunctionView {
    pub program: Seq<OP>,
    pub visibility: FuncVisibility,
    pub mutability: FuncMutability,
    pub return_types: Seq<Type>,
}

impl View for Function {
    type V = FunctionView;

    open spec fn view(&self) -> FunctionView {
        FunctionView {
            program: self.program@,
            visibility: self.visibility,
            mutability: self.mutability,
            return_types: self.return_types@,
        }
    }
}

impl Function {
    pub fn duplicate(&self) -> (r: Function)
        ensures
            r@ == self@,
    {
        Function {
            program: self.program.clone(),
            visibility: self.visibility,
            mutability: self.mutability,
            return_types: self.return_types.clone(),
        }
    }
}

/// A compiled contract: its functions keyed by selector, the names of its
/// state variables (a variable's slot is its position), and its storage.
#[derive(Debug)]
pub struct Contract {
    pub name: String,
    pub functions: Vec<(String, Function)>,
    pub variable_map: Vec<String>,
    pub storage: ContractStorage,
}

/// What a contract is, as the contracts speak of it.
pub struct ContractView {
    pub name: Seq<char>,
    pub functions: Seq<(Seq<char>, FunctionView)>,
    pub variables: Seq<Seq<char>>,
    pub storage: Seq<Word>,
}

impl View for Contract {
    type V = ContractView;

    open spec fn view(&self) -> ContractView {
        ContractView {
            name: self.name@,
            functions: self.functions@.map_values(|e: (String, Function)| (e.0@, e.1@)),
            variables: self.variable_map@.map_values(|n: String| n@),
            storage: self.storage@,
        }
    }
}

/// The position of the entry keyed `key`, searching from the end.
pub open spec fn key_index(tab: Seq<(Seq<char>, FunctionView)>, key: Seq<char>) -> Option<int>
    decreases tab.len(),
{
    if tab.len() == 0 {
        None
    } else if tab.last().0 == key {
        Some(tab.len() - 1)
    } else {
        key_index(tab.drop_last(), key)
    }
}

/// A position that `key_index` finds lies in the table and holds the key.
pub proof fn lemma_key_index_range(tab: Seq<(Seq<char>, FunctionView)>, key: Seq<char>)
    ensures
        key_index(tab, key) matches Some(i) ==> 0 <= i < tab.len() && tab[i].0 == key,
    decreases tab.len(),
{
    if tab.len() > 0 && tab.last().0 != key {
        lemma_key_index_range(tab.drop_last(), key);
    }
}

/// Where `key_index` finds nothing, no entry holds the key.
pub proof fn lemma_key_index_none(tab: Seq<(Seq<char>, FunctionView)>, key: Seq<char>)
    requires
        key_index(tab, key) is None,
    ensures
        forall|i: int| 0 <= i < tab.len() ==> tab[i].0 != key,
    decreases tab.len(),
{
    if tab.len() > 0 {
        lemma_key_index_none(tab.drop_last(), key);
        assert forall|i: int| 0 <= i < tab.len() implies tab[i].0 != key by {
            if i < tab.len() - 1 {
                assert(tab.drop_last()[i] == tab[i]);
            }
        }
    }
}

/// The slot of the variable `name`: the last position that holds it.
pub open spec fn slot_of(vars: Seq<Seq<char>>, name: Seq<char>) -> Option<int>
    decreases vars.len(),
{
    if vars.len() == 0 {
        None
    } else if vars.last() == name {
        Some(vars.len() - 1)
    } else {
        slot_of(vars.drop_last(), name)
    }
}

/// A slot that `slot_of` finds lies in the table and holds the name.
pub proof fn lemma_slot_of_range(vars: Seq<Seq<char>>, name: Seq<char>)
    ensures
        slot_of(vars, name) matches Some(i) ==> 0 <= i < vars.len() && vars[i] == name,
    decreases vars.len(),
{
    if vars.len() > 0 && vars.last() != name {
        lemma_slot_of_range(vars.drop_last(), name);
    }
}

/// The table with `key` bound to `f`: an existing entry is replaced in place,
/// otherwise the entry is appended.
pub open spec fn table_insert(
    tab: Seq<(Seq<char>, FunctionView)>,
    key: Seq<char>,
    f: FunctionView,
) -> Seq<(Seq<char>, FunctionView)> {
    match key_index(tab, key) {
        Some(i) => tab.update(i, (key, f)),
        None => tab.push((key, f)),
    }
}

/// Pops one word per declared return type, in order, while words remain; a
/// `bool` gives a literal that is true exactly when the word is 1, other types
/// give nothing.
pub open spec fn decode_returns(types: Seq<Type>, st: Seq<Word>) -> Seq<Expression>
    decreases types.len(),
{
    if types.len() == 0 || st.len() == 0 {
        Seq::empty()
    } else {
        let rest = decode_returns(types.skip(1), st.drop_last());
        if types[0] == Type::Bool {
            seq![Expression::BoolLiteral(st.last().value() == 1)].add(rest)
        } else {
            rest
        }
    }
}

/// Whether a call with this mutability keeps the storage it started with.
pub open spec fn discards_writes(m: FuncMutability) -> bool {
    m == FuncMutability::View || m == FuncMutability::Pure
}

/// What a call of the function `f` on contract `c` gives: the contract after
/// the call and the decoded return values, or the fault that aborted it.
pub open spec fn call_result(c: ContractView, f: FunctionView) -> Result<
    (ContractView, Seq<Expression>),
    VmError,
> {
    match execute(f.program, c.storage) {
        Ok((st, sto)) => Ok(
            (
                ContractView {
                    storage: if discards_writes(f.mutability) {
                        c.storage
                    } else {
                        sto
                    },
                    ..c
                },
                decode_returns(f.return_types, st),
            ),
        ),
        Err(e) => Err(e),
    }
}

impl Contract {
    /// Selectors are unique in the function table.
    pub open spec fn wf(&self) -> bool {
        forall|i: int, j: int|
            0 <= i < j < self@.functions.len() ==> self@.functions[i].0 != self@.functions[j].0
    }

    /// An empty contract with this name.
    pub fn new(name: String) -> (r: Contract)
        ensures
            r@.name == name@,
            r@.functions == Seq::<(Seq<char>, FunctionView)>::empty(),
            r@.variables == Seq::<Seq<char>>::empty(),
            r@.storage == Seq::<Word>::empty(),
            r.wf(),
    {
        let r = Contract {
            name,
            functions: Vec::new(),
            variable_map: Vec::new(),
            storage: ContractStorage::new(),
        };
        assert(r@.functions =~= Seq::<(Seq<char>, FunctionView)>::empty());
        assert(r@.variables =~= Seq::<Seq<char>>::empty());
        r
    }

    /// The position of the function with this selector.
    pub fn find_function(&self, selector: &String) -> (r: Option<usize>)
        ensures
            r == (match key_index(self@.functions, selector@) {
                Some(i) => Some(i as usize),
                None => None::<usize>,
            }),
            r matches Some(i) ==> i < self.functions@.len() && key_index(self@.functions, selector@)
                == Some(i as int),
    {
        proof {
            lemma_key_index_range(self@.functions, selector@);
        }
        let ghost tab = self@.functions;
        let mut i: usize = self.functions.len();
        assert(tab.take(i as int) =~= tab);
        while i > 0
            invariant
                i <= self.functions@.len(),
                tab == self@.functions,
                key_index(tab, selector@) == key_index(tab.take(i as int), selector@),
            decreases i,
        {
            let ghost pre = tab.take(i as int);
            assert(pre.last() == tab[i - 1]);
            assert(tab[i - 1].0 == self.functions@[i - 1].0@);
            if self.functions[i - 1].0.eq(selector) {
                return Some(i - 1);
            }
            assert(pre.drop_last() =~= tab.take(i - 1));
            i = i - 1;
        }
        None
    }

    /// The slot of the state variable with this name.
    pub fn find_variable(&self, name: &String) -> (r: Option<usize>)
        ensures
            r == (match slot_of(self@.variables, name@) {
                Some(i) => Some(i as usize),
                None => None::<usize>,
            }),
            r matches Some(i) ==> i < self.variable_map@.len() && slot_of(self@.variables, name@)
                == Some(i as int),
    {
        proof {
            lemma_slot_of_range(self@.variables, name@);
        }
        let ghost vars = self@.variables;
        let mut i: usize = self.variable_map.len();
        assert(vars.take(i as int) =~= vars);
        while i > 0
            invariant
                i <= self.variable_map@.len(),
                vars == self@.variables,
                slot_of(vars, name@) == slot_of(vars.take(i as int), name@),
            decreases i,
        {
            let ghost pre = vars.take(i as int);
            assert(pre.last() == vars[i - 1]);
            assert(vars[i - 1] == self.variable_map@[i - 1]@);
            if self.variable_map[i - 1].eq(name) {
                return Some(i - 1);
            }
            assert(pre.drop_last() =~= vars.take(i - 1));
            i = i - 1;
        }
        None
    }

    /// Registers `f` under `selector`, replacing a function already there.
    pub fn insert_function(&mut self, selector: String, f: Function)
        requires
            old(self).wf(),
        ensures
            final(self).wf(),
            final(self)@ == (ContractView {
                functions: table_insert(old(self)@.functions, selector@, f@),
                ..old(self)@
            }),
    {
        let ghost tab = self@.functions;
        proof {
            lemma_key_index_range(tab, selector@);
        }
        match self.find_function(&selector) {
            Some(i) => {
                self.functions.set(i, (selector, f));
                assert(self@.functions =~= table_insert(tab, selector@, f@));
            },
            None => {
                proof {
                    lemma_key_index_none(tab, selector@);
                }
                self.functions.push((selector, f));
                assert(self@.functions =~= table_insert(tab, selector@, f@));
            },
        }
    }

    /// Declares a state variable: it takes the next slot, which starts at zero.
    pub fn declare_variable(&mut self, name: String)
        ensures
            final(self)@ == (ContractView {
                variables: old(self)@.variables.push(name@),
                storage: old(self)@.storage.push(Word::byte_word(0)),
                ..old(self)@
            }),
            old(self).wf() ==> final(self).wf(),
    {
        self.variable_map.push(name);
        self.storage.slots.push(Word::from_u8(0));
        assert(self@.variables =~= old(self)@.variables.push(name@));
        assert(self@.functions =~= old(self)@.functions);
    }

    /// A copy of this contract with `storage` in place of its own.
    pub fn with_storage(&self, storage: ContractStorage) -> (r: Contract)
        ensures
            r@ == (ContractView { storage: storage@, ..self@ }),
            self.wf() ==> r.wf(),
    {
        let mut functions: Vec<(String, Function)> = Vec::new();
        let mut i: usize = 0;
        while i < self.functions.len()
            invariant
                i <= self.functions@.len(),
                functions@.len() == i,
                forall|k: int|
                    0 <= k < i ==> (#[trigger] functions@[k]).0@ == self.functions@[k].0@
                        && functions@[k].1@ == self.functions@[k].1@,
            decreases self.functions@.len() - i,
        {
            let key = self.functions[i].0.clone();
            let f = self.functions[i].1.duplicate();
            functions.push((key, f));
            i = i + 1;
        }
        let variable_map = self.variable_map.clone();
        let r = Contract { name: self.name.clone(), functions, variable_map, storage };
        assert(r@.functions =~= self@.functions);
        assert(r@.variables =~= self@.variables);
        r
    }

    /// Calls the function registered under `calldata`, a selector.
    ///
    /// An unknown selector gives the contract unchanged and no return values.
    /// Otherwise the function's program runs on a copy of the storage; a fault
    /// aborts the call. A `View` or `Pure` function keeps the old storage, any
    /// other commits what the program left. The return values are decoded from
    /// the final stack.
    pub fn call(&self, calldata: &str) -> (r: Result<(Contract, Vec<Expression>), VmError>)
        ensures
            match key_index(self@.functions, calldata@) {
                None => r is Ok && r->Ok_0.0@ == self@ && r->Ok_0.1@.len() == 0,
                Some(i) => match call_result(self@, self@.functions[i].1) {
                    Ok((c, rets)) => r is Ok && r->Ok_0.0@ == c && r->Ok_0.1@ == rets,
                    Err(e) => r is Err && r->Err_0 == e,
                },
            },
            r is Ok ==> (self.wf() ==> r->Ok_0.0.wf()),
    {
        let selector = calldata.to_owned();
        match self.find_function(&selector) {
            None => Ok((self.with_storage(self.storage.duplicate()), Vec::new())),
            Some(i) => {
                let f = &self.functions[i].1;
                assert(f@ == self@.functions[i as int].1);

                let program = f.program.clone();
                assert(program@ =~= f.program@);
                let mut vm = VM::new(program, calldata.as_bytes());
                let written = match vm.run(self.storage.duplicate()) {
                    Ok(s) => s,
                    Err(e) => return Err(e),
                };
                let mut stack = vm.into_stack();
                let rets = pop_returns(&mut stack, &f.return_types);
                let storage = match f.mutability {
                    FuncMutability::View | FuncMutability::Pure => self.storage.duplicate(),
                    _ => written,
                };
                Ok((self.with_storage(storage), rets))
            },
        }
    }
}

/// Pops and decodes one word per declared return type, as `decode_returns` says.
pub fn pop_returns(stack: &mut Stack, types: &Vec<Type>) -> (r: Vec<Expression>)
    requires
        old(stack).wf(),
    ensures
        r@ == decode_returns(types@, old(stack)@),
{
    let ghost st0 = stack@;
    let mut out: Vec<Expression> = Vec::new();
    let mut i: usize = 0;
    assert(types@.skip(0) =~= types@);
    assert(out@ + decode_returns(types@, st0) =~= decode_returns(types@, st0));
    while i < types.len()
        invariant
            i <= types@.len(),
            stack.wf(),
            out@ + decode_returns(types@.skip(i as int), stack@) == decode_returns(types@, st0),
        decreases types@.len() - i,
    {
        let ghost rest_types = types@.skip(i as int);
        assert(rest_types.skip(1) =~= types@.skip(i + 1));
        assert(rest_types[0] == types@[i as int]);
        match stack.pop() {
            Ok(w) => {
                if types[i] == Type::Bool {
                    let e = Expression::BoolLiteral(w.hi == 0 && w.lo == 1);
                    assert(e == Expression::BoolLiteral(w.value() == 1));
                    let ghost prev = out@;
                    out.push(e);
                    assert(out@ + decode_returns(types@.skip(i + 1), stack@) =~= prev + (seq![e].add(
                        decode_returns(types@.skip(i + 1), stack@),
                    )));
                }
            },
            Err(_) => {},
        }
        i = i + 1;
    }
    assert(types@.skip(i as int).len() == 0);
    assert(out@ + Seq::<Expression>::empty() =~= out@);
    out
}

} // verus!
