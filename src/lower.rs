use vstd::prelude::*;
use crate::ast::{
    ContractPart, Expression, FunctionAttribute, Mutability, ParameterList, SourceUnit,
    SourceUnitPart, Statement, Type, Visibility,
};
use crate::contract::{
    Contract, ContractView, FuncMutability, FuncVisibility, Function, FunctionView, slot_of,
    table_insert,
};
use crate::selector::{find_function_signature, selector_of, signature_of};
use crate::vm::OP;
use crate::word::Word;

verus! {

/// A fault raised while a syntax tree is lowered to bytecode.
#[derive(Clone, Copy, Debug, PartialEq, Eq, Structural)]
pub enum LowerError {
    /// A variable that no state variable declaration names.
    UnknownIdentifier,
    /// An assignment whose left-hand side is not a variable.
    UnsupportedAssignmentTarget,
    /// A form the compiler has no rule for: a parameter of a type other than
    /// `bool`, or a variable whose slot does not fit in a byte.
    UnsupportedConstruct,
}

/// The byte that addresses the slot of `name`.
pub open spec fn slot_byte(vars: Seq<Seq<char>>, name: Seq<char>) -> Result<u8, LowerError> {
    match slot_of(vars, name) {
        None => Err(LowerError::UnknownIdentifier),
        Some(i) => if i < 256 {
            Ok(i as u8)
        } else {
            Err(LowerError::UnsupportedConstruct)
        },
    }
}

/// The code of an expression, given the state variables in slot order.
pub open spec fn lower_expr(e: Expression, vars: Seq<Seq<char>>) -> Result<Seq<OP>, LowerError>
    decreases e,
{
    match e {
        Expression::BoolLiteral(b) => Ok(seq![OP::PUSH1(if b { 1u8 } else { 0u8 })]),
        Expression::Variable(id) => match slot_byte(vars, id.name@) {
            Ok(s) => Ok(seq![OP::PUSH1(s), OP::SLOAD]),
            Err(err) => Err(err),
        },
        Expression::Assign(left, right) => match *left {
            Expression::Variable(id) => match lower_expr(*right, vars) {
                Ok(code) => match slot_byte(vars, id.name@) {
                    Ok(s) => Ok(code + seq![OP::PUSH1(s), OP::SSTORE]),
                    Err(err) => Err(err),
                },
                Err(err) => Err(err),
            },
            _ => Err(LowerError::UnsupportedAssignmentTarget),
        },
        Expression::Not(inner) => match lower_expr(*inner, vars) {
            Ok(code) => Ok(code.push(OP::ISZERO)),
            Err(err) => Err(err),
        },
        Expression::Type(_) => Ok(Seq::empty()),
    }
}

/// The code of one statement.
pub open spec fn lower_stmt(s: Statement, vars: Seq<Seq<char>>) -> Result<Seq<OP>, LowerError> {
    match s {
        Statement::Expression(e) => lower_expr(e, vars),
        Statement::Return(Some(e)) => match lower_expr(e, vars) {
            Ok(code) => Ok(code.push(OP::RETURN)),
            Err(err) => Err(err),
        },
        Statement::Return(None) => Ok(seq![OP::RETURN]),
    }
}

/// The code of a sequence of statements, one after the other; the first
/// statement that fails decides the error.
pub open spec fn lower_stmts(stmts: Seq<Statement>, vars: Seq<Seq<char>>) -> Result<Seq<OP>, LowerError>
    decreases stmts.len(),
{
    if stmts.len() == 0 {
        Ok(Seq::empty())
    } else {
        match lower_stmts(stmts.drop_last(), vars) {
            Ok(code) => match lower_stmt(stmts.last(), vars) {
                Ok(more) => Ok(code + more),
                Err(err) => Err(err),
            },
            Err(err) => Err(err),
        }
    }
}

/// The program of a function body: its statements, then a `RETURN` unless
/// the body already ends in a return statement.
pub open spec fn lower_body(stmts: Seq<Statement>, vars: Seq<Seq<char>>) -> Result<Seq<OP>, LowerError> {
    match lower_stmts(stmts, vars) {
        Ok(code) => if stmts.len() > 0 && stmts.last() is Return {
            Ok(code)
        } else {
            Ok(code.push(OP::RETURN))
        },
        Err(err) => Err(err),
    }
}

/// Once a prefix of the statements fails, the whole sequence fails the same way.
pub proof fn lemma_stmts_prefix_err(stmts: Seq<Statement>, k: int, vars: Seq<Seq<char>>)
    requires
        0 <= k <= stmts.len(),
        lower_stmts(stmts.take(k), vars) is Err,
    ensures
        lower_stmts(stmts, vars) == lower_stmts(stmts.take(k), vars),
    decreases stmts.len(),
{
    if stmts.len() == k {
        assert(stmts.take(k) =~= stmts);
    } else {
        assert(stmts.drop_last().take(k) =~= stmts.take(k));
        lemma_stmts_prefix_err(stmts.drop_last(), k, vars);
    }
}

/// The function visibility a keyword stands for.
pub open spec fn visibility_of(v: Visibility) -> FuncVisibility {
    match v {
        Visibility::Public => FuncVisibility::Public,
        Visibility::Private => FuncVisibility::Private,
        Visibility::Internal => FuncVisibility::Internal,
        Visibility::External => FuncVisibility::External,
    }
}

/// The function mutability a keyword stands for.
pub open spec fn mutability_of(m: Mutability) -> FuncMutability {
    match m {
        Mutability::Constant => FuncMutability::Constant,
        Mutability::Payable => FuncMutability::Payable,
        Mutability::View => FuncMutability::View,
        Mutability::Pure => FuncMutability::Pure,
    }
}

/// The last visibility attribute in the list, `Internal` where there is none.
pub open spec fn resolve_visibility(attrs: Seq<Option<FunctionAttribute>>) -> FuncVisibility
    decreases attrs.len(),
{
    if attrs.len() == 0 {
        FuncVisibility::Internal
    } else {
        match attrs.last() {
            Some(FunctionAttribute::Visibility(v)) => visibility_of(v),
            _ => resolve_visibility(attrs.drop_last()),
        }
    }
}

/// The last mutability attribute in the list, `NonPayable` where there is none.
pub open spec fn resolve_mutability(attrs: Seq<Option<FunctionAttribute>>) -> FuncMutability
    decreases attrs.len(),
{
    if attrs.len() == 0 {
        FuncMutability::NonPayable
    } else {
        match attrs.last() {
            Some(FunctionAttribute::Mutability(m)) => mutability_of(m),
            _ => resolve_mutability(attrs.drop_last()),
        }
    }
}

/// The visibility and mutability a list of attributes gives a function: for
/// each, the last one listed wins.
pub fn handle_attrs(attr_list: &Vec<Option<FunctionAttribute>>) -> (r: (FuncVisibility, FuncMutability))
    ensures
        r.0 == resolve_visibility(attr_list@),
        r.1 == resolve_mutability(attr_list@),
{
    let mut visibility = FuncVisibility::Internal;
    let mut mutability = FuncMutability::NonPayable;
    let mut i: usize = 0;
    while i < attr_list.len()
        invariant
            i <= attr_list@.len(),
            visibility == resolve_visibility(attr_list@.take(i as int)),
            mutability == resolve_mutability(attr_list@.take(i as int)),
        decreases attr_list@.len() - i,
    {
        assert(attr_list@.take(i + 1).drop_last() =~= attr_list@.take(i as int));
        match attr_list[i] {
            Some(FunctionAttribute::Visibility(v)) => {
                visibility = match v {
                    Visibility::Public => FuncVisibility::Public,
                    Visibility::Private => FuncVisibility::Private,
                    Visibility::Internal => FuncVisibility::Internal,
                    Visibility::External => FuncVisibility::External,
                };
            },
            Some(FunctionAttribute::Mutability(m)) => {
                mutability = match m {
                    Mutability::Constant => FuncMutability::Constant,
                    Mutability::Payable => FuncMutability::Payable,
                    Mutability::View => FuncMutability::View,
                    Mutability::Pure => FuncMutability::Pure,
                };
            },
            None => {},
        }
        i = i + 1;
    }
    assert(attr_list@.take(i as int) =~= attr_list@);
    (visibility, mutability)
}

/// The slot byte of a variable, as `slot_byte` says.
fn variable_slot(name: &String, contract: &Contract) -> (r: Result<u8, LowerError>)
    ensures
        r == slot_byte(contract@.variables, name@),
{
    match contract.find_variable(name) {
        None => Err(LowerError::UnknownIdentifier),
        Some(i) => {
            if i < 256 {
                Ok(i as u8)
            } else {
                Err(LowerError::UnsupportedConstruct)
            }
        },
    }
}

/// Lowers an expression to code that leaves its value, if it has one, on the stack.
pub fn handle_expression(expr: &Expression, contract: &Contract) -> (r: Result<Vec<OP>, LowerError>)
    ensures
        match lower_expr(*expr, contract@.variables) {
            Ok(code) => r is Ok && r->Ok_0@ == code,
            Err(err) => r == Err::<Vec<OP>, LowerError>(err),
        },
    decreases expr,
{
    match expr {
        Expression::BoolLiteral(b) => {
            let byte: u8 = if *b { 1 } else { 0 };
            let mut code: Vec<OP> = Vec::new();
            code.push(OP::PUSH1(byte));
            assert(code@ =~= seq![OP::PUSH1(byte)]);
            Ok(code)
        },
        Expression::Variable(id) => {
            let slot = match variable_slot(&id.name, contract) {
                Ok(s) => s,
                Err(err) => return Err(err),
            };
            let mut code: Vec<OP> = Vec::new();
            code.push(OP::PUSH1(slot));
            code.push(OP::SLOAD);
            assert(code@ =~= seq![OP::PUSH1(slot), OP::SLOAD]);
            Ok(code)
        },
        Expression::Assign(left, right) => {
            match &**left {
                Expression::Variable(id) => {
                    let mut code = match handle_expression(&**right, contract) {
                        Ok(c) => c,
                        Err(err) => return Err(err),
                    };
                    let slot = match variable_slot(&id.name, contract) {
                        Ok(s) => s,
                        Err(err) => return Err(err),
                    };
                    let ghost before = code@;
                    code.push(OP::PUSH1(slot));
                    code.push(OP::SSTORE);
                    assert(code@ =~= before + seq![OP::PUSH1(slot), OP::SSTORE]);
                    Ok(code)
                },
                _ => Err(LowerError::UnsupportedAssignmentTarget),
            }
        },
        Expression::Not(inner) => {
            let mut code = match handle_expression(&**inner, contract) {
                Ok(c) => c,
                Err(err) => return Err(err),
            };
            code.push(OP::ISZERO);
            Ok(code)
        },
        Expression::Type(_) => Ok(Vec::new()),
    }
}

/// Lowers one statement.
pub fn handle_statement(statement: &Statement, contract: &Contract) -> (r: Result<Vec<OP>, LowerError>)
    ensures
        match lower_stmt(*statement, contract@.variables) {
            Ok(code) => r is Ok && r->Ok_0@ == code,
            Err(err) => r == Err::<Vec<OP>, LowerError>(err),
        },
{
    match statement {
        Statement::Expression(expr) => handle_expression(expr, contract),
        Statement::Return(Some(expr)) => {
            let mut code = match handle_expression(expr, contract) {
                Ok(c) => c,
                Err(err) => return Err(err),
            };
            code.push(OP::RETURN);
            Ok(code)
        },
        Statement::Return(None) => {
            let mut code: Vec<OP> = Vec::new();
            code.push(OP::RETURN);
            assert(code@ =~= seq![OP::RETURN]);
            Ok(code)
        },
    }
}

/// Lowers a function body: its statements in order, then a `RETURN` unless
/// the last statement is a return.
pub fn handle_body(body: &Vec<Statement>, contract: &Contract) -> (r: Result<Vec<OP>, LowerError>)
    ensures
        match lower_body(body@, contract@.variables) {
            Ok(code) => r is Ok && r->Ok_0@ == code,
            Err(err) => r == Err::<Vec<OP>, LowerError>(err),
        },
{
    let ghost vars = contract@.variables;
    let mut code: Vec<OP> = Vec::new();
    let mut i: usize = 0;
    assert(body@.take(0) =~= Seq::<Statement>::empty());
    while i < body.len()
        invariant
            i <= body@.len(),
            vars == contract@.variables,
            lower_stmts(body@.take(i as int), vars) == Ok::<Seq<OP>, LowerError>(code@),
        decreases body@.len() - i,
    {
        assert(body@.take(i + 1).drop_last() =~= body@.take(i as int));
        assert(body@.take(i + 1).last() == body@[i as int]);
        let mut more = match handle_statement(&body[i], contract) {
            Ok(c) => c,
            Err(err) => {
                proof {
                    lemma_stmts_prefix_err(body@, i + 1, vars);
                }
                return Err(err);
            },
        };
        code.append(&mut more);
        i = i + 1;
    }
    assert(body@.take(i as int) =~= body@);
    let ends_in_return = body.len() > 0 && match &body[body.len() - 1] {
        Statement::Return(_) => true,
        _ => false,
    };
    if !ends_in_return {
        code.push(OP::RETURN);
    }
    Ok(code)
}

/// The types of the declared return values.
pub open spec fn declared_return_types(return_params: ParameterList) -> Seq<Type> {
    match return_params.param {
        Some(p) => seq![p.ty],
        None => Seq::empty(),
    }
}

/// What one member of a contract definition does to the contract built so far.
/// A state variable takes the next slot; a function with a body is lowered and
/// registered under its selector; a function without a body and a
/// constructor leave the contract as it is.
pub open spec fn apply_part(c: ContractView, part: ContractPart) -> Result<ContractView, LowerError> {
    match part {
        ContractPart::FunctionDefinition { name, params, attributes, return_params, body } => match body {
            None => Ok(c),
            Some(stmts) => match lower_body(stmts@, c.variables) {
                Err(err) => Err(err),
                Ok(prog) => match signature_of(name.name@, params) {
                    None => Err(LowerError::UnsupportedConstruct),
                    Some(sig) => Ok(
                        ContractView {
                            functions: table_insert(
                                c.functions,
                                selector_of(sig),
                                FunctionView {
                                    program: prog,
                                    visibility: resolve_visibility(attributes@),
                                    mutability: resolve_mutability(attributes@),
                                    return_types: declared_return_types(return_params),
                                },
                            ),
                            ..c
                        },
                    ),
                },
            },
        },
        ContractPart::VariableDefinition { name, .. } => Ok(
            ContractView {
                variables: c.variables.push(name.name@),
                storage: c.storage.push(Word::byte_word(0)),
                ..c
            },
        ),
        ContractPart::ConstructorDefinition { .. } => Ok(c),
    }
}

/// The members of a contract definition applied in order; the first that
/// fails decides the error.
pub open spec fn apply_parts(c: ContractView, parts: Seq<ContractPart>) -> Result<ContractView, LowerError>
    decreases parts.len(),
{
    if parts.len() == 0 {
        Ok(c)
    } else {
        match apply_parts(c, parts.drop_last()) {
            Ok(c2) => apply_part(c2, parts.last()),
            Err(err) => Err(err),
        }
    }
}

/// A contract with a name and nothing else.
pub open spec fn empty_contract(name: Seq<char>) -> ContractView {
    ContractView { name, functions: Seq::empty(), variables: Seq::empty(), storage: Seq::empty() }
}

/// The contract a top-level item defines, if it defines one.
pub open spec fn lower_unit_part(part: SourceUnitPart) -> Result<Option<ContractView>, LowerError> {
    match part {
        SourceUnitPart::ContractDefinition { name, parts } => match apply_parts(
            empty_contract(name.name@),
            parts@,
        ) {
            Ok(c) => Ok(Some(c)),
            Err(err) => Err(err),
        },
        SourceUnitPart::PragmaDirective(_) => Ok(None),
    }
}

/// The contracts of a source file, in order of definition.
pub open spec fn lower_unit(parts: Seq<SourceUnitPart>) -> Result<Seq<ContractView>, LowerError>
    decreases parts.len(),
{
    if parts.len() == 0 {
        Ok(Seq::empty())
    } else {
        match lower_unit(parts.drop_last()) {
            Ok(cs) => match lower_unit_part(parts.last()) {
                Ok(Some(c)) => Ok(cs.push(c)),
                Ok(None) => Ok(cs),
                Err(err) => Err(err),
            },
            Err(err) => Err(err),
        }
    }
}

/// Once a prefix of the members fails, the whole definition fails the same way.
pub proof fn lemma_parts_prefix_err(c: ContractView, parts: Seq<ContractPart>, k: int)
    requires
        0 <= k <= parts.len(),
        apply_parts(c, parts.take(k)) is Err,
    ensures
        apply_parts(c, parts) == apply_parts(c, parts.take(k)),
    decreases parts.len(),
{
    if parts.len() == k {
        assert(parts.take(k) =~= parts);
    } else {
        assert(parts.drop_last().take(k) =~= parts.take(k));
        lemma_parts_prefix_err(c, parts.drop_last(), k);
    }
}

/// Once a prefix of the items fails, the whole file fails the same way.
pub proof fn lemma_unit_prefix_err(parts: Seq<SourceUnitPart>, k: int)
    requires
        0 <= k <= parts.len(),
        lower_unit(parts.take(k)) is Err,
    ensures
        lower_unit(parts) == lower_unit(parts.take(k)),
    decreases parts.len(),
{
    if parts.len() == k {
        assert(parts.take(k) =~= parts);
    } else {
        assert(parts.drop_last().take(k) =~= parts.take(k));
        lemma_unit_prefix_err(parts.drop_last(), k);
    }
}

/// Applies one member of a contract definition to `contract`; on a fault the
/// contract is left as it was.
pub fn handle_contract_part(part: &ContractPart, contract: &mut Contract) -> (r: Result<(), LowerError>)
    requires
        old(contract).wf(),
    ensures
        final(contract).wf(),
        match apply_part(old(contract)@, *part) {
            Ok(c) => r is Ok && final(contract)@ == c,
            Err(err) => r == Err::<(), LowerError>(err) && final(contract)@ == old(contract)@,
        },
{
    match part {
        ContractPart::FunctionDefinition { name, params, attributes, return_params, body } => {
            match body {
                None => Ok(()),
                Some(stmts) => {
                    let program = match handle_body(stmts, contract) {
                        Ok(p) => p,
                        Err(err) => return Err(err),
                    };
                    let (visibility, mutability) = handle_attrs(attributes);
                    let mut return_tys: Vec<Type> = Vec::new();
                    match &return_params.param {
                        Some(p) => return_tys.push(p.ty),
                        None => {},
                    }
                    assert(return_tys@ =~= declared_return_types(*return_params));
                    let selector = match find_function_signature(&name.name, params) {
                        Some(sel) => sel,
                        None => return Err(LowerError::UnsupportedConstruct),
                    };
                    let f = Function { program, visibility, mutability, return_types: return_tys };
                    contract.insert_function(selector, f);
                    Ok(())
                },
            }
        },
        ContractPart::VariableDefinition { name, .. } => {
            contract.declare_variable(name.name.clone());
            Ok(())
        },
        ContractPart::ConstructorDefinition { .. } => Ok(()),
    }
}

/// Builds the contract a top-level item defines, if it defines one.
pub fn handle_source_unit_part(part: &SourceUnitPart) -> (r: Result<Option<Contract>, LowerError>)
    ensures
        match lower_unit_part(*part) {
            Ok(Some(c)) => r is Ok && r->Ok_0 is Some && r->Ok_0->Some_0@ == c && r->Ok_0->Some_0.wf(),
            Ok(None) => r is Ok && r->Ok_0 is None,
            Err(err) => r == Err::<Option<Contract>, LowerError>(err),
        },
{
    match part {
        SourceUnitPart::ContractDefinition { name, parts } => {
            let mut contract = Contract::new(name.name.clone());
            let ghost c0 = contract@;
            assert(c0 == empty_contract(name.name@));
            assert(parts@.take(0) =~= Seq::<ContractPart>::empty());
            let mut i: usize = 0;
            while i < parts.len()
                invariant
                    i <= parts@.len(),
                    contract.wf(),
                    c0 == empty_contract(name.name@),
                    lower_unit_part(*part) == (match apply_parts(c0, parts@) {
                        Ok(c) => Ok(Some(c)),
                        Err(err) => Err::<Option<ContractView>, LowerError>(err),
                    }),
                    apply_parts(c0, parts@.take(i as int)) == Ok::<ContractView, LowerError>(
                        contract@,
                    ),
                decreases parts@.len() - i,
            {
                assert(parts@.take(i + 1).drop_last() =~= parts@.take(i as int));
                assert(parts@.take(i + 1).last() == parts@[i as int]);
                let ghost before = contract@;
                match handle_contract_part(&parts[i], &mut contract) {
                    Ok(()) => {},
                    Err(err) => {
                        assert(apply_part(before, parts@[i as int]) == Err::<ContractView, LowerError>(err));
                        assert(apply_parts(c0, parts@.take(i + 1)) == Err::<ContractView, LowerError>(err));
                        proof {
                            lemma_parts_prefix_err(c0, parts@, i + 1);
                        }
                        return Err(err);
                    },
                }
                i = i + 1;
            }
            assert(parts@.take(i as int) =~= parts@);
            Ok(Some(contract))
        },
        SourceUnitPart::PragmaDirective(_) => Ok(None),
    }
}

/// Builds the contracts of a source file, in order of definition; the first
/// fault aborts.
pub fn handle_source_unit(source_unit: &SourceUnit) -> (r: Result<Vec<Contract>, LowerError>)
    ensures
        match lower_unit(source_unit.parts@) {
            Ok(cs) => r is Ok && r->Ok_0@.len() == cs.len() && (forall|i: int|
                0 <= i < cs.len() ==> (#[trigger] r->Ok_0@[i])@ == cs[i] && r->Ok_0@[i].wf()),
            Err(err) => r == Err::<Vec<Contract>, LowerError>(err),
        },
{
    let ghost parts = source_unit.parts@;
    let mut out: Vec<Contract> = Vec::new();
    let mut i: usize = 0;
    assert(parts.take(0) =~= Seq::<SourceUnitPart>::empty());
    while i < source_unit.parts.len()
        invariant
            i <= parts.len(),
            parts == source_unit.parts@,
            lower_unit(parts.take(i as int)) is Ok,
            out@.len() == lower_unit(parts.take(i as int))->Ok_0.len(),
            forall|j: int|
                0 <= j < out@.len() ==> (#[trigger] out@[j])@ == lower_unit(parts.take(i as int))->Ok_0[j]
                    && out@[j].wf(),
        decreases parts.len() - i,
    {
        assert(parts.take(i + 1).drop_last() =~= parts.take(i as int));
        assert(parts.take(i + 1).last() == parts[i as int]);
        match handle_source_unit_part(&source_unit.parts[i]) {
            Ok(Some(c)) => out.push(c),
            Ok(None) => {},
            Err(err) => {
                proof {
                    lemma_unit_prefix_err(parts, i + 1);
                }
                return Err(err);
            },
        }
        i = i + 1;
    }
    assert(parts.take(i as int) =~= parts);
    Ok(out)
}

/// Compiles every contract that a source file defines.
pub fn create_contracts(source_unit: &SourceUnit) -> (r: Result<Vec<Contract>, LowerError>)
    ensures
        match lower_unit(source_unit.parts@) {
            Ok(cs) => r is Ok && r->Ok_0@.len() == cs.len() && (forall|i: int|
                0 <= i < cs.len() ==> (#[trigger] r->Ok_0@[i])@ == cs[i] && r->Ok_0@[i].wf()),
            Err(err) => r == Err::<Vec<Contract>, LowerError>(err),
        },
{
    handle_source_unit(source_unit)
}

} // verus!
