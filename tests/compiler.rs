use tinyvm::ast::{
    ContractPart, Expression, FunctionAttribute, Identifier, Mutability, Parameter, ParameterList,
    SourceUnit, SourceUnitPart, Statement, Type, Visibility,
};
use tinyvm::contract::{Contract, FuncMutability, FuncVisibility};
use tinyvm::lower::{create_contracts, handle_attrs, LowerError};
use tinyvm::selector::{find_function_signature, get_func_sig};
use tinyvm::stack::VmError;
use tinyvm::vm::OP;
use tinyvm::word::Word;

fn ident(s: &str) -> Identifier {
    Identifier { name: s.to_string() }
}

fn var(s: &str) -> Expression {
    Expression::Variable(ident(s))
}

fn no_params() -> ParameterList {
    ParameterList { param: None }
}

fn bool_param(name: Option<&str>) -> ParameterList {
    ParameterList { param: Some(Parameter { ty: Type::Bool, name: name.map(ident) }) }
}

fn state_bool(name: &str) -> ContractPart {
    ContractPart::VariableDefinition { ty: Type::Bool, name: ident(name) }
}

fn function(
    name: &str,
    attributes: Vec<Option<FunctionAttribute>>,
    return_params: ParameterList,
    body: Vec<Statement>,
) -> ContractPart {
    ContractPart::FunctionDefinition {
        name: ident(name),
        params: no_params(),
        attributes,
        return_params,
        body: Some(body),
    }
}

fn getter() -> ContractPart {
    function(
        "get",
        vec![Some(FunctionAttribute::Visibility(Visibility::Public)), Some(FunctionAttribute::Mutability(Mutability::View))],
        bool_param(None),
        vec![Statement::Return(Some(var("x")))],
    )
}

fn set_true() -> ContractPart {
    function(
        "setTrue",
        vec![Some(FunctionAttribute::Visibility(Visibility::Public))],
        no_params(),
        vec![Statement::Expression(Expression::Assign(Box::new(var("x")), Box::new(Expression::BoolLiteral(true))))],
    )
}

fn compile_one(parts: Vec<ContractPart>) -> Contract {
    let unit = SourceUnit {
        parts: vec![SourceUnitPart::ContractDefinition { name: ident("Flag"), parts }],
    };
    let mut cs = create_contracts(&unit).unwrap();
    assert_eq!(cs.len(), 1);
    cs.pop().unwrap()
}

fn program_of<'a>(c: &'a Contract, selector: &str) -> &'a Vec<OP> {
    let i = c.find_function(&selector.to_string()).unwrap();
    &c.functions[i].1.program
}

fn bools(values: &[Expression]) -> Vec<bool> {
    values
        .iter()
        .map(|e| match e {
            Expression::BoolLiteral(b) => *b,
            _ => panic!("not a bool literal"),
        })
        .collect()
}

#[test]
fn selector_of_foo_is_first_four_digest_bytes_in_hex() {
    let s = get_func_sig("foo()".to_string());
    assert_eq!(s, "c2985578");
    assert_eq!(s.len(), 8);
    assert!(s.chars().all(|c| c.is_ascii_hexdigit() && !c.is_ascii_uppercase()));
}

#[test]
fn selector_of_get_is_known_value() {
    assert_eq!(get_func_sig("get()".to_string()), "6d4ce63c");
    assert_ne!(get_func_sig("get()".to_string()), "get()");
}

#[test]
fn signature_text_with_bool_parameter() {
    let sel = find_function_signature(&"set".to_string(), &bool_param(Some("v"))).unwrap();
    assert_eq!(sel, get_func_sig("set(bool)".to_string()));
    let sel = find_function_signature(&"foo".to_string(), &no_params()).unwrap();
    assert_eq!(sel, "c2985578");
}

#[test]
fn non_bool_parameter_has_no_signature() {
    let params = ParameterList { param: Some(Parameter { ty: Type::Uint, name: None }) };
    assert!(find_function_signature(&"set".to_string(), &params).is_none());
}

#[test]
fn getter_lowers_and_reads_false() {
    let c = compile_one(vec![state_bool("x"), getter()]);
    assert_eq!(c.variable_map, vec!["x".to_string()]);
    assert_eq!(c.storage.slots, vec![Word::zero()]);
    let get = get_func_sig("get()".to_string());
    assert_eq!(program_of(&c, &get), &vec![OP::PUSH1(0), OP::SLOAD, OP::RETURN]);
    let (after, rets) = c.call(&get).unwrap();
    assert_eq!(bools(&rets), vec![false]);
    assert_eq!(after.storage.slots, c.storage.slots);
    assert_eq!(after.name, "Flag");
    assert_eq!(after.functions.len(), c.functions.len());
}

#[test]
fn set_true_then_get_reads_true() {
    let c = compile_one(vec![state_bool("x"), getter(), set_true()]);
    let set = get_func_sig("setTrue()".to_string());
    let get = get_func_sig("get()".to_string());
    assert_eq!(program_of(&c, &set), &vec![OP::PUSH1(1), OP::PUSH1(0), OP::SSTORE, OP::RETURN]);
    let (c2, rets) = c.call(&set).unwrap();
    assert!(rets.is_empty());
    assert_eq!(c2.storage.slots, vec![Word::one()]);
    let (_, rets) = c2.call(&get).unwrap();
    assert_eq!(bools(&rets), vec![true]);
}

#[test]
fn unknown_selector_leaves_contract_unchanged() {
    let c = compile_one(vec![state_bool("x"), getter()]);
    let (after, rets) = c.call("deadbeef").unwrap();
    assert!(rets.is_empty());
    assert_eq!(after.name, c.name);
    assert_eq!(after.storage.slots, c.storage.slots);
    assert_eq!(after.variable_map, c.variable_map);
    assert_eq!(after.functions.len(), c.functions.len());
    assert_eq!(after.functions[0].0, c.functions[0].0);
}

#[test]
fn view_function_discards_its_writes() {
    let writer = function(
        "peek",
        vec![Some(FunctionAttribute::Mutability(Mutability::View))],
        no_params(),
        vec![Statement::Expression(Expression::Assign(Box::new(var("x")), Box::new(Expression::BoolLiteral(true))))],
    );
    let c = compile_one(vec![state_bool("x"), writer]);
    let (after, _) = c.call(&get_func_sig("peek()".to_string())).unwrap();
    assert_eq!(after.storage.slots, vec![Word::zero()]);
}

#[test]
fn negation_lowers_to_iszero() {
    let f = function(
        "flip",
        vec![],
        bool_param(None),
        vec![
            Statement::Expression(Expression::Assign(
                Box::new(var("x")),
                Box::new(Expression::Not(Box::new(var("x")))),
            )),
            Statement::Return(Some(var("x"))),
        ],
    );
    let c = compile_one(vec![state_bool("x"), f]);
    let sel = get_func_sig("flip()".to_string());
    assert_eq!(
        program_of(&c, &sel),
        &vec![OP::PUSH1(0), OP::SLOAD, OP::ISZERO, OP::PUSH1(0), OP::SSTORE, OP::PUSH1(0), OP::SLOAD, OP::RETURN]
    );
    let (c2, rets) = c.call(&sel).unwrap();
    assert_eq!(bools(&rets), vec![true]);
    let (_, rets) = c2.call(&sel).unwrap();
    assert_eq!(bools(&rets), vec![false]);
}

#[test]
fn slots_follow_declaration_order() {
    let g = function("getY", vec![], bool_param(None), vec![Statement::Return(Some(var("y")))]);
    let c = compile_one(vec![state_bool("x"), state_bool("y"), g]);
    assert_eq!(c.variable_map, vec!["x".to_string(), "y".to_string()]);
    assert_eq!(c.storage.slots.len(), 2);
    let sel = get_func_sig("getY()".to_string());
    assert_eq!(program_of(&c, &sel), &vec![OP::PUSH1(1), OP::SLOAD, OP::RETURN]);
}

#[test]
fn empty_return_and_bare_type() {
    let f = function("noop", vec![], no_params(), vec![Statement::Expression(Expression::Type(Type::Bool)), Statement::Return(None)]);
    let c = compile_one(vec![f]);
    let sel = get_func_sig("noop()".to_string());
    assert_eq!(program_of(&c, &sel), &vec![OP::RETURN]);
}

#[test]
fn declaration_without_body_and_constructor_are_skipped() {
    let abstract_fn = ContractPart::FunctionDefinition {
        name: ident("later"),
        params: no_params(),
        attributes: vec![],
        return_params: no_params(),
        body: None,
    };
    let ctor = ContractPart::ConstructorDefinition { params: no_params(), attributes: vec![], body: Some(vec![]) };
    let c = compile_one(vec![abstract_fn, ctor]);
    assert!(c.functions.is_empty());
}

#[test]
fn non_bool_return_decodes_to_nothing() {
    let f = function(
        "count",
        vec![],
        ParameterList { param: Some(Parameter { ty: Type::Uint, name: None }) },
        vec![Statement::Return(Some(var("x")))],
    );
    let c = compile_one(vec![state_bool("x"), f]);
    let (_, rets) = c.call(&get_func_sig("count()".to_string())).unwrap();
    assert!(rets.is_empty());
}

#[test]
fn unknown_variable_is_an_error() {
    let unit = SourceUnit {
        parts: vec![SourceUnitPart::ContractDefinition {
            name: ident("C"),
            parts: vec![function("get", vec![], bool_param(None), vec![Statement::Return(Some(var("nope")))])],
        }],
    };
    assert!(matches!(create_contracts(&unit), Err(LowerError::UnknownIdentifier)));
}

#[test]
fn assignment_to_non_variable_is_an_error() {
    let bad = Statement::Expression(Expression::Assign(
        Box::new(Expression::BoolLiteral(true)),
        Box::new(Expression::BoolLiteral(false)),
    ));
    let unit = SourceUnit {
        parts: vec![SourceUnitPart::ContractDefinition {
            name: ident("C"),
            parts: vec![state_bool("x"), function("f", vec![], no_params(), vec![bad])],
        }],
    };
    assert!(matches!(create_contracts(&unit), Err(LowerError::UnsupportedAssignmentTarget)));
}

#[test]
fn non_bool_parameter_is_an_error() {
    let f = ContractPart::FunctionDefinition {
        name: ident("set"),
        params: ParameterList { param: Some(Parameter { ty: Type::Address, name: Some(ident("a")) }) },
        attributes: vec![],
        return_params: no_params(),
        body: Some(vec![]),
    };
    let unit = SourceUnit {
        parts: vec![SourceUnitPart::ContractDefinition { name: ident("C"), parts: vec![f] }],
    };
    assert!(matches!(create_contracts(&unit), Err(LowerError::UnsupportedConstruct)));
}

#[test]
fn slot_past_a_byte_is_an_error() {
    let mut parts: Vec<ContractPart> = (0..257).map(|i| state_bool(&format!("v{}", i))).collect();
    parts.push(function("g", vec![], bool_param(None), vec![Statement::Return(Some(var("v256")))]));
    let unit = SourceUnit {
        parts: vec![SourceUnitPart::ContractDefinition { name: ident("C"), parts }],
    };
    assert!(matches!(create_contracts(&unit), Err(LowerError::UnsupportedConstruct)));
}

#[test]
fn pragma_is_skipped_and_contracts_keep_order() {
    let unit = SourceUnit {
        parts: vec![
            SourceUnitPart::PragmaDirective("solidity ^0.8.0".to_string()),
            SourceUnitPart::ContractDefinition { name: ident("A"), parts: vec![] },
            SourceUnitPart::ContractDefinition { name: ident("B"), parts: vec![state_bool("x")] },
        ],
    };
    let cs = create_contracts(&unit).unwrap();
    assert_eq!(cs.len(), 2);
    assert_eq!(cs[0].name, "A");
    assert_eq!(cs[1].name, "B");
    assert_eq!(cs[1].storage.slots.len(), 1);
}

#[test]
fn attributes_last_one_wins_with_defaults() {
    assert_eq!(handle_attrs(&vec![]), (FuncVisibility::Internal, FuncMutability::NonPayable));
    let attrs = vec![
        Some(FunctionAttribute::Visibility(Visibility::Private)),
        None,
        Some(FunctionAttribute::Mutability(Mutability::Pure)),
        Some(FunctionAttribute::Visibility(Visibility::External)),
        Some(FunctionAttribute::Mutability(Mutability::Payable)),
    ];
    assert_eq!(handle_attrs(&attrs), (FuncVisibility::External, FuncMutability::Payable));
    let attrs = vec![Some(FunctionAttribute::Mutability(Mutability::Constant))];
    assert_eq!(handle_attrs(&attrs), (FuncVisibility::Internal, FuncMutability::Constant));
}

#[test]
fn redefined_function_replaces_the_old_one() {
    let a = function("f", vec![], bool_param(None), vec![Statement::Return(Some(Expression::BoolLiteral(false)))]);
    let b = function("f", vec![], bool_param(None), vec![Statement::Return(Some(Expression::BoolLiteral(true)))]);
    let c = compile_one(vec![a, b]);
    assert_eq!(c.functions.len(), 1);
    let (_, rets) = c.call(&get_func_sig("f()".to_string())).unwrap();
    assert_eq!(bools(&rets), vec![true]);
}

#[test]
fn execution_fault_aborts_the_call() {
    let mut body = Vec::new();
    for _ in 0..1025 {
        body.push(Statement::Expression(var("x")));
    }
    let c = compile_one(vec![state_bool("x"), function("deep", vec![], no_params(), body)]);
    let r = c.call(&get_func_sig("deep()".to_string()));
    assert!(matches!(r, Err(VmError::StackOverflow)));
}
