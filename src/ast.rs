use vstd::prelude::*;

verus! {

/// A type name as it stands in source.
#[derive(Clone, Copy, Debug, PartialEq, Eq, Structural)]
pub enum Type {
    Bool,
    Uint,
    Address,
    String,
}

/// A name in source.
#[derive(Clone, Debug)]
pub struct Identifier {
    pub name: String,
}

/// An expression of a function body.
#[derive(Debug)]
pub enum Expression {
    BoolLiteral(bool),
    Variable(Identifier),
    /// `left = right`
    Assign(Box<Expression>, Box<Expression>),
    /// `!expr`
    Not(Box<Expression>),
    /// A bare type reference.
    Type(Type),
}

/// A declared parameter or return value: its type, and its name where it has one.
#[derive(Clone, Debug)]
pub struct Parameter {
    pub ty: Type,
    pub name: Option<Identifier>,
}

/// The parameters of a function: none, or one.
#[derive(Clone, Debug)]
pub struct ParameterList {
    pub param: Option<Parameter>,
}

/// A statement of a function body.
#[derive(Debug)]
pub enum Statement {
    Expression(Expression),
    Return(Option<Expression>),
}

/// A visibility keyword.
#[derive(Clone, Copy, Debug, PartialEq, Eq, Structural)]
pub enum Visibility {
    Public,
    Private,
    Internal,
    External,
}

/// A state mutability keyword.
#[derive(Clone, Copy, Debug, PartialEq, Eq, Structural)]
pub enum Mutability {
    Constant,
    Payable,
    View,
    Pure,
}

/// One attribute of a function definition.
#[derive(Clone, Copy, Debug, PartialEq, Eq, Structural)]
pub enum FunctionAttribute {
    Visibility(Visibility),
    Mutability(Mutability),
}

/// A member of a contract definition.
#[derive(Debug)]
pub enum ContractPart {
    FunctionDefinition {
        name: Identifier,
        params: ParameterList,
        attributes: Vec<Option<FunctionAttribute>>,
        return_params: ParameterList,
        body: Option<Vec<Statement>>,
    },
    VariableDefinition { ty: Type, name: Identifier },
    ConstructorDefinition {
        params: ParameterList,
        attributes: Vec<Option<FunctionAttribute>>,
        body: Option<Vec<Statement>>,
    },
}

/// A top-level item of a source file.
#[derive(Debug)]
pub enum SourceUnitPart {
    ContractDefinition { name: Identifier, parts: Vec<ContractPart> },
    PragmaDirective(String),
}

/// A parsed source file.
#[derive(Debug)]
pub struct SourceUnit {
    pub parts: Vec<SourceUnitPart>,
}

} // verus!
