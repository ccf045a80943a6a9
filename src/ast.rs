use crate::types::RelieveType;
use vstd::prelude::*;

verus! {

broadcast use vstd::std_specs::vec::group_vec_axioms, vstd::seq::axiom_seq_index_decreases, vstd::seq::axiom_seq_subrange_decreases;

/// A whole program: its definitions in source order.
#[derive(Debug)]
pub struct Program {
    pub definitions: Vec<Definition>,
}

/// A top-level definition.
#[derive(Debug)]
#[non_exhaustive]
pub enum Definition {
    Function(FunctionDefinition),
}

#[derive(Debug)]
pub struct FunctionDefinition {
    pub name: String,
    pub parameters: Vec<Parameter>,
    pub return_type: RelieveType,
    pub body: Block,
}

#[derive(Debug)]
pub struct Block {
    pub statements: Vec<Statement>,
}

#[derive(Debug)]
pub struct Parameter {
    pub name: String,
    pub param_type: RelieveType,
}

#[derive(Debug)]
pub enum Statement {
    VariableDeclaration {
        name: String,
        is_mutable: bool,
        type_hint: Option<RelieveType>,
        initializer: Expression,
    },
    FunctionCall(FunctionCall),
}

#[derive(Debug)]
pub enum Expression {
    Literal(LiteralValue),
    Identifier(String),
    FunctionCall(FunctionCall),
}

#[derive(Debug)]
pub struct FunctionCall {
    pub name: String,
    pub arguments: Vec<Expression>,
}

#[derive(Debug)]
pub enum LiteralValue {
    String(String),
    Integer(i64),
    Boolean(bool),
}

/// The mathematical value of a literal.
pub enum LiteralModel {
    Str(Seq<char>),
    Int(i64),
    Bool(bool),
}

/// The mathematical value of an expression.
pub enum ExprModel {
    Literal(LiteralModel),
    Identifier(Seq<char>),
    Call(CallModel),
}

/// The mathematical value of a function call.
pub struct CallModel {
    pub name: Seq<char>,
    pub args: Seq<ExprModel>,
}

/// The mathematical value of a statement.
pub enum StmtModel {
    VariableDeclaration {
        name: Seq<char>,
        is_mutable: bool,
        type_hint: Option<RelieveType>,
        initializer: ExprModel,
    },
    Call(CallModel),
}

/// The mathematical value of a parameter.
pub struct ParamModel {
    pub name: Seq<char>,
    pub param_type: RelieveType,
}

/// The mathematical value of a function definition.
pub struct FunctionModel {
    pub name: Seq<char>,
    pub parameters: Seq<ParamModel>,
    pub return_type: RelieveType,
    pub body: Seq<StmtModel>,
}

/// The mathematical value of a definition.
pub enum DefinitionModel {
    Function(FunctionModel),
}

impl View for LiteralValue {
    type V = LiteralModel;

    open spec fn view(&self) -> LiteralModel {
        match self {
            LiteralValue::String(s) => LiteralModel::Str(s@),
            LiteralValue::Integer(i) => LiteralModel::Int(*i),
            LiteralValue::Boolean(b) => LiteralModel::Bool(*b),
        }
    }
}

pub open spec fn expr_view(e: Expression) -> ExprModel
    decreases e,
{
    match e {
        Expression::Literal(l) => ExprModel::Literal(l@),
        Expression::Identifier(s) => ExprModel::Identifier(s@),
        Expression::FunctionCall(c) => ExprModel::Call(
            CallModel { name: c.name@, args: exprs_view(c.arguments@) },
        ),
    }
}

pub open spec fn exprs_view(es: Seq<Expression>) -> Seq<ExprModel>
    decreases es,
{
    if es.len() == 0 {
        Seq::empty()
    } else {
        exprs_view(es.drop_last()).push(expr_view(es.last()))
    }
}

impl View for Expression {
    type V = ExprModel;

    open spec fn view(&self) -> ExprModel {
        expr_view(*self)
    }
}

impl View for FunctionCall {
    type V = CallModel;

    open spec fn view(&self) -> CallModel {
        CallModel { name: self.name@, args: exprs_view(self.arguments@) }
    }
}

impl View for Statement {
    type V = StmtModel;

    open spec fn view(&self) -> StmtModel {
        match self {
            Statement::VariableDeclaration { name, is_mutable, type_hint, initializer } =>
                StmtModel::VariableDeclaration {
                name: name@,
                is_mutable: *is_mutable,
                type_hint: *type_hint,
                initializer: initializer@,
            },
            Statement::FunctionCall(c) => StmtModel::Call(c@),
        }
    }
}

impl View for Parameter {
    type V = ParamModel;

    open spec fn view(&self) -> ParamModel {
        ParamModel { name: self.name@, param_type: self.param_type }
    }
}

impl View for Block {
    type V = Seq<StmtModel>;

    open spec fn view(&self) -> Seq<StmtModel> {
        self.statements@.map_values(|s: Statement| s@)
    }
}

impl View for FunctionDefinition {
    type V = FunctionModel;

    open spec fn view(&self) -> FunctionModel {
        FunctionModel {
            name: self.name@,
            parameters: self.parameters@.map_values(|p: Parameter| p@),
            return_type: self.return_type,
            body: self.body@,
        }
    }
}

impl View for Definition {
    type V = DefinitionModel;

    open spec fn view(&self) -> DefinitionModel {
        match self {
            Definition::Function(f) => DefinitionModel::Function(f@),
        }
    }
}

impl View for Program {
    type V = Seq<DefinitionModel>;

    open spec fn view(&self) -> Seq<DefinitionModel> {
        self.definitions@.map_values(|d: Definition| d@)
    }
}

} // verus!
