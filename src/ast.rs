use vstd::prelude::*;
use crate::token::{token_views, Token, TokenV};

verus! {

#[derive(Debug)]
pub enum Literal {
    Identifier(Token),
    Number(Token),
}

#[derive(Debug)]
pub struct FunctionCall {
    pub name: Token,
    pub arguments: Vec<Expression>,
}

#[derive(Debug)]
pub struct BinaryOperation {
    pub operator: Token,
    pub left: Box<Expression>,
    pub right: Box<Expression>,
}

#[derive(Debug)]
pub enum Expression {
    FunctionCall(FunctionCall),
    BinaryOperation(BinaryOperation),
    Literal(Literal),
}

#[derive(Debug)]
pub struct FunctionDeclaration {
    pub name: Token,
    pub parameters: Vec<Token>,
    pub body: Vec<Statement>,
}

#[derive(Debug)]
pub struct If {
    pub test: Expression,
    pub body: Vec<Statement>,
}

#[derive(Debug)]
pub struct Local {
    pub name: Token,
    pub expression: Expression,
}

#[derive(Debug)]
pub struct Return {
    pub expression: Expression,
}

#[derive(Debug)]
pub enum Statement {
    Expression(Expression),
    If(If),
    FunctionDeclaration(FunctionDeclaration),
    Return(Return),
    Local(Local),
}

/// A program: the ordered top-level statements.
pub type AST = Vec<Statement>;

/// The mathematical value of an expression.
pub ghost enum ExprV {
    Identifier(TokenV),
    Number(TokenV),
    Call { name: TokenV, arguments: Seq<ExprV> },
    Binary { operator: TokenV, left: Box<ExprV>, right: Box<ExprV> },
}

/// The mathematical value of a statement.
pub ghost enum StmtV {
    Expression(ExprV),
    If { test: ExprV, body: Seq<StmtV> },
    Function { name: TokenV, parameters: Seq<TokenV>, body: Seq<StmtV> },
    Return(ExprV),
    Local { name: TokenV, expression: ExprV },
}

pub open spec fn expr_view(e: Expression) -> ExprV
    decreases e,
{
    match e {
        Expression::Literal(Literal::Identifier(t)) => ExprV::Identifier(t@),
        Expression::Literal(Literal::Number(t)) => ExprV::Number(t@),
        Expression::FunctionCall(c) => ExprV::Call {
            name: c.name@,
            arguments: exprs_view(c.arguments@),
        },
        Expression::BinaryOperation(b) => ExprV::Binary {
            operator: b.operator@,
            left: Box::new(expr_view(*b.left)),
            right: Box::new(expr_view(*b.right)),
        },
    }
}

pub open spec fn exprs_view(es: Seq<Expression>) -> Seq<ExprV>
    decreases es,
{
    if es.len() == 0 {
        seq![]
    } else {
        exprs_view(es.drop_last()).push(expr_view(es.last()))
    }
}

pub open spec fn stmt_view(s: Statement) -> StmtV
    decreases s,
{
    match s {
        Statement::Expression(e) => StmtV::Expression(expr_view(e)),
        Statement::If(i) => StmtV::If { test: expr_view(i.test), body: stmts_view(i.body@) },
        Statement::FunctionDeclaration(f) => StmtV::Function {
            name: f.name@,
            parameters: token_views(f.parameters@),
            body: stmts_view(f.body@),
        },
        Statement::Return(r) => StmtV::Return(expr_view(r.expression)),
        Statement::Local(l) => StmtV::Local { name: l.name@, expression: expr_view(l.expression) },
    }
}

pub open spec fn stmts_view(ss: Seq<Statement>) -> Seq<StmtV>
    decreases ss,
{
    if ss.len() == 0 {
        seq![]
    } else {
        stmts_view(ss.drop_last()).push(stmt_view(ss.last()))
    }
}

impl View for Expression {
    type V = ExprV;

    open spec fn view(&self) -> ExprV {
        expr_view(*self)
    }
}

impl View for Statement {
    type V = StmtV;

    open spec fn view(&self) -> StmtV {
        stmt_view(*self)
    }
}

} // verus!
