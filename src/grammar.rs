//! The grammar, stated as a parser over token values.
//!
//! Each rule returns a [`Step`]: a node and the position after it, a
//! non-match (the rule does not start here), or a syntax error at a position.
//!
//! Where a rule goes on from the end of a sub-rule, it first checks that this
//! end lies after where it started and within the tokens. That check makes
//! termination evident here; it never fails, as
//! `laws::lemma_statement_progress` shows.
use vstd::prelude::*;
use crate::ast::{ExprV, StmtV};
use crate::token::{is_identifier, is_keyword, is_operand, is_syntax, TokenKind, TokenV};

verus! {

/// What a syntax error says was expected.
#[derive(Clone, Copy, Debug, PartialEq, Eq, Structural)]
pub enum ErrorKind {
    CommaBetweenArguments,
    ArgumentExpression,
    RightOperand,
    FunctionName,
    FunctionOpenParen,
    ParameterSeparator,
    ParameterName,
    FunctionBodyStatement,
    ReturnExpression,
    ReturnSemicolon,
    LocalName,
    LocalExpression,
    LocalSemicolon,
    IfTest,
    IfThen,
    IfBodyStatement,
    ExpressionSemicolon,
    InvalidToken,
}

/// The outcome of a grammar rule at a position.
pub ghost enum Step<T> {
    Matched(T, int),
    NoMatch,
    Failed(int, ErrorKind),
}

/// The literal expression that the token at `i` stands for.
pub open spec fn literal_at(toks: Seq<TokenV>, i: int) -> ExprV {
    if toks[i].kind == TokenKind::Number {
        ExprV::Number(toks[i])
    } else {
        ExprV::Identifier(toks[i])
    }
}

/// A syntax token that can join two literals stands at `i`: any but `;`,
/// `,` and `)`, which end an expression.
pub open spec fn is_operator(toks: Seq<TokenV>, i: int) -> bool {
    &&& 0 <= i < toks.len()
    &&& toks[i].kind == TokenKind::Syntax
    &&& !is_syntax(toks, i, ";"@)
    &&& !is_syntax(toks, i, ","@)
    &&& !is_syntax(toks, i, ")"@)
}

/// One expression starting at `i`: a call with its arguments, one binary
/// operation between two literals, or a literal that an end of expression
/// (`;`, `,`, `)`, a token that is no syntax, or the end of the tokens)
/// follows.
pub open spec fn spec_expression(toks: Seq<TokenV>, i: int) -> Step<ExprV>
    decreases toks.len() - i, 1int,
{
    if !is_operand(toks, i) {
        Step::NoMatch
    } else if is_syntax(toks, i + 1, "("@) {
        match spec_arguments(toks, i + 2, seq![]) {
            Step::Matched(args, j) => Step::Matched(ExprV::Call { name: toks[i], arguments: args }, j),
            Step::Failed(p, k) => Step::Failed(p, k),
            Step::NoMatch => Step::NoMatch,
        }
    } else if !is_operator(toks, i + 1) {
        Step::Matched(literal_at(toks, i), i + 1)
    } else if !is_operand(toks, i + 2) {
        Step::Failed(i + 2, ErrorKind::RightOperand)
    } else {
        Step::Matched(
            ExprV::Binary {
                operator: toks[i + 1],
                left: Box::new(literal_at(toks, i)),
                right: Box::new(literal_at(toks, i + 2)),
            },
            i + 3,
        )
    }
}

/// The rest of a call's argument list from `p`, after the arguments `acc`,
/// up to and including the closing parenthesis.
pub open spec fn spec_arguments(toks: Seq<TokenV>, p: int, acc: Seq<ExprV>) -> Step<Seq<ExprV>>
    decreases toks.len() - p, 2int,
{
    if is_syntax(toks, p, ")"@) {
        Step::Matched(acc, p + 1)
    } else if acc.len() > 0 && !is_syntax(toks, p, ","@) {
        Step::Failed(p, ErrorKind::CommaBetweenArguments)
    } else {
        let q = if acc.len() > 0 { p + 1 } else { p };
        if q < 0 || q >= toks.len() {
            Step::Failed(q, ErrorKind::ArgumentExpression)
        } else {
            match spec_expression(toks, q) {
                Step::Matched(e, r) => if r <= q || r > toks.len() {
                    Step::Failed(q, ErrorKind::ArgumentExpression)
                } else {
                    spec_arguments(toks, r, acc.push(e))
                },
                Step::NoMatch => Step::Failed(q, ErrorKind::ArgumentExpression),
                Step::Failed(f, k) => Step::Failed(f, k),
            }
        }
    }
}

/// The rest of a parameter list from `p`, after the parameters `acc`, up to
/// and including the closing parenthesis.
pub open spec fn spec_parameters(toks: Seq<TokenV>, p: int, acc: Seq<TokenV>) -> Step<Seq<TokenV>>
    decreases toks.len() - p,
{
    if is_syntax(toks, p, ")"@) {
        Step::Matched(acc, p + 1)
    } else if acc.len() > 0 && !is_syntax(toks, p, ","@) {
        Step::Failed(p, ErrorKind::ParameterSeparator)
    } else {
        let q = if acc.len() > 0 { p + 1 } else { p };
        if !is_identifier(toks, q) {
            Step::Failed(q, ErrorKind::ParameterName)
        } else {
            spec_parameters(toks, q + 1, acc.push(toks[q]))
        }
    }
}

/// An expression followed by a semicolon.
pub open spec fn spec_expression_statement(toks: Seq<TokenV>, i: int) -> Step<StmtV>
    decreases toks.len() - i, 3int,
{
    match spec_expression(toks, i) {
        Step::Matched(e, j) => if is_syntax(toks, j, ";"@) {
            Step::Matched(StmtV::Expression(e), j + 1)
        } else {
            Step::Failed(j, ErrorKind::ExpressionSemicolon)
        },
        Step::NoMatch => Step::NoMatch,
        Step::Failed(p, k) => Step::Failed(p, k),
    }
}

/// `return`, an expression, and a semicolon.
pub open spec fn spec_return(toks: Seq<TokenV>, i: int) -> Step<StmtV>
    decreases toks.len() - i, 3int,
{
    if !is_keyword(toks, i, "return"@) {
        Step::NoMatch
    } else {
        match spec_expression(toks, i + 1) {
            Step::Matched(e, j) => if is_syntax(toks, j, ";"@) {
                Step::Matched(StmtV::Return(e), j + 1)
            } else {
                Step::Failed(j, ErrorKind::ReturnSemicolon)
            },
            Step::NoMatch => Step::Failed(i + 1, ErrorKind::ReturnExpression),
            Step::Failed(p, k) => Step::Failed(p, k),
        }
    }
}

/// `local`, a name, an initializer expression, and a semicolon.
pub open spec fn spec_local(toks: Seq<TokenV>, i: int) -> Step<StmtV>
    decreases toks.len() - i, 3int,
{
    if !is_keyword(toks, i, "local"@) {
        Step::NoMatch
    } else if !is_identifier(toks, i + 1) {
        Step::Failed(i + 1, ErrorKind::LocalName)
    } else {
        match spec_expression(toks, i + 2) {
            Step::Matched(e, j) => if is_syntax(toks, j, ";"@) {
                Step::Matched(StmtV::Local { name: toks[i + 1], expression: e }, j + 1)
            } else {
                Step::Failed(j, ErrorKind::LocalSemicolon)
            },
            Step::NoMatch => Step::Failed(i + 2, ErrorKind::LocalExpression),
            Step::Failed(p, k) => Step::Failed(p, k),
        }
    }
}

/// `if`, a test expression, `then`, and statements up to `end`.
pub open spec fn spec_if(toks: Seq<TokenV>, i: int) -> Step<StmtV>
    decreases toks.len() - i, 4int,
{
    if !is_keyword(toks, i, "if"@) {
        Step::NoMatch
    } else {
        match spec_expression(toks, i + 1) {
            Step::Matched(e, j) => if !is_keyword(toks, j, "then"@) {
                Step::Failed(j, ErrorKind::IfThen)
            } else if j <= i {
                Step::Failed(j, ErrorKind::IfThen)
            } else {
                match spec_body(toks, j + 1, seq![], false) {
                    Step::Matched(b, k) => Step::Matched(StmtV::If { test: e, body: b }, k),
                    Step::Failed(p, k) => Step::Failed(p, k),
                    Step::NoMatch => Step::NoMatch,
                }
            },
            Step::NoMatch => Step::Failed(i + 1, ErrorKind::IfTest),
            Step::Failed(p, k) => Step::Failed(p, k),
        }
    }
}

/// `function`, a name, a parenthesised parameter list, and statements up to
/// `end`.
pub open spec fn spec_function(toks: Seq<TokenV>, i: int) -> Step<StmtV>
    decreases toks.len() - i, 4int,
{
    if !is_keyword(toks, i, "function"@) {
        Step::NoMatch
    } else if !is_identifier(toks, i + 1) {
        Step::Failed(i + 1, ErrorKind::FunctionName)
    } else if !is_syntax(toks, i + 2, "("@) {
        Step::Failed(i + 2, ErrorKind::FunctionOpenParen)
    } else {
        match spec_parameters(toks, i + 3, seq![]) {
            Step::Matched(ps, j) => if j <= i || j > toks.len() {
                Step::Failed(j, ErrorKind::ParameterName)
            } else {
                match spec_body(toks, j, seq![], true) {
                    Step::Matched(b, k) => Step::Matched(
                        StmtV::Function { name: toks[i + 1], parameters: ps, body: b },
                        k,
                    ),
                    Step::Failed(p, k) => Step::Failed(p, k),
                    Step::NoMatch => Step::NoMatch,
                }
            },
            Step::Failed(p, k) => Step::Failed(p, k),
            Step::NoMatch => Step::NoMatch,
        }
    }
}

/// The rest of a block body from `p`, after the statements `acc`, up to and
/// including the keyword `end`.
pub open spec fn spec_body(toks: Seq<TokenV>, p: int, acc: Seq<StmtV>, in_function: bool) -> Step<
    Seq<StmtV>,
>
    decreases toks.len() - p, 6int,
{
    if is_keyword(toks, p, "end"@) {
        Step::Matched(acc, p + 1)
    } else if p < 0 || p > toks.len() {
        Step::Failed(p, body_error(in_function))
    } else {
        match spec_statement(toks, p) {
            Step::Matched(s, q) => if q <= p || q > toks.len() {
                Step::Failed(p, body_error(in_function))
            } else {
                spec_body(toks, q, acc.push(s), in_function)
            },
            Step::NoMatch => Step::Failed(p, body_error(in_function)),
            Step::Failed(f, k) => Step::Failed(f, k),
        }
    }
}

pub open spec fn body_error(in_function: bool) -> ErrorKind {
    if in_function {
        ErrorKind::FunctionBodyStatement
    } else {
        ErrorKind::IfBodyStatement
    }
}

/// The first statement rule that applies at `i`, tried in the order if,
/// expression statement, return, function declaration, local.
pub open spec fn spec_statement(toks: Seq<TokenV>, i: int) -> Step<StmtV>
    decreases toks.len() - i, 5int,
{
    let a = spec_if(toks, i);
    if !(a is NoMatch) {
        a
    } else {
        let b = spec_expression_statement(toks, i);
        if !(b is NoMatch) {
            b
        } else {
            let c = spec_return(toks, i);
            if !(c is NoMatch) {
                c
            } else {
                let d = spec_function(toks, i);
                if !(d is NoMatch) {
                    d
                } else {
                    spec_local(toks, i)
                }
            }
        }
    }
}

/// The statements of a program from `p` on, after the statements `acc`.
pub open spec fn spec_program(toks: Seq<TokenV>, p: int, acc: Seq<StmtV>) -> Result<
    Seq<StmtV>,
    (int, ErrorKind),
>
    decreases toks.len() - p,
{
    if p >= toks.len() || p < 0 {
        Ok(acc)
    } else {
        match spec_statement(toks, p) {
            Step::Matched(s, q) => if q <= p || q > toks.len() {
                Err((p, ErrorKind::InvalidToken))
            } else {
                spec_program(toks, q, acc.push(s))
            },
            Step::NoMatch => Err((p, ErrorKind::InvalidToken)),
            Step::Failed(f, k) => Err((f, k)),
        }
    }
}

/// The whole program: its statements, or the first syntax error.
pub open spec fn spec_parse(toks: Seq<TokenV>) -> Result<Seq<StmtV>, (int, ErrorKind)> {
    spec_program(toks, 0, seq![])
}

} // verus!
