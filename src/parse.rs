//! The executable parser, proved to follow [`crate::grammar`].
use vstd::prelude::*;
use crate::ast::{
    expr_view, exprs_view, stmt_view, stmts_view, BinaryOperation, ExprV, Expression,
    FunctionCall, FunctionDeclaration, If, Literal, Local, Return, Statement, StmtV, AST,
};
use crate::grammar::{
    is_operator, literal_at, spec_arguments, spec_body, spec_expression, spec_expression_statement,
    spec_function, spec_if, spec_local, spec_parameters, spec_parse, spec_program, spec_return,
    spec_statement, ErrorKind, Step,
};
use crate::diagnostic::{diagnostic, error_text, render};
use crate::token::{
    expect_identifier, expect_keyword, expect_number, expect_syntax, token_views, Token,
    TokenKind, TokenV,
};

verus! {

/// A syntax error: what was expected, and the index of the token where it
/// was not found (the sequence's length when the tokens ran out).
#[derive(Clone, Copy, Debug, PartialEq, Eq, Structural)]
pub struct ParseError {
    pub position: usize,
    pub kind: ErrorKind,
}

/// The outcome of one grammar rule at a position.
#[derive(Debug)]
pub enum Parsed<T> {
    /// The rule applied: its node and the position after it.
    Matched(T, usize),
    /// The rule does not start here; another rule may.
    NoMatch,
    /// The rule started, and the input is malformed.
    Failed(ParseError),
}

/// The grammar outcome that `r` stands for, its node seen through `f`.
pub open spec fn step_view<T, V>(r: Parsed<T>, f: spec_fn(T) -> V) -> Step<V> {
    match r {
        Parsed::Matched(x, j) => Step::Matched(f(x), j as int),
        Parsed::NoMatch => Step::NoMatch,
        Parsed::Failed(e) => Step::Failed(e.position as int, e.kind),
    }
}

/// A successful outcome ends strictly after `index` and within the tokens.
pub open spec fn advances<T>(r: Parsed<T>, index: usize, len: usize) -> bool {
    r matches Parsed::Matched(_, j) ==> index < j <= len
}

/// A failure points at a token, or just past the last one.
pub open spec fn fails_within<T>(r: Parsed<T>, len: usize) -> bool {
    r matches Parsed::Failed(e) ==> e.position <= len
}

proof fn lemma_exprs_push(s: Seq<Expression>, e: Expression)
    ensures
        exprs_view(s.push(e)) == exprs_view(s).push(expr_view(e)),
{
    assert(s.push(e).drop_last() =~= s);
}

proof fn lemma_stmts_push(s: Seq<Statement>, x: Statement)
    ensures
        stmts_view(s.push(x)) == stmts_view(s).push(stmt_view(x)),
{
    assert(s.push(x).drop_last() =~= s);
}

proof fn lemma_tokens_push(s: Seq<Token>, t: Token)
    ensures
        token_views(s.push(t)) == token_views(s).push(t@),
{
    assert(token_views(s.push(t)) =~= token_views(s).push(t@));
}

fn literal(tokens: &Vec<Token>, index: usize) -> (r: Expression)
    requires
        index < tokens.len(),
    ensures
        r@ == literal_at(token_views(tokens@), index as int),
{
    let t = tokens[index].duplicate();
    if t.kind == TokenKind::Number {
        Expression::Literal(Literal::Number(t))
    } else {
        Expression::Literal(Literal::Identifier(t))
    }
}

fn expect_operator(tokens: &Vec<Token>, index: usize) -> (r: bool)
    ensures
        r == is_operator(token_views(tokens@), index as int),
        r ==> index < tokens.len(),
{
    index < tokens.len() && tokens[index].kind == TokenKind::Syntax && !expect_syntax(
        tokens,
        index,
        ";",
    ) && !expect_syntax(tokens, index, ",") && !expect_syntax(tokens, index, ")")
}

/// Parses one expression at `index`: a function call, whose arguments are
/// expressions in turn, a binary operation between two literals, or a
/// literal that ends the expression.
pub fn parse_expression(tokens: &Vec<Token>, index: usize) -> (r: Parsed<Expression>)
    ensures
        step_view(r, |e: Expression| e@) == spec_expression(token_views(tokens@), index as int),
        advances(r, index, tokens.len()),
        fails_within(r, tokens.len()),
    decreases tokens.len() - index, 1int,
{
    let ghost toks = token_views(tokens@);
    if !(expect_identifier(tokens, index) || expect_number(tokens, index)) {
        return Parsed::NoMatch;
    }
    if expect_syntax(tokens, index + 1, "(") {
        let mut next: usize = index + 2;
        let mut arguments: Vec<Expression> = Vec::new();
        loop
            invariant
                index + 2 <= next <= tokens.len(),
                toks == token_views(tokens@),
                spec_arguments(toks, index + 2, seq![]) == spec_arguments(
                    toks,
                    next as int,
                    exprs_view(arguments@),
                ),
                spec_expression(toks, index as int) == match spec_arguments(
                    toks,
                    index + 2,
                    seq![],
                ) {
                    Step::Matched(args, j) => Step::Matched(
                        ExprV::Call { name: toks[index as int], arguments: args },
                        j,
                    ),
                    Step::Failed(p, k) => Step::Failed(p, k),
                    Step::NoMatch => Step::NoMatch,
                },
            decreases tokens.len() - next,
        {
            if expect_syntax(tokens, next, ")") {
                let call = FunctionCall { name: tokens[index].duplicate(), arguments };
                return Parsed::Matched(Expression::FunctionCall(call), next + 1);
            }
            let mut q = next;
            if arguments.len() > 0 {
                if !expect_syntax(tokens, next, ",") {
                    return Parsed::Failed(
                        ParseError { position: next, kind: ErrorKind::CommaBetweenArguments },
                    );
                }
                q = next + 1;
            }
            match parse_expression(tokens, q) {
                Parsed::Matched(arg, after) => {
                    proof {
                        lemma_exprs_push(arguments@, arg);
                    }
                    arguments.push(arg);
                    next = after;
                },
                Parsed::NoMatch => {
                    return Parsed::Failed(
                        ParseError { position: q, kind: ErrorKind::ArgumentExpression },
                    );
                },
                Parsed::Failed(e) => {
                    return Parsed::Failed(e);
                },
            }
        }
    }
    if !expect_operator(tokens, index + 1) {
        return Parsed::Matched(literal(tokens, index), index + 1);
    }
    if !(expect_identifier(tokens, index + 2) || expect_number(tokens, index + 2)) {
        return Parsed::Failed(ParseError { position: index + 2, kind: ErrorKind::RightOperand });
    }
    let operation = BinaryOperation {
        operator: tokens[index + 1].duplicate(),
        left: Box::new(literal(tokens, index)),
        right: Box::new(literal(tokens, index + 2)),
    };
    Parsed::Matched(Expression::BinaryOperation(operation), index + 3)
}

fn parse_parameters(tokens: &Vec<Token>, index: usize) -> (r: Parsed<Vec<Token>>)
    requires
        index <= tokens.len(),
    ensures
        step_view(r, |ps: Vec<Token>| token_views(ps@)) == spec_parameters(
            token_views(tokens@),
            index as int,
            seq![],
        ),
        advances(r, index, tokens.len()),
        fails_within(r, tokens.len()),
{
    let ghost toks = token_views(tokens@);
    let mut next: usize = index;
    let mut parameters: Vec<Token> = Vec::new();
    assert(token_views(parameters@) =~= seq![]);
    loop
        invariant
            index <= next <= tokens.len(),
            toks == token_views(tokens@),
            spec_parameters(toks, index as int, seq![]) == spec_parameters(
                toks,
                next as int,
                token_views(parameters@),
            ),
        decreases tokens.len() - next,
    {
        if expect_syntax(tokens, next, ")") {
            return Parsed::Matched(parameters, next + 1);
        }
        let mut q = next;
        if parameters.len() > 0 {
            if !expect_syntax(tokens, next, ",") {
                return Parsed::Failed(
                    ParseError { position: next, kind: ErrorKind::ParameterSeparator },
                );
            }
            q = next + 1;
        }
        if !expect_identifier(tokens, q) {
            return Parsed::Failed(ParseError { position: q, kind: ErrorKind::ParameterName });
        }
        let t = tokens[q].duplicate();
        proof {
            lemma_tokens_push(parameters@, t);
        }
        parameters.push(t);
        next = q + 1;
    }
}

/// Parses statements from `index` up to and including the keyword `end`.
fn parse_body(tokens: &Vec<Token>, index: usize, in_function: bool) -> (r: Parsed<Vec<Statement>>)
    requires
        index <= tokens.len(),
    ensures
        step_view(r, |b: Vec<Statement>| stmts_view(b@)) == spec_body(
            token_views(tokens@),
            index as int,
            seq![],
            in_function,
        ),
        advances(r, index, tokens.len()),
        fails_within(r, tokens.len()),
    decreases tokens.len() - index, 6int,
{
    let ghost toks = token_views(tokens@);
    let mut next: usize = index;
    let mut body: Vec<Statement> = Vec::new();
    loop
        invariant
            index <= next <= tokens.len(),
            toks == token_views(tokens@),
            spec_body(toks, index as int, seq![], in_function) == spec_body(
                toks,
                next as int,
                stmts_view(body@),
                in_function,
            ),
        decreases tokens.len() - next,
    {
        if expect_keyword(tokens, next, "end") {
            return Parsed::Matched(body, next + 1);
        }
        let kind = if in_function {
            ErrorKind::FunctionBodyStatement
        } else {
            ErrorKind::IfBodyStatement
        };
        match parse_statement(tokens, next) {
            Parsed::Matched(stmt, after) => {
                proof {
                    lemma_stmts_push(body@, stmt);
                }
                body.push(stmt);
                next = after;
            },
            Parsed::NoMatch => {
                return Parsed::Failed(ParseError { position: next, kind });
            },
            Parsed::Failed(e) => {
                return Parsed::Failed(e);
            },
        }
    }
}

/// Parses `function name(a, b, ...)` followed by statements up to `end`.
pub fn parse_function(tokens: &Vec<Token>, index: usize) -> (r: Parsed<Statement>)
    ensures
        step_view(r, |s: Statement| s@) == spec_function(token_views(tokens@), index as int),
        advances(r, index, tokens.len()),
        fails_within(r, tokens.len()),
    decreases tokens.len() - index, 4int,
{
    if !expect_keyword(tokens, index, "function") {
        return Parsed::NoMatch;
    }
    if !expect_identifier(tokens, index + 1) {
        return Parsed::Failed(ParseError { position: index + 1, kind: ErrorKind::FunctionName });
    }
    let name = tokens[index + 1].duplicate();
    if !expect_syntax(tokens, index + 2, "(") {
        return Parsed::Failed(
            ParseError { position: index + 2, kind: ErrorKind::FunctionOpenParen },
        );
    }
    let (parameters, next) = match parse_parameters(tokens, index + 3) {
        Parsed::Matched(ps, after) => (ps, after),
        Parsed::NoMatch => {
            return Parsed::NoMatch;
        },
        Parsed::Failed(e) => {
            return Parsed::Failed(e);
        },
    };
    match parse_body(tokens, next, true) {
        Parsed::Matched(body, after) => {
            let decl = FunctionDeclaration { name, parameters, body };
            Parsed::Matched(Statement::FunctionDeclaration(decl), after)
        },
        Parsed::NoMatch => Parsed::NoMatch,
        Parsed::Failed(e) => Parsed::Failed(e),
    }
}

/// Parses `return` followed by an expression and a semicolon.
pub fn parse_return(tokens: &Vec<Token>, index: usize) -> (r: Parsed<Statement>)
    ensures
        step_view(r, |s: Statement| s@) == spec_return(token_views(tokens@), index as int),
        advances(r, index, tokens.len()),
        fails_within(r, tokens.len()),
    decreases tokens.len() - index, 3int,
{
    if !expect_keyword(tokens, index, "return") {
        return Parsed::NoMatch;
    }
    match parse_expression(tokens, index + 1) {
        Parsed::Matched(expression, next) => {
            if !expect_syntax(tokens, next, ";") {
                return Parsed::Failed(
                    ParseError { position: next, kind: ErrorKind::ReturnSemicolon },
                );
            }
            Parsed::Matched(Statement::Return(Return { expression }), next + 1)
        },
        Parsed::NoMatch => Parsed::Failed(
            ParseError { position: index + 1, kind: ErrorKind::ReturnExpression },
        ),
        Parsed::Failed(e) => Parsed::Failed(e),
    }
}

/// Parses `local`, a name, an initializer expression and a semicolon.
pub fn parse_local(tokens: &Vec<Token>, index: usize) -> (r: Parsed<Statement>)
    ensures
        step_view(r, |s: Statement| s@) == spec_local(token_views(tokens@), index as int),
        advances(r, index, tokens.len()),
        fails_within(r, tokens.len()),
    decreases tokens.len() - index, 3int,
{
    if !expect_keyword(tokens, index, "local") {
        return Parsed::NoMatch;
    }
    if !expect_identifier(tokens, index + 1) {
        return Parsed::Failed(ParseError { position: index + 1, kind: ErrorKind::LocalName });
    }
    let name = tokens[index + 1].duplicate();
    match parse_expression(tokens, index + 2) {
        Parsed::Matched(expression, next) => {
            if !expect_syntax(tokens, next, ";") {
                return Parsed::Failed(
                    ParseError { position: next, kind: ErrorKind::LocalSemicolon },
                );
            }
            Parsed::Matched(Statement::Local(Local { name, expression }), next + 1)
        },
        Parsed::NoMatch => Parsed::Failed(
            ParseError { position: index + 2, kind: ErrorKind::LocalExpression },
        ),
        Parsed::Failed(e) => Parsed::Failed(e),
    }
}

/// Parses `if`, a test expression, `then`, and statements up to `end`.
pub fn parse_if(tokens: &Vec<Token>, index: usize) -> (r: Parsed<Statement>)
    ensures
        step_view(r, |s: Statement| s@) == spec_if(token_views(tokens@), index as int),
        advances(r, index, tokens.len()),
        fails_within(r, tokens.len()),
    decreases tokens.len() - index, 4int,
{
    if !expect_keyword(tokens, index, "if") {
        return Parsed::NoMatch;
    }
    match parse_expression(tokens, index + 1) {
        Parsed::Matched(test, next) => {
            if !expect_keyword(tokens, next, "then") {
                return Parsed::Failed(ParseError { position: next, kind: ErrorKind::IfThen });
            }
            match parse_body(tokens, next + 1, false) {
                Parsed::Matched(body, after) => {
                    Parsed::Matched(Statement::If(If { test, body }), after)
                },
                Parsed::NoMatch => Parsed::NoMatch,
                Parsed::Failed(e) => Parsed::Failed(e),
            }
        },
        Parsed::NoMatch => Parsed::Failed(
            ParseError { position: index + 1, kind: ErrorKind::IfTest },
        ),
        Parsed::Failed(e) => Parsed::Failed(e),
    }
}

/// Parses an expression followed by a semicolon.
pub fn parse_expression_statement(tokens: &Vec<Token>, index: usize) -> (r: Parsed<Statement>)
    ensures
        step_view(r, |s: Statement| s@) == spec_expression_statement(
            token_views(tokens@),
            index as int,
        ),
        advances(r, index, tokens.len()),
        fails_within(r, tokens.len()),
    decreases tokens.len() - index, 3int,
{
    match parse_expression(tokens, index) {
        Parsed::Matched(e, next) => {
            if !expect_syntax(tokens, next, ";") {
                return Parsed::Failed(
                    ParseError { position: next, kind: ErrorKind::ExpressionSemicolon },
                );
            }
            Parsed::Matched(Statement::Expression(e), next + 1)
        },
        Parsed::NoMatch => Parsed::NoMatch,
        Parsed::Failed(e) => Parsed::Failed(e),
    }
}

/// Parses one statement at `index`: the first of the rules if, expression
/// statement, return, function declaration and local that applies.
pub fn parse_statement(tokens: &Vec<Token>, index: usize) -> (r: Parsed<Statement>)
    ensures
        step_view(r, |s: Statement| s@) == spec_statement(token_views(tokens@), index as int),
        advances(r, index, tokens.len()),
        fails_within(r, tokens.len()),
    decreases tokens.len() - index, 5int,
{
    let r = parse_if(tokens, index);
    if !matches!(r, Parsed::NoMatch) {
        return r;
    }
    let r = parse_expression_statement(tokens, index);
    if !matches!(r, Parsed::NoMatch) {
        return r;
    }
    let r = parse_return(tokens, index);
    if !matches!(r, Parsed::NoMatch) {
        return r;
    }
    let r = parse_function(tokens, index);
    if !matches!(r, Parsed::NoMatch) {
        return r;
    }
    parse_local(tokens, index)
}

/// What the parse of a whole program comes to, in the terms of the grammar.
pub open spec fn program_view(r: Result<AST, ParseError>) -> Result<Seq<StmtV>, (int, ErrorKind)> {
    match r {
        Ok(ast) => Ok(stmts_view(ast@)),
        Err(e) => Err((e.position as int, e.kind)),
    }
}

/// The source offset that an error at token `position` points at: that
/// token's location, or the end of the text when the tokens ran out.
pub open spec fn error_offset(toks: Seq<TokenV>, raw_len: int, position: int) -> int {
    if 0 <= position < toks.len() {
        toks[position].loc.offset as int
    } else {
        raw_len
    }
}

/// The diagnostic for a failed parse of `toks` from the source `raw`.
pub open spec fn parse_message(raw: Seq<char>, toks: Seq<TokenV>, position: int, kind: ErrorKind) -> Seq<
    char,
> {
    diagnostic(raw, error_offset(toks, raw.len() as int, position), error_text(kind))
}

/// Parses statements until the tokens are used up; fails with the first
/// syntax error, or where no statement starts.
pub fn parse_tokens(tokens: &Vec<Token>) -> (r: Result<AST, ParseError>)
    ensures
        program_view(r) == spec_parse(token_views(tokens@)),
        r matches Err(e) ==> e.position <= tokens.len(),
{
    let ghost toks = token_views(tokens@);
    let mut ast: AST = Vec::new();
    let mut index: usize = 0;
    while index < tokens.len()
        invariant
            index <= tokens.len(),
            toks == token_views(tokens@),
            spec_parse(toks) == spec_program(toks, index as int, stmts_view(ast@)),
        decreases tokens.len() - index,
    {
        match parse_statement(tokens, index) {
            Parsed::Matched(stmt, next) => {
                proof {
                    lemma_stmts_push(ast@, stmt);
                }
                ast.push(stmt);
                index = next;
            },
            Parsed::NoMatch => {
                return Err(ParseError { position: index, kind: ErrorKind::InvalidToken });
            },
            Parsed::Failed(e) => {
                return Err(e);
            },
        }
    }
    Ok(ast)
}

/// Parses a program. On a syntax error the result is one message: the
/// source line of the offending token, a pointer to it, and what was
/// expected there.
pub fn parse(raw: &Vec<char>, tokens: Vec<Token>) -> (r: Result<AST, String>)
    ensures
        match spec_parse(token_views(tokens@)) {
            Ok(v) => r matches Ok(ast) && stmts_view(ast@) == v,
            Err((p, k)) => r matches Err(s) && s@ == parse_message(
                raw@,
                token_views(tokens@),
                p,
                k,
            ),
        },
{
    match parse_tokens(&tokens) {
        Ok(ast) => Ok(ast),
        Err(e) => {
            let offset = if e.position < tokens.len() {
                tokens[e.position].loc.offset
            } else {
                raw.len()
            };
            Err(render(raw, offset, e.kind.message()))
        },
    }
}

} // verus!
