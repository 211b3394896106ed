//! Rendering a syntax error against the source text.
use vstd::prelude::*;
use vstd::string::StringExecFns;
use crate::grammar::ErrorKind;

verus! {

/// Where the line holding offset `o` starts.
pub open spec fn line_start(raw: Seq<char>, o: int) -> int
    decreases o,
{
    if o <= 0 {
        0
    } else if raw[o - 1] == '\n' {
        o
    } else {
        line_start(raw, o - 1)
    }
}

/// Where the line holding offset `o` ends (its newline, or the end of text).
pub open spec fn line_end(raw: Seq<char>, o: int) -> int
    decreases raw.len() - o,
{
    if o >= raw.len() {
        raw.len() as int
    } else if raw[o] == '\n' {
        o
    } else {
        line_end(raw, o + 1)
    }
}

/// The source line that holds `offset` (clamped to the text), a line that
/// points at the offset's column with `^`, and the message.
pub open spec fn diagnostic(raw: Seq<char>, offset: int, message: Seq<char>) -> Seq<char> {
    let o = if offset < raw.len() { offset } else { raw.len() as int };
    let s = line_start(raw, o);
    raw.subrange(s, line_end(raw, o)) + seq!['\n'] + Seq::new((o - s) as nat, |_i: int| ' ')
        + seq!['^', '\n'] + message
}

/// What each syntax error says.
pub open spec fn error_text(k: ErrorKind) -> Seq<char> {
    match k {
        ErrorKind::CommaBetweenArguments => "Expected comma between function call arguments"@,
        ErrorKind::ArgumentExpression => "Expected valid expression in function call arguments"@,
        ErrorKind::RightOperand => "Expected valid right hand side binary operand"@,
        ErrorKind::FunctionName => "Expected valid identifier for function name"@,
        ErrorKind::FunctionOpenParen => "Expected open parenthesis in function declaration"@,
        ErrorKind::ParameterSeparator =>
            "Expected comma or close parenthesis after parameter in function declaration"@,
        ErrorKind::ParameterName => "Expected valid identifier for function parameter"@,
        ErrorKind::FunctionBodyStatement => "Expected valid statement in function declaration"@,
        ErrorKind::ReturnExpression => "Expected valid expression in return statement"@,
        ErrorKind::ReturnSemicolon => "Expected semicolon in return statement"@,
        ErrorKind::LocalName => "Expected valid identifier for local name"@,
        ErrorKind::LocalExpression => "Expected valid expression in local declaration"@,
        ErrorKind::LocalSemicolon => "Expected semicolon in local declaration"@,
        ErrorKind::IfTest => "Expected valid expression for if test"@,
        ErrorKind::IfThen => "Expected then keyword after if test"@,
        ErrorKind::IfBodyStatement => "Expected valid statement in if body"@,
        ErrorKind::ExpressionSemicolon => "Expected semicolon after expression"@,
        ErrorKind::InvalidToken => "Invalid token while parsing"@,
    }
}

impl ErrorKind {
    /// The message of this error.
    pub fn message(&self) -> (r: &'static str)
        ensures
            r@ == error_text(*self),
    {
        match self {
            ErrorKind::CommaBetweenArguments => "Expected comma between function call arguments",
            ErrorKind::ArgumentExpression => "Expected valid expression in function call arguments",
            ErrorKind::RightOperand => "Expected valid right hand side binary operand",
            ErrorKind::FunctionName => "Expected valid identifier for function name",
            ErrorKind::FunctionOpenParen => "Expected open parenthesis in function declaration",
            ErrorKind::ParameterSeparator =>
                "Expected comma or close parenthesis after parameter in function declaration",
            ErrorKind::ParameterName => "Expected valid identifier for function parameter",
            ErrorKind::FunctionBodyStatement => "Expected valid statement in function declaration",
            ErrorKind::ReturnExpression => "Expected valid expression in return statement",
            ErrorKind::ReturnSemicolon => "Expected semicolon in return statement",
            ErrorKind::LocalName => "Expected valid identifier for local name",
            ErrorKind::LocalExpression => "Expected valid expression in local declaration",
            ErrorKind::LocalSemicolon => "Expected semicolon in local declaration",
            ErrorKind::IfTest => "Expected valid expression for if test",
            ErrorKind::IfThen => "Expected then keyword after if test",
            ErrorKind::IfBodyStatement => "Expected valid statement in if body",
            ErrorKind::ExpressionSemicolon => "Expected semicolon after expression",
            ErrorKind::InvalidToken => "Invalid token while parsing",
        }
    }
}

/// Relies on String::push: appends one character to the end of the string.
#[verifier::external_body]
fn push_char(s: &mut String, c: char)
    ensures
        final(s)@ == old(s)@.push(c),
{
    s.push(c)
}

/// Renders `message` under the source line that holds `offset`.
pub fn render(raw: &Vec<char>, offset: usize, message: &str) -> (r: String)
    ensures
        r@ == diagnostic(raw@, offset as int, message@),
{
    let o: usize = if offset < raw.len() { offset } else { raw.len() };
    let mut start: usize = o;
    while start > 0 && raw[start - 1] != '\n'
        invariant
            start <= o <= raw.len(),
            line_start(raw@, start as int) == line_start(raw@, o as int),
        decreases start,
    {
        start = start - 1;
    }
    let mut end: usize = o;
    while end < raw.len() && raw[end] != '\n'
        invariant
            o <= end <= raw.len(),
            line_end(raw@, end as int) == line_end(raw@, o as int),
        decreases raw.len() - end,
    {
        end = end + 1;
    }
    let mut r = String::new();
    let mut i: usize = start;
    while i < end
        invariant
            start <= i <= end <= raw.len(),
            r@ == raw@.subrange(start as int, i as int),
        decreases end - i,
    {
        push_char(&mut r, raw[i]);
        i = i + 1;
        assert(r@ =~= raw@.subrange(start as int, i as int));
    }
    push_char(&mut r, '\n');
    let ghost before = r@;
    let mut j: usize = start;
    while j < o
        invariant
            start <= j <= o,
            r@ == before + Seq::new((j - start) as nat, |_i: int| ' '),
        decreases o - j,
    {
        push_char(&mut r, ' ');
        j = j + 1;
        assert(r@ =~= before + Seq::new((j - start) as nat, |_i: int| ' '));
    }
    push_char(&mut r, '^');
    push_char(&mut r, '\n');
    r.append(message);
    assert(r@ =~= diagnostic(raw@, offset as int, message@));
    r
}

} // verus!
