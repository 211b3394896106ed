use vstd::prelude::*;
use vstd::string::StringExecFns;

verus! {

/// The class of a lexeme.
#[derive(Clone, Copy, Debug, PartialEq, Eq, Structural)]
pub enum TokenKind {
    Keyword,
    Syntax,
    Identifier,
    Number,
}

/// Where a token starts in the source text, as a character offset.
#[derive(Clone, Copy, Debug, PartialEq, Eq, Structural)]
pub struct Location {
    pub offset: usize,
}

/// A classified lexeme, as produced by the lexer.
#[derive(Clone, Debug)]
pub struct Token {
    pub kind: TokenKind,
    pub value: String,
    pub loc: Location,
}

/// The mathematical value of a token: its kind, its text and its location.
pub ghost struct TokenV {
    pub kind: TokenKind,
    pub value: Seq<char>,
    pub loc: Location,
}

impl View for Token {
    type V = TokenV;

    open spec fn view(&self) -> TokenV {
        TokenV { kind: self.kind, value: self.value@, loc: self.loc }
    }
}

/// The values of a token sequence.
pub open spec fn token_views(ts: Seq<Token>) -> Seq<TokenV> {
    ts.map_values(|t: Token| t@)
}

impl Token {
    pub fn new(kind: TokenKind, value: &str, offset: usize) -> (r: Token)
        ensures
            r@ == (TokenV { kind, value: value@, loc: Location { offset } }),
    {
        Token { kind, value: String::from_str(value), loc: Location { offset } }
    }

    /// A copy of the token that owns its own text.
    pub fn duplicate(&self) -> (r: Token)
        ensures
            r@ == self@,
    {
        Token { kind: self.kind, value: self.value.clone(), loc: self.loc }
    }
}

/// A keyword token with text `s` stands at position `i`.
pub open spec fn is_keyword(toks: Seq<TokenV>, i: int, s: Seq<char>) -> bool {
    0 <= i < toks.len() && toks[i].kind == TokenKind::Keyword && toks[i].value == s
}

/// A syntax token with text `s` stands at position `i`.
pub open spec fn is_syntax(toks: Seq<TokenV>, i: int, s: Seq<char>) -> bool {
    0 <= i < toks.len() && toks[i].kind == TokenKind::Syntax && toks[i].value == s
}

/// An identifier token stands at position `i`.
pub open spec fn is_identifier(toks: Seq<TokenV>, i: int) -> bool {
    0 <= i < toks.len() && toks[i].kind == TokenKind::Identifier
}

/// A number token stands at position `i`.
pub open spec fn is_number(toks: Seq<TokenV>, i: int) -> bool {
    0 <= i < toks.len() && toks[i].kind == TokenKind::Number
}

/// A token that can start an expression stands at position `i`.
pub open spec fn is_operand(toks: Seq<TokenV>, i: int) -> bool {
    is_identifier(toks, i) || is_number(toks, i)
}

pub fn expect_keyword(tokens: &Vec<Token>, index: usize, value: &str) -> (r: bool)
    ensures
        r == is_keyword(token_views(tokens@), index as int, value@),
        r ==> index < tokens.len(),
{
    if index >= tokens.len() {
        return false;
    }
    let t = &tokens[index];
    t.kind == TokenKind::Keyword && t.value == String::from_str(value)
}

pub fn expect_syntax(tokens: &Vec<Token>, index: usize, value: &str) -> (r: bool)
    ensures
        r == is_syntax(token_views(tokens@), index as int, value@),
        r ==> index < tokens.len(),
{
    if index >= tokens.len() {
        return false;
    }
    let t = &tokens[index];
    t.kind == TokenKind::Syntax && t.value == String::from_str(value)
}

pub fn expect_identifier(tokens: &Vec<Token>, index: usize) -> (r: bool)
    ensures
        r == is_identifier(token_views(tokens@), index as int),
        r ==> index < tokens.len(),
{
    if index >= tokens.len() {
        return false;
    }
    tokens[index].kind == TokenKind::Identifier
}

pub fn expect_number(tokens: &Vec<Token>, index: usize) -> (r: bool)
    ensures
        r == is_number(token_views(tokens@), index as int),
        r ==> index < tokens.len(),
{
    if index >= tokens.len() {
        return false;
    }
    tokens[index].kind == TokenKind::Number
}

} // verus!
