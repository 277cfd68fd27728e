//! Tokens, the errors of the lexer, and their mathematical views.

use vstd::prelude::*;
use vstd::string::*;

verus! {

/// The kind of a token.
#[derive(PartialEq, Eq, Debug, Clone, Copy, Structural)]
pub enum TokenKind {
    Identifier,
    IntNumber,
    FloatNumber,
    String,
    Char,
    Symbol,
    /// A line feed. The scanner produces it to delimit macro bodies; the
    /// layers above the raw scanner never hand it out.
    Newline,
}

/// A lexical unit: its kind, its spelling, the line it started on and
/// whether horizontal whitespace came before it.
#[derive(PartialEq, Debug)]
pub struct Token {
    pub kind: TokenKind,
    /// Leading space.
    pub space: bool,
    pub val: String,
    pub line: i32,
}

/// What a `Token` is, as a value of mathematics.
pub struct TokenView {
    pub kind: TokenKind,
    pub space: bool,
    pub val: Seq<char>,
    pub line: int,
}

impl View for Token {
    type V = TokenView;

    open spec fn view(&self) -> TokenView {
        TokenView { kind: self.kind, space: self.space, val: self.val@, line: self.line as int }
    }
}

impl Clone for Token {
    fn clone(&self) -> (t: Token)
        ensures
            t == *self,
    {
        Token { kind: self.kind, space: self.space, val: self.val.clone(), line: self.line }
    }
}

impl Token {
    /// A token of the given kind, spelling and line, with no leading space.
    pub fn new(kind: TokenKind, val: &str, line: i32) -> (t: Token)
        ensures
            t@ == (TokenView { kind, space: false, val: val@, line: line as int }),
    {
        Token { kind, space: false, val: String::from_str(val), line }
    }
}

/// The views of a sequence of tokens, in order.
pub open spec fn views(tokens: Seq<Token>) -> Seq<TokenView> {
    tokens.map_values(|t: Token| t@)
}

/// Why lexing stopped. Every error is fatal: nothing is produced after it.
#[derive(PartialEq, Eq, Debug, Clone, Copy, Structural)]
pub enum LexErrorKind {
    /// A string or character literal was still open where the input ended.
    UnterminatedLiteral,
    /// A block comment was still open where the input ended.
    UnterminatedComment,
    /// A character or token was needed where the input had ended.
    UnexpectedEndOfInput,
    /// No search path held the requested header.
    IncludeNotFound,
    /// A function-like macro definition.
    UnsupportedFeature,
}

/// A fatal error with the line the lexer had reached.
#[derive(PartialEq, Eq, Debug, Clone, Copy, Structural)]
pub struct LexError {
    pub kind: LexErrorKind,
    pub line: i32,
}

/// What reading one token gives, as mathematics: a token, the end of the
/// input (`None`), or an error.
pub type Read = Result<Option<TokenView>, LexError>;

/// The view of the result of reading one token.
pub open spec fn read_view(r: Result<Option<Token>, LexError>) -> Read {
    match r {
        Ok(Some(t)) => Ok(Some(t@)),
        Ok(None) => Ok(None),
        Err(e) => Err(e),
    }
}

} // verus!
