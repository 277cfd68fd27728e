//! The lexer: a character cursor, the token scanner on top of it, and the
//! queue of pending tokens.

use std::collections::VecDeque;
use vstd::prelude::*;
use crate::chars::{blank, digit, ident_start, CharClass};
use crate::cursor::{CharCursor, MAX_SOURCE_LEN};
pub use crate::macros::Macro;
use crate::macros::MacroTable;
use crate::model::{
    define, directive, expand, expect, include_name, lemma_raw_token, lemma_step, macro_body,
    next_token, no_newline, pull, raw_token, step, visible, EventView, LexerView,
};
use crate::scan::{
    at_end, comment_close, ident_at, lemma_comment_close, lemma_run_end, line_at, literal_close,
    newline_at, number_at, quoted_at, run_end, scan, symbol_at, unless_end,
};
use crate::token::{read_view, views, LexError, LexErrorKind, Read, TokenView};
pub use crate::token::{Token, TokenKind};
use vstd::string::StringExecFns;

verus! {

/// A lexer over one source text.
pub struct Lexer {
    filename: String,
    cur: CharCursor,
    buf: VecDeque<Token>,
}

/// What one step of the preprocessor did.
pub enum Event {
    /// The next token for the consumer.
    Token(Token),
    /// The input is exhausted.
    End,
    /// The header of this name is asked for, by `#include <name>`. Its
    /// tokens are to be appended to the pending tokens before more is read.
    Include(String),
    /// The macro of this name was defined.
    Defined(String),
    /// A directive was read that has no effect.
    Skipped,
}

impl View for Event {
    type V = EventView;

    open spec fn view(&self) -> EventView {
        match self {
            Event::Token(t) => EventView::Token(t@),
            Event::End => EventView::End,
            Event::Include(name) => EventView::Include(name@),
            Event::Defined(name) => EventView::Defined(name@),
            Event::Skipped => EventView::Skipped,
        }
    }
}

/// The prefixes under which a header is looked for, in the order in which
/// they are tried. The last is empty: the name as it stands.
pub open spec fn search_prefixes() -> Seq<Seq<char>> {
    seq![
        "./include/"@,
        "/include/"@,
        "/usr/include/"@,
        "/usr/include/linux/"@,
        "/usr/include/x86_64-linux-gnu/"@,
        ""@,
    ]
}

/// The paths at which the header `filename` is looked for, in order.
pub open spec fn candidates(filename: Seq<char>) -> Seq<Seq<char>> {
    search_prefixes().map_values(|prefix: Seq<char>| prefix + filename)
}

/// The paths that a vector of strings holds.
pub open spec fn candidate_views(paths: Seq<String>) -> Seq<Seq<char>> {
    paths.map_values(|path: String| path@)
}

/// Whether `i` is the first search path at which a file is present.
pub open spec fn is_first_present(present: Seq<bool>, i: int) -> bool {
    &&& 0 <= i < search_prefixes().len()
    &&& i < present.len()
    &&& present[i]
    &&& forall|j: int| 0 <= j < i ==> !present[j]
}

/// The view of the result of a step.
pub open spec fn event_view(r: Result<Event, LexError>) -> Result<EventView, LexError> {
    match r {
        Ok(ev) => Ok(ev@),
        Err(e) => Err(e),
    }
}

/// The view of a name read where there may be none.
pub open spec fn name_view(r: Result<Option<String>, LexError>) -> Result<
    Option<Seq<char>>,
    LexError,
> {
    match r {
        Ok(Some(name)) => Ok(Some(name@)),
        Ok(None) => Ok(None),
        Err(e) => Err(e),
    }
}

/// The view of a name read.
pub open spec fn text_view(r: Result<String, LexError>) -> Result<Seq<char>, LexError> {
    match r {
        Ok(name) => Ok(name@),
        Err(e) => Err(e),
    }
}

/// A result of reading a replacement list, with `done` in front of the
/// list.
pub open spec fn after_tokens(
    done: Seq<TokenView>,
    rest: (LexerView, Result<Seq<TokenView>, LexError>),
) -> (LexerView, Result<Seq<TokenView>, LexError>) {
    match rest.1 {
        Ok(body) => (rest.0, Ok(done + body)),
        Err(e) => (rest.0, Err(e)),
    }
}

/// The view of a token read where a missing token is an error.
pub open spec fn token_view(r: Result<Token, LexError>) -> Read {
    match r {
        Ok(t) => Ok(Some(t@)),
        Err(e) => Err(e),
    }
}

/// `t` with its leading-space mark set to `spaced`.
fn marked(t: Token, spaced: bool) -> (m: Token)
    ensures
        m@ == (TokenView { space: spaced, ..t@ }),
{
    let mut m = t;
    m.space = spaced;
    m
}

impl View for Lexer {
    type V = LexerView;

    closed spec fn view(&self) -> LexerView {
        LexerView { input: self.cur.source(), pos: self.cur.offset(), buf: views(self.buf@) }
    }
}

impl Lexer {
    /// The display name of the source, as given to `new`.
    pub closed spec fn name(&self) -> Seq<char> {
        self.filename@
    }

    /// A lexer at the start of `input`, with no pending tokens.
    pub fn new(filename: String, input: &str) -> (lexer: Lexer)
        requires
            input@.len() <= MAX_SOURCE_LEN,
        ensures
            lexer@ == (LexerView { input: input@, pos: 0, buf: Seq::empty() }),
            lexer.name() == filename@,
    {
        let lexer = Lexer { filename, cur: CharCursor::new(input), buf: VecDeque::new() };
        assert(views(lexer.buf@) =~= Seq::empty());
        lexer
    }

    /// The display name of the source.
    pub fn get_filename(&self) -> (name: String)
        ensures
            name@ == self.name(),
    {
        self.filename.clone()
    }

    /// The line the cursor is on.
    pub fn line(&self) -> (n: i32)
        ensures
            self@.wf(),
            n == self@.line(),
    {
        self.cur.line()
    }

    /// Puts `t` in front of the pending tokens: it is the next one read.
    pub fn unget(&mut self, t: Token)
        ensures
            final(self)@ == old(self)@.unget(t@),
            final(self).name() == old(self).name(),
    {
        self.buf.push_front(t);
        assert(views(self.buf@) =~= seq![t@] + views(old(self).buf@));
    }

    /// Reads an identifier at the cursor: the longest run of letters,
    /// digits and `_`. The run may be empty.
    pub fn read_identifier(&mut self) -> (t: Token)
        ensures
            final(self)@ == old(self)@.after(ident_at(old(self)@.input, old(self)@.pos, false)),
            Ok::<Option<TokenView>, LexError>(Some(t@)) == ident_at(
                old(self)@.input,
                old(self)@.pos,
                false,
            ).result,
            final(self).name() == old(self).name(),
    {
        let line = self.cur.line();
        let ghost s = self.cur.source();
        let ghost start = self.cur.offset();
        let mut ident = String::new();
        while self.cur.peek_in(CharClass::Ident)
            invariant
                self.cur.source() == s,
                self.buf == old(self).buf,
                self.filename == old(self).filename,
                0 <= start <= self.cur.offset() <= s.len(),
                ident@ == s.subrange(start, self.cur.offset()),
                run_end(s, self.cur.offset(), CharClass::Ident) == run_end(
                    s,
                    start,
                    CharClass::Ident,
                ),
            decreases s.len() - self.cur.offset(),
        {
            let ghost at = self.cur.offset();
            match self.cur.peek_next() {
                Ok(c) => {
                    ident.push(c);
                },
                Err(_) => {},
            }
            assert(s.subrange(start, at + 1) =~= s.subrange(start, at).push(s[at]));
        }
        Token { kind: TokenKind::Identifier, space: false, val: ident, line }
    }

    /// Reads a numeric literal at the cursor: the longest run of digits and
    /// `.`, a float where it holds a `.` and an integer where it does not.
    pub fn read_number_literal(&mut self) -> (t: Token)
        ensures
            final(self)@ == old(self)@.after(number_at(old(self)@.input, old(self)@.pos, false)),
            Ok::<Option<TokenView>, LexError>(Some(t@)) == number_at(
                old(self)@.input,
                old(self)@.pos,
                false,
            ).result,
            final(self).name() == old(self).name(),
    {
        let line = self.cur.line();
        let ghost s = self.cur.source();
        let ghost start = self.cur.offset();
        let mut num = String::new();
        let mut is_float = false;
        while self.cur.peek_in(CharClass::Number)
            invariant
                self.cur.source() == s,
                self.buf == old(self).buf,
                self.filename == old(self).filename,
                0 <= start <= self.cur.offset() <= s.len(),
                num@ == s.subrange(start, self.cur.offset()),
                is_float == num@.contains('.'),
                run_end(s, self.cur.offset(), CharClass::Number) == run_end(
                    s,
                    start,
                    CharClass::Number,
                ),
            decreases s.len() - self.cur.offset(),
        {
            let ghost at = self.cur.offset();
            let ghost before = num@;
            match self.cur.peek_next() {
                Ok(c) => {
                    num.push(c);
                    if c == '.' {
                        is_float = true;
                    }
                },
                Err(_) => {},
            }
            proof {
                assert(s.subrange(start, at + 1) =~= before.push(s[at]));
                assert(num@[before.len() as int] == s[at]);
                if before.contains('.') {
                    let i = choose|i: int| 0 <= i < before.len() && before[i] == '.';
                    assert(num@[i] == '.');
                }
            }
        }
        let kind = if is_float {
            TokenKind::FloatNumber
        } else {
            TokenKind::IntNumber
        };
        Token { kind, space: false, val: num, line }
    }

    /// Consumes one character and returns the `Newline` token for it. At
    /// the end of the input nothing changes and the error is
    /// `UnexpectedEndOfInput`.
    pub fn read_newline(&mut self) -> (r: Result<Token, LexError>)
        ensures
            final(self)@ == old(self)@.after(
                unless_end(
                    old(self)@.input,
                    old(self)@.pos,
                    newline_at(old(self)@.input, old(self)@.pos, false),
                ),
            ),
            token_view(r) == unless_end(
                old(self)@.input,
                old(self)@.pos,
                newline_at(old(self)@.input, old(self)@.pos, false),
            ).result,
            final(self).name() == old(self).name(),
    {
        let line = self.cur.line();
        match self.cur.peek_next() {
            Ok(_) => {
                let t = Token { kind: TokenKind::Newline, space: false, val: String::new(), line };
                assert(t.val@ =~= self@.input.subrange(old(self)@.pos, old(self)@.pos));
                Ok(t)
            },
            Err(e) => Err(e),
        }
    }

    /// Reads the symbol at the cursor: the longest operator spelling that
    /// stands there, or the single character. At the end of the input
    /// nothing changes and the error is `UnexpectedEndOfInput`.
    pub fn read_symbol(&mut self) -> (r: Result<Token, LexError>)
        ensures
            final(self)@ == old(self)@.after(
                unless_end(
                    old(self)@.input,
                    old(self)@.pos,
                    symbol_at(old(self)@.input, old(self)@.pos, false),
                ),
            ),
            token_view(r) == unless_end(
                old(self)@.input,
                old(self)@.pos,
                symbol_at(old(self)@.input, old(self)@.pos, false),
            ).result,
            final(self).name() == old(self).name(),
    {
        let line = self.cur.line();
        let ghost s = self.cur.source();
        let ghost start = self.cur.offset();
        let c = match self.cur.peek_next() {
            Ok(c) => c,
            Err(e) => {
                return Err(e);
            },
        };
        let mut sym = String::new();
        sym.push(c);
        assert(sym@ =~= s.subrange(start, start + 1));
        if c == '+' || c == '-' || c == '*' || c == '/' || c == '%' || c == '=' || c == '^' || c
            == '!' {
            if self.cur.peek_char_is('=') {
                self.take_into(&mut sym, Ghost(start));
            }
        } else if c == '<' || c == '>' || c == '&' || c == '|' {
            if self.cur.peek_char_is(c) {
                self.take_into(&mut sym, Ghost(start));
            }
            if self.cur.peek_char_is('=') {
                self.take_into(&mut sym, Ghost(start));
            }
        } else if c == '.' {
            if self.cur.peek_char_is('.') && self.cur.peek_next_char_is('.') {
                self.take_into(&mut sym, Ghost(start));
                self.take_into(&mut sym, Ghost(start));
            }
        }
        Ok(Token { kind: TokenKind::Symbol, space: false, val: sym, line })
    }

    /// Reads a string literal: the character at the cursor opens it, and
    /// its text is what follows up to the closing `"`, verbatim. A backslash
    /// escapes the character after it, so an escaped `"` does not close the
    /// literal. An input that ends inside the literal gives
    /// `UnterminatedLiteral`; one that has ended already,
    /// `UnexpectedEndOfInput`.
    pub fn read_string_literal(&mut self) -> (r: Result<Token, LexError>)
        ensures
            final(self)@ == old(self)@.after(
                unless_end(
                    old(self)@.input,
                    old(self)@.pos,
                    quoted_at(old(self)@.input, old(self)@.pos, '"', TokenKind::String, false),
                ),
            ),
            token_view(r) == unless_end(
                old(self)@.input,
                old(self)@.pos,
                quoted_at(old(self)@.input, old(self)@.pos, '"', TokenKind::String, false),
            ).result,
            final(self).name() == old(self).name(),
    {
        self.read_quoted('"', TokenKind::String)
    }

    /// Reads a character literal: as `read_string_literal`, with `'` as the
    /// closing quote.
    pub fn read_char_literal(&mut self) -> (r: Result<Token, LexError>)
        ensures
            final(self)@ == old(self)@.after(
                unless_end(
                    old(self)@.input,
                    old(self)@.pos,
                    quoted_at(old(self)@.input, old(self)@.pos, '\'', TokenKind::Char, false),
                ),
            ),
            token_view(r) == unless_end(
                old(self)@.input,
                old(self)@.pos,
                quoted_at(old(self)@.input, old(self)@.pos, '\'', TokenKind::Char, false),
            ).result,
            final(self).name() == old(self).name(),
    {
        self.read_quoted('\'', TokenKind::Char)
    }

    /// Reads a literal of kind `kind` that `quote` closes.
    fn read_quoted(&mut self, quote: char, kind: TokenKind) -> (r: Result<Token, LexError>)
        ensures
            final(self)@ == old(self)@.after(
                unless_end(
                    old(self)@.input,
                    old(self)@.pos,
                    quoted_at(old(self)@.input, old(self)@.pos, quote, kind, false),
                ),
            ),
            token_view(r) == unless_end(
                old(self)@.input,
                old(self)@.pos,
                quoted_at(old(self)@.input, old(self)@.pos, quote, kind, false),
            ).result,
            final(self).name() == old(self).name(),
    {
        let line = self.cur.line();
        let ghost s = self.cur.source();
        let ghost open = self.cur.offset();
        match self.cur.peek_next() {
            Ok(_) => {},
            Err(e) => {
                return Err(e);
            },
        }
        let mut text = String::new();
        loop
            invariant
                self.cur.source() == s,
                self.buf == old(self).buf,
                self.filename == old(self).filename,
                0 <= open < self.cur.offset() <= s.len() <= MAX_SOURCE_LEN,
                text@ == s.subrange(open + 1, self.cur.offset()),
                literal_close(s, self.cur.offset(), quote) == literal_close(s, open + 1, quote),
                line == line_at(s, open),
                s == old(self)@.input,
                open == old(self)@.pos,
            decreases s.len() - self.cur.offset(),
        {
            let ghost at = self.cur.offset();
            let c = match self.cur.peek_next() {
                Ok(c) => c,
                Err(_) => {
                    return Err(
                        LexError { kind: LexErrorKind::UnterminatedLiteral, line: self.cur.line() },
                    );
                },
            };
            if c == quote {
                return Ok(Token { kind, space: false, val: text, line });
            }
            text.push(c);
            assert(s.subrange(open + 1, at + 1) =~= s.subrange(open + 1, at).push(s[at]));
            if c == '\\' {
                match self.cur.peek_next() {
                    Ok(d) => {
                        text.push(d);
                        assert(s.subrange(open + 1, at + 2) =~= s.subrange(open + 1, at + 1).push(
                            s[at + 1],
                        ));
                    },
                    Err(_) => {
                        return Err(
                            LexError {
                                kind: LexErrorKind::UnterminatedLiteral,
                                line: self.cur.line(),
                            },
                        );
                    },
                }
            }
        }
    }

    /// Skips a block comment whose opening `/*` was consumed: the cursor is
    /// left after the first `*/`. An input that ends first gives
    /// `UnterminatedComment`, the cursor at its end.
    fn skip_block_comment(&mut self) -> (r: Result<(), LexError>)
        ensures
            final(self).name() == old(self).name(),
            match comment_close(old(self)@.input, old(self)@.pos) {
                Some(e) => r is Ok && final(self)@ == (LexerView { pos: e, ..old(self)@ }),
                None => r == Err::<(), LexError>(
                    at_end(old(self)@.input, LexErrorKind::UnterminatedComment),
                ) && final(self)@ == (
                LexerView { pos: old(self)@.input.len() as int, ..old(self)@ }),
            },
    {
        self.cur.bounds();
        let ghost s = self.cur.source();
        let ghost start = self.cur.offset();
        loop
            invariant
                self.cur.source() == s,
                self.buf == old(self).buf,
                self.filename == old(self).filename,
                0 <= start <= self.cur.offset() <= s.len(),
                comment_close(s, self.cur.offset()) == comment_close(s, start),
                s == old(self)@.input,
                start == old(self)@.pos,
            decreases s.len() - self.cur.offset(),
        {
            if self.cur.peek_char_is('*') && self.cur.peek_next_char_is('/') {
                let _ = self.cur.peek_next();
                let _ = self.cur.peek_next();
                return Ok(());
            }
            match self.cur.peek_next() {
                Ok(_) => {},
                Err(_) => {
                    return Err(
                        LexError { kind: LexErrorKind::UnterminatedComment, line: self.cur.line() },
                    );
                },
            }
        }
    }

    /// Skips the rest of a line comment: the cursor is left at the line
    /// feed that ends it. An input that ends first gives
    /// `UnexpectedEndOfInput`, the cursor at its end.
    fn skip_line_comment(&mut self) -> (r: Result<(), LexError>)
        ensures
            final(self).name() == old(self).name(),
            final(self)@ == (LexerView {
                pos: run_end(old(self)@.input, old(self)@.pos, CharClass::NotNewline),
                ..old(self)@
            }),
            final(self)@.pos < old(self)@.input.len() ==> r is Ok,
            final(self)@.pos >= old(self)@.input.len() ==> r == Err::<(), LexError>(
                at_end(old(self)@.input, LexErrorKind::UnexpectedEndOfInput),
            ),
    {
        self.cur.bounds();
        let ghost s = self.cur.source();
        let ghost start = self.cur.offset();
        while self.cur.peek_in(CharClass::NotNewline)
            invariant
                self.cur.source() == s,
                self.buf == old(self).buf,
                self.filename == old(self).filename,
                0 <= start <= self.cur.offset() <= s.len(),
                run_end(s, self.cur.offset(), CharClass::NotNewline) == run_end(
                    s,
                    start,
                    CharClass::NotNewline,
                ),
            decreases s.len() - self.cur.offset(),
        {
            let _ = self.cur.peek_next();
        }
        match self.cur.peek_get() {
            Some(_) => Ok(()),
            None => Err(
                LexError { kind: LexErrorKind::UnexpectedEndOfInput, line: self.cur.line() },
            ),
        }
    }

    /// Scans the first raw token at or after the cursor. Blanks, comments
    /// and line continuations are skipped; a line feed is a token. The
    /// token is marked with leading space where a blank was skipped before
    /// it on its line.
    fn scan_token(&mut self) -> (r: Result<Option<Token>, LexError>)
        ensures
            final(self)@ == old(self)@.after(scan(old(self)@.input, old(self)@.pos, false)),
            read_view(r) == scan(old(self)@.input, old(self)@.pos, false).result,
            final(self).name() == old(self).name(),
    {
        self.cur.bounds();
        let ghost s = self.cur.source();
        let ghost start = self.cur.offset();
        let ghost goal = scan(s, start, false);
        let mut spaced = false;
        loop
            invariant
                self.cur.source() == s,
                self@.buf == old(self)@.buf,
                self.name() == old(self).name(),
                0 <= start <= self.cur.offset() <= s.len(),
                scan(s, self.cur.offset(), spaced) == goal,
                goal == scan(s, start, false),
                s == old(self)@.input,
                start == old(self)@.pos,
            decreases s.len() - self.cur.offset(),
        {
            let ghost here = self@;
            let c = match self.cur.peek_get() {
                Some(c) => c,
                None => {
                    return Ok(None);
                },
            };
            if blank(c) {
                let _ = self.cur.peek_next();
                spaced = true;
            } else if c == '\n' {
                return match self.read_newline() {
                    Ok(t) => Ok(Some(marked(t, spaced))),
                    Err(e) => Err(e),
                };
            } else if c == '\\' && self.cur.peek_next_char_is('\n') {
                let _ = self.cur.peek_next();
                let _ = self.cur.peek_next();
                spaced = false;
            } else if c == '/' && self.cur.peek_next_char_is('*') {
                let line = self.cur.line();
                let _ = self.cur.peek_next();
                let _ = self.cur.peek_next();
                proof {
                    lemma_comment_close(s, here.pos + 2);
                }
                match self.skip_block_comment() {
                    Ok(_) => {},
                    Err(e) => {
                        return Err(e);
                    },
                }
                if self.cur.line() != line {
                    spaced = false;
                }
            } else if c == '/' && self.cur.peek_next_char_is('/') {
                let _ = self.cur.peek_next();
                let _ = self.cur.peek_next();
                proof {
                    lemma_run_end(s, here.pos + 2, CharClass::NotNewline);
                }
                match self.skip_line_comment() {
                    Ok(_) => {},
                    Err(e) => {
                        return Err(e);
                    },
                }
            } else {
                let r = if ident_start(c) {
                    Ok(self.read_identifier())
                } else if digit(c) {
                    Ok(self.read_number_literal())
                } else if c == '"' {
                    self.read_string_literal()
                } else if c == '\'' {
                    self.read_char_literal()
                } else {
                    self.read_symbol()
                };
                return match r {
                    Ok(t) => Ok(Some(marked(t, spaced))),
                    Err(e) => Err(e),
                };
            }
        }
    }

    /// Reads one raw token: the first pending token if there is one, else
    /// the token scanned at the cursor, a line feed counting as a token.
    /// `None` is the end of the input.
    pub fn do_read_token(&mut self) -> (r: Result<Option<Token>, LexError>)
        ensures
            final(self)@ == raw_token(old(self)@).0,
            read_view(r) == raw_token(old(self)@).1,
            final(self).name() == old(self).name(),
    {
        match self.buf.pop_front() {
            Some(t) => {
                assert(views(self.buf@) =~= views(old(self).buf@).drop_first());
                Ok(Some(t))
            },
            None => self.scan_token(),
        }
    }

    /// Reads one visible token: raw tokens are read until one is no line
    /// feed. `None` is the end of the input.
    pub fn read_token(&mut self) -> (r: Result<Option<Token>, LexError>)
        ensures
            final(self)@ == next_token(old(self)@).0,
            read_view(r) == next_token(old(self)@).1,
            final(self).name() == old(self).name(),
    {
        self.cur.bounds();
        loop
            invariant
                self@.wf(),
                next_token(self@) == next_token(old(self)@),
                self.name() == old(self).name(),
            decreases self@.pending(),
        {
            let ghost before = self@;
            proof {
                lemma_raw_token(before);
            }
            match self.do_read_token() {
                Ok(Some(t)) => {
                    if t.kind != TokenKind::Newline {
                        return Ok(Some(t));
                    }
                },
                other => {
                    return other;
                },
            }
        }
    }

    /// Expects the token spelled `s`: one visible token is read; where its
    /// text is `s` and it is no string or character literal, it is consumed
    /// and the result is `true`; else it is put back in front of the
    /// pending tokens and the result is `false`. Where no token is left the
    /// error is `UnexpectedEndOfInput`.
    pub fn skip(&mut self, s: &str) -> (r: Result<bool, LexError>)
        ensures
            final(self)@ == expect(old(self)@, s@).0,
            r == expect(old(self)@, s@).1,
            final(self).name() == old(self).name(),
    {
        match self.read_token() {
            Err(e) => Err(e),
            Ok(None) => Err(
                LexError { kind: LexErrorKind::UnexpectedEndOfInput, line: self.cur.line() },
            ),
            Ok(Some(n)) => {
                let text = String::from_str(s);
                if n.val == text && n.kind != TokenKind::String && n.kind != TokenKind::Char {
                    Ok(true)
                } else {
                    self.unget(n);
                    Ok(false)
                }
            },
        }
    }

    /// Appends `tokens` to the pending tokens: they are read after those
    /// that were pending already, in their order. This is how the tokens of
    /// an included file enter the stream.
    pub fn splice(&mut self, tokens: Vec<Token>)
        ensures
            final(self)@ == (LexerView { buf: old(self)@.buf + views(tokens@), ..old(self)@ }),
            final(self).name() == old(self).name(),
    {
        let ghost all = tokens@;
        let n = tokens.len();
        let mut i: usize = 0;
        while i < n
            invariant
                n == all.len(),
                i <= n,
                tokens@ == all,
                self.cur == old(self).cur,
                self.filename == old(self).filename,
                self.buf@ == old(self).buf@ + all.subrange(0, i as int),
            decreases n - i,
        {
            self.buf.push_back(tokens[i].clone());
            assert(all.subrange(0, i + 1) =~= all.subrange(0, i as int).push(all[i as int]));
            i = i + 1;
        }
        assert(all.subrange(0, n as int) =~= all);
        assert(views(self.buf@) =~= views(old(self).buf@) + views(all));
    }

    /// Expands `token`: where its text names a macro, the replacement list
    /// is put in front of the pending tokens, in its order, and the next
    /// visible token is read, which is not expanded again; else `token`
    /// itself is the result.
    pub fn expand(&mut self, macros: &MacroTable, token: Token) -> (r: Result<
        Option<Token>,
        LexError,
    >)
        ensures
            final(self)@ == expand(old(self)@, macros@, token@).0,
            read_view(r) == expand(old(self)@, macros@, token@).1,
            final(self).name() == old(self).name(),
    {
        match macros.get(token.val.as_str()) {
            Some(Macro::Object(body)) => {
                let mut i: usize = body.len();
                while i > 0
                    invariant
                        i <= body.len(),
                        self.name() == old(self).name(),
                        self@ == (LexerView {
                            buf: views(body@).subrange(i as int, body.len() as int) + old(
                                self,
                            )@.buf,
                            ..old(self)@
                        }),
                    decreases i,
                {
                    i = i - 1;
                    let ghost before = self@.buf;
                    self.unget(body[i].clone());
                    assert(seq![body[i as int]@] + before =~= views(body@).subrange(
                        i as int,
                        body.len() as int,
                    ) + old(self)@.buf);
                }
                assert(views(body@).subrange(0, body.len() as int) =~= views(body@));
                self.read_token()
            },
            None => Ok(Some(token)),
        }
    }

    /// Processes what follows `#define`: the raw token after it names the
    /// macro, and the raw tokens after the name, up to the next line feed,
    /// are its replacement list, which may be empty. The list is recorded
    /// under the name, in place of any earlier one, the line feed is
    /// consumed, and the name is returned. `(` right after the name, with
    /// no space between, is a function-like macro, which gives
    /// `UnsupportedFeature`. Where the input ends before the line feed the
    /// error is `UnexpectedEndOfInput`.
    pub fn read_cpp_define(&mut self, macros: &mut MacroTable) -> (r: Result<String, LexError>)
        ensures
            final(self)@ == define(old(self)@, old(macros)@).0,
            final(macros)@ == define(old(self)@, old(macros)@).1,
            text_view(r) == define(old(self)@, old(macros)@).2,
            final(self).name() == old(self).name(),
    {
        self.cur.bounds();
        let name = match self.do_read_token() {
            Err(e) => {
                return Err(e);
            },
            Ok(None) => {
                return Err(
                    LexError { kind: LexErrorKind::UnexpectedEndOfInput, line: self.cur.line() },
                );
            },
            Ok(Some(t)) => t,
        };
        self.cur.bounds();
        let ghost from = self@;
        let ghost goal = define(old(self)@, old(macros)@);
        let mut t = match self.do_read_token() {
            Err(e) => {
                return Err(e);
            },
            Ok(None) => {
                return Err(
                    LexError { kind: LexErrorKind::UnexpectedEndOfInput, line: self.cur.line() },
                );
            },
            Ok(Some(t)) => t,
        };
        if t.kind == TokenKind::Symbol && !t.space && t.val == String::from_str("(") {
            return Err(LexError { kind: LexErrorKind::UnsupportedFeature, line: self.cur.line() });
        }
        let ghost mut prev = from;
        let mut body: Vec<Token> = Vec::new();
        self.cur.bounds();
        assert(Seq::<TokenView>::empty() + macro_body(from).1->Ok_0 =~= macro_body(from).1->Ok_0);
        loop
            invariant_except_break
                macro_body(from) == after_tokens(views(body@), macro_body(prev)),
            invariant
                prev.wf(),
                raw_token(prev) == (self@, Ok::<Option<TokenView>, LexError>(Some(t@))),
                self@.wf(),
                no_newline(views(body@)),
                self.name() == old(self).name(),
                *macros == *old(macros),
                goal == define(old(self)@, old(macros)@),
                goal.0 == macro_body(from).0,
                match macro_body(from).1 {
                    Ok(list) => goal.1 == old(macros)@.insert(name@.val, list) && goal.2 == Ok::<
                        Seq<char>,
                        LexError,
                    >(name@.val),
                    Err(e) => goal.1 == old(macros)@ && goal.2 == Err::<Seq<char>, LexError>(e),
                },
            ensures
                macro_body(from) == (self@, Ok::<Seq<TokenView>, LexError>(views(body@))),
                no_newline(views(body@)),
            decreases self@.pending(),
        {
            let ghost done = views(body@);
            if t.kind == TokenKind::Newline {
                assert(done + Seq::<TokenView>::empty() =~= done);
                break ;
            }
            proof {
                assert forall|rest: Seq<TokenView>| done + (seq![t@] + rest) == done.push(t@)
                    + rest by {
                    assert(done + (seq![t@] + rest) =~= done.push(t@) + rest);
                }
                prev = self@;
                lemma_raw_token(prev);
            }
            body.push(t);
            assert(views(body@) =~= done.push(t@));
            assert(macro_body(from) == after_tokens(views(body@), macro_body(prev)));
            t =
            match self.do_read_token() {
                Err(e) => {
                    return Err(e);
                },
                Ok(None) => {
                    return Err(
                        LexError {
                            kind: LexErrorKind::UnexpectedEndOfInput,
                            line: self.cur.line(),
                        },
                    );
                },
                Ok(Some(next)) => next,
            };
        }
        let key = name.val.clone();
        macros.define(name.val, Macro::Object(body));
        Ok(key)
    }

    /// Processes what follows `#include`: where the next visible token is
    /// `<`, the characters up to the next `>` are taken from the source as
    /// they stand and returned as the file name, the `>` consumed. Where no
    /// `<` follows the token read is put back and there is no name. Where
    /// the input ends before `>`, or before any token, the error is
    /// `UnexpectedEndOfInput`.
    pub fn read_cpp_include(&mut self) -> (r: Result<Option<String>, LexError>)
        ensures
            final(self)@ == include_name(old(self)@).0,
            name_view(r) == include_name(old(self)@).1,
            final(self).name() == old(self).name(),
    {
        match self.skip("<") {
            Err(e) => Err(e),
            Ok(false) => Ok(None),
            Ok(true) => {
                self.cur.bounds();
                let ghost s = self.cur.source();
                let ghost start = self.cur.offset();
                let ghost opened = self@;
                let mut filename = String::new();
                assert(filename@ =~= s.subrange(start, start));
                while self.cur.peek_in(CharClass::NotCloseAngle)
                    invariant
                        self@ == (LexerView { pos: self.cur.offset(), ..opened }),
                        self.name() == old(self).name(),
                        self.cur.source() == s,
                        0 <= start <= self.cur.offset() <= s.len(),
                        filename@ == s.subrange(start, self.cur.offset()),
                        run_end(s, self.cur.offset(), CharClass::NotCloseAngle) == run_end(
                            s,
                            start,
                            CharClass::NotCloseAngle,
                        ),
                    decreases s.len() - self.cur.offset(),
                {
                    self.take_into(&mut filename, Ghost(start));
                }
                match self.cur.peek_next() {
                    Ok(_) => Ok(Some(filename)),
                    Err(e) => Err(e),
                }
            },
        }
    }

    /// Processes a directive, `#` having been read: the raw token after it
    /// is the keyword. `include` and `define` are processed as
    /// `read_cpp_include` and `read_cpp_define` say; any other keyword is
    /// consumed and has no effect. Where no token follows the error is
    /// `UnexpectedEndOfInput`.
    pub fn read_cpp_directive(&mut self, macros: &mut MacroTable) -> (r: Result<Event, LexError>)
        ensures
            final(self)@ == directive(old(self)@, old(macros)@).0,
            final(macros)@ == directive(old(self)@, old(macros)@).1,
            event_view(r) == directive(old(self)@, old(macros)@).2,
            final(self).name() == old(self).name(),
    {
        let keyword = match self.do_read_token() {
            Err(e) => {
                return Err(e);
            },
            Ok(None) => {
                return Err(
                    LexError { kind: LexErrorKind::UnexpectedEndOfInput, line: self.cur.line() },
                );
            },
            Ok(Some(t)) => t,
        };
        if keyword.val == String::from_str("include") {
            match self.read_cpp_include() {
                Err(e) => Err(e),
                Ok(None) => Ok(Event::Skipped),
                Ok(Some(name)) => Ok(Event::Include(name)),
            }
        } else if keyword.val == String::from_str("define") {
            match self.read_cpp_define(macros) {
                Err(e) => Err(e),
                Ok(name) => Ok(Event::Defined(name)),
            }
        } else {
            Ok(Event::Skipped)
        }
    }

    /// Takes one step: a visible token is read. `#` opens a directive,
    /// which is processed; any other token is expanded and handed out.
    pub fn step(&mut self, macros: &mut MacroTable) -> (r: Result<Event, LexError>)
        ensures
            final(self)@ == step(old(self)@, old(macros)@).0,
            final(macros)@ == step(old(self)@, old(macros)@).1,
            event_view(r) == step(old(self)@, old(macros)@).2,
            final(self).name() == old(self).name(),
    {
        match self.read_token() {
            Err(e) => Err(e),
            Ok(None) => Ok(Event::End),
            Ok(Some(t)) => {
                if t.val == String::from_str("#") {
                    self.read_cpp_directive(macros)
                } else {
                    match self.expand(macros, t) {
                        Err(e) => Err(e),
                        Ok(None) => Ok(Event::End),
                        Ok(Some(t2)) => Ok(Event::Token(t2)),
                    }
                }
            },
        }
    }

    /// The next event for the consumer: a token, a request for a header, or
    /// the end of the input. Steps are taken until one of these comes up;
    /// the definitions met on the way are recorded in `macros`.
    ///
    /// After `Include` the consumer preprocesses the header with the same
    /// macro table and hands its tokens to `splice` before it calls `get`
    /// again: they then come out in place of the directive. A
    /// `Preprocessor` does this for a whole run.
    pub fn get(&mut self, macros: &mut MacroTable) -> (r: Result<Event, LexError>)
        ensures
            final(self)@ == pull(old(self)@, old(macros)@).0,
            final(macros)@ == pull(old(self)@, old(macros)@).1,
            event_view(r) == pull(old(self)@, old(macros)@).2,
            visible(event_view(r)),
            final(self).name() == old(self).name(),
    {
        self.cur.bounds();
        loop
            invariant
                self@.wf(),
                pull(self@, macros@) == pull(old(self)@, old(macros)@),
                self.name() == old(self).name(),
            decreases self@.pending(),
        {
            proof {
                lemma_step(self@, macros@);
            }
            match self.step(macros) {
                Ok(Event::Defined(_)) => {},
                Ok(Event::Skipped) => {},
                other => {
                    return other;
                },
            }
        }
    }

    /// Resolves a header name against the search paths: `present` says of
    /// each path of `include_candidates(filename)`, in their order, whether
    /// a file exists there. The result is the first path that has one;
    /// a path that `present` has no entry for counts as empty.
    pub fn cpp_try_include(filename: &str, present: &Vec<bool>) -> (r: Option<String>)
        ensures
            match r {
                Some(path) => exists|i: int|
                    {
                        &&& is_first_present(present@, i)
                        &&& path@ == #[trigger] candidates(filename@)[i]
                    },
                None => forall|i: int|
                    0 <= i < search_prefixes().len() && i < present@.len() ==> !present@[i],
            },
    {
        let paths = Lexer::include_candidates(filename);
        assert(candidate_views(paths@).len() == paths@.len());
        assert(candidates(filename@).len() == search_prefixes().len() == 6);
        let mut i: usize = 0;
        while i < paths.len() && i < present.len()
            invariant
                candidate_views(paths@) == candidates(filename@),
                paths@.len() == 6,
                forall|j: int| 0 <= j < i && j < present@.len() ==> !present@[j],
            decreases paths.len() - i,
        {
            if present[i] {
                assert(is_first_present(present@, i as int));
                assert(candidate_views(paths@)[i as int] == paths@[i as int]@);
                return Some(paths[i].clone());
            }
            i = i + 1;
        }
        None
    }

    /// The paths at which the header `filename` is looked for, in the order
    /// in which they are tried: `filename` after each search prefix.
    pub fn include_candidates(filename: &str) -> (paths: Vec<String>)
        ensures
            candidate_views(paths@) == candidates(filename@),
    {
        let mut paths: Vec<String> = Vec::new();
        paths.push(String::from_str("./include/").concat(filename));
        paths.push(String::from_str("/include/").concat(filename));
        paths.push(String::from_str("/usr/include/").concat(filename));
        paths.push(String::from_str("/usr/include/linux/").concat(filename));
        paths.push(String::from_str("/usr/include/x86_64-linux-gnu/").concat(filename));
        paths.push(String::from_str("").concat(filename));
        assert(candidate_views(paths@) =~= candidates(filename@));
        paths
    }

    /// Consumes the next character and appends it to `text`, which holds
    /// the source from `start` to the cursor.
    fn take_into(&mut self, text: &mut String, Ghost(start): Ghost<int>)
        requires
            0 <= start <= old(self)@.pos < old(self)@.input.len(),
            old(text)@ == old(self)@.input.subrange(start, old(self)@.pos),
        ensures
            final(self)@ == (LexerView { pos: old(self)@.pos + 1, ..old(self)@ }),
            final(text)@ == old(self)@.input.subrange(start, old(self)@.pos + 1),
            final(self).name() == old(self).name(),
    {
        let ghost s = self.cur.source();
        let ghost at = self.cur.offset();
        match self.cur.peek_next() {
            Ok(c) => {
                text.push(c);
            },
            Err(_) => {},
        }
        assert(s.subrange(start, at + 1) =~= s.subrange(start, at).push(s[at]));
    }
}

} // verus!
