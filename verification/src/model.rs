//! The token buffer and the preprocessor as mathematics.
//!
//! A lexer is its source, a position in it and the queue of pending tokens.
//! Each function here takes such a state, and the macro table where it
//! matters, and gives the state that follows together with what was read.
//! The executable lexer is proved to compute exactly these functions.

use vstd::prelude::*;
use crate::chars::CharClass;
use crate::cursor::MAX_SOURCE_LEN;
use crate::scan::{lemma_run_end, lemma_scan, line_at, run_end, scan, Scanned};
use crate::token::{LexError, LexErrorKind, Read, TokenKind, TokenView};

verus! {

/// The macro table: a replacement list for every defined name.
pub type Macros = Map<Seq<char>, Seq<TokenView>>;

/// Whether no token of `list` is a line feed. Every replacement list is
/// such a list: a line feed ends it.
pub open spec fn no_newline(list: Seq<TokenView>) -> bool {
    forall|i: int| 0 <= i < list.len() ==> (#[trigger] list[i]).kind != TokenKind::Newline
}

/// Whether every replacement list of the table is free of line feeds.
pub open spec fn clean(macros: Macros) -> bool {
    forall|name: Seq<char>| macros.contains_key(name) ==> no_newline(#[trigger] macros[name])
}

/// The state of a lexer.
pub struct LexerView {
    /// The whole source text.
    pub input: Seq<char>,
    /// How many of its characters were consumed.
    pub pos: int,
    /// The pending tokens, the next one to hand out first.
    pub buf: Seq<TokenView>,
}

impl LexerView {
    /// The position lies in the source, and the source is not too long.
    pub open spec fn wf(self) -> bool {
        0 <= self.pos <= self.input.len() <= MAX_SOURCE_LEN
    }

    /// What is left to read: characters not consumed and tokens pending.
    pub open spec fn pending(self) -> int {
        self.input.len() - self.pos + self.buf.len()
    }

    /// The line the cursor is on.
    pub open spec fn line(self) -> int {
        line_at(self.input, self.pos)
    }

    /// The error `kind` on the current line.
    pub open spec fn error(self, kind: LexErrorKind) -> LexError {
        LexError { kind, line: self.line() as i32 }
    }

    /// The error of a read that found the input exhausted.
    pub open spec fn eof(self) -> LexError {
        self.error(LexErrorKind::UnexpectedEndOfInput)
    }

    /// The state after a scan: the cursor stands where the scan left it.
    pub open spec fn after(self, sc: Scanned) -> LexerView {
        LexerView { pos: sc.next, ..self }
    }

    /// The state with `t` put in front of the pending tokens.
    pub open spec fn unget(self, t: TokenView) -> LexerView {
        LexerView { buf: seq![t] + self.buf, ..self }
    }
}

/// One raw token: the first pending token if there is one, else the token
/// scanned at the cursor, a line feed counting as a token.
pub open spec fn raw_token(st: LexerView) -> (LexerView, Read) {
    if st.buf.len() > 0 {
        (LexerView { buf: st.buf.drop_first(), ..st }, Ok(Some(st.buf[0])))
    } else {
        let sc = scan(st.input, st.pos, false);
        (st.after(sc), sc.result)
    }
}

/// Reading a raw token keeps the state well formed and never adds to what
/// is pending; a token read takes something away.
pub proof fn lemma_raw_token(st: LexerView)
    requires
        st.wf(),
    ensures
        raw_token(st).0.wf(),
        raw_token(st).0.input == st.input,
        raw_token(st).0.pending() <= st.pending(),
        raw_token(st).1 matches Ok(Some(t)) ==> raw_token(st).0.pending() < st.pending(),
{
    if st.buf.len() == 0 {
        lemma_scan(st.input, st.pos, false);
    }
}

/// One visible token: raw tokens are read until one is no line feed.
pub open spec fn next_token(st: LexerView) -> (LexerView, Read)
    decreases st.pending(),
    when st.wf()
{
    let (st1, r) = raw_token(st);
    match r {
        Ok(Some(t)) => {
            if t.kind == TokenKind::Newline {
                proof {
                    lemma_raw_token(st);
                }
                next_token(st1)
            } else {
                (st1, r)
            }
        },
        _ => (st1, r),
    }
}

/// Reading a visible token keeps the state well formed and never adds to
/// what is pending; a token read takes something away and is no line feed.
pub proof fn lemma_next_token(st: LexerView)
    requires
        st.wf(),
    ensures
        next_token(st).0.wf(),
        next_token(st).0.input == st.input,
        next_token(st).0.pending() <= st.pending(),
        next_token(st).1 matches Ok(Some(t)) ==> next_token(st).0.pending() < st.pending()
            && t.kind != TokenKind::Newline,
    decreases st.pending(),
{
    lemma_raw_token(st);
    let (st1, r) = raw_token(st);
    if r matches Ok(Some(t)) && t.kind == TokenKind::Newline {
        lemma_next_token(st1);
    }
}

/// Whether a token is the operator or word spelled `text`: its spelling is
/// `text` and it is no string or character literal.
pub open spec fn spells(t: TokenView, text: Seq<char>) -> bool {
    t.val == text && t.kind != TokenKind::String && t.kind != TokenKind::Char
}

/// Expects `text`: one visible token is read; where it spells `text` it is
/// consumed, else it is put back in front. A missing token is an error.
pub open spec fn expect(st: LexerView, text: Seq<char>) -> (LexerView, Result<bool, LexError>) {
    let (st1, r) = next_token(st);
    match r {
        Err(e) => (st1, Err(e)),
        Ok(None) => (st1, Err(st1.eof())),
        Ok(Some(t)) => {
            if spells(t, text) {
                (st1, Ok(true))
            } else {
                (st1.unget(t), Ok(false))
            }
        },
    }
}

/// Expecting a token keeps the state well formed and never adds to what is
/// pending; finding it takes something away.
pub proof fn lemma_expect(st: LexerView, text: Seq<char>)
    requires
        st.wf(),
    ensures
        expect(st, text).0.wf(),
        expect(st, text).0.input == st.input,
        expect(st, text).0.pending() <= st.pending(),
        expect(st, text).1 == Ok::<bool, LexError>(true) ==> expect(st, text).0.pending()
            < st.pending(),
{
    lemma_next_token(st);
}

/// The replacement list of a definition: the raw tokens up to the next
/// line feed, which is consumed and left out.
pub open spec fn macro_body(st: LexerView) -> (LexerView, Result<Seq<TokenView>, LexError>)
    decreases st.pending(),
    when st.wf()
{
    let (st1, r) = raw_token(st);
    match r {
        Err(e) => (st1, Err(e)),
        Ok(None) => (st1, Err(st1.eof())),
        Ok(Some(t)) => {
            if t.kind == TokenKind::Newline {
                (st1, Ok(Seq::empty()))
            } else {
                proof {
                    lemma_raw_token(st);
                }
                let (st2, rest) = macro_body(st1);
                match rest {
                    Ok(body) => (st2, Ok(seq![t] + body)),
                    Err(e) => (st2, Err(e)),
                }
            }
        },
    }
}

/// Reading a replacement list keeps the state well formed and consumes at
/// least the line feed that ends it; no token of the list is a line feed.
pub proof fn lemma_macro_body(st: LexerView)
    requires
        st.wf(),
    ensures
        macro_body(st).0.wf(),
        macro_body(st).0.input == st.input,
        macro_body(st).0.pending() <= st.pending(),
        macro_body(st).1 matches Ok(body) ==> {
            &&& macro_body(st).0.pending() < st.pending()
            &&& no_newline(body)
        },
    decreases st.pending(),
{
    lemma_raw_token(st);
    let (st1, r) = raw_token(st);
    if r matches Ok(Some(t)) && t.kind != TokenKind::Newline {
        lemma_macro_body(st1);
    }
}

/// The outcome of a step that may change the macro table.
pub type Outcome<T> = (LexerView, Macros, Result<T, LexError>);

/// Whether `t`, the raw token after the name of a macro, opens the
/// parameter list of a function-like macro: it is the symbol `(` and
/// stands right after the name, with no space between.
pub open spec fn opens_parameters(t: TokenView) -> bool {
    t.kind == TokenKind::Symbol && t.val == "("@ && !t.space
}

/// Processes what follows `#define`: the raw token that names the macro,
/// then the replacement list, which is the raw tokens up to the next line
/// feed and may be empty. It is recorded under the name, in place of any
/// earlier one, and the result is the name. `(` right after the name is a
/// function-like macro, which is an error.
pub open spec fn define(st: LexerView, macros: Macros) -> Outcome<Seq<char>> {
    let (st1, r1) = raw_token(st);
    match r1 {
        Err(e) => (st1, macros, Err(e)),
        Ok(None) => (st1, macros, Err(st1.eof())),
        Ok(Some(name)) => {
            let (st2, r2) = raw_token(st1);
            if r2 matches Ok(Some(t)) && opens_parameters(t) {
                (st2, macros, Err(st2.error(LexErrorKind::UnsupportedFeature)))
            } else {
                let (st3, r3) = macro_body(st1);
                match r3 {
                    Err(e) => (st3, macros, Err(e)),
                    Ok(body) => (st3, macros.insert(name.val, body), Ok(name.val)),
                }
            }
        },
    }
}

/// Processes what follows `#include`: where the next visible token is `<`,
/// the characters up to the next `>` are the file name, taken from the
/// source as they stand, and the `>` is consumed; a source that ends first
/// is an error. Where no `<` follows there is no name, and the directive
/// has no effect.
pub open spec fn include_name(st: LexerView) -> (LexerView, Result<Option<Seq<char>>, LexError>) {
    let (st1, r) = expect(st, "<"@);
    match r {
        Err(e) => (st1, Err(e)),
        Ok(false) => (st1, Ok(None)),
        Ok(true) => {
            let e = run_end(st1.input, st1.pos, CharClass::NotCloseAngle);
            if e < st1.input.len() {
                (LexerView { pos: e + 1, ..st1 }, Ok(Some(st1.input.subrange(st1.pos, e))))
            } else {
                let end = LexerView { pos: e, ..st1 };
                (end, Err(end.eof()))
            }
        },
    }
}

/// What one step of the preprocessor did.
pub enum EventView {
    /// The next token for the consumer.
    Token(TokenView),
    /// The input is exhausted.
    End,
    /// The header of this name is asked for, by `#include <name>`.
    Include(Seq<char>),
    /// The macro of this name was defined.
    Defined(Seq<char>),
    /// A directive was read that has no effect.
    Skipped,
}

/// Processes a directive, `#` having been read: the raw token after it is
/// the keyword. `include` and `define` are processed; any other keyword is
/// consumed and has no effect.
pub open spec fn directive(st: LexerView, macros: Macros) -> Outcome<EventView> {
    let (st1, r) = raw_token(st);
    match r {
        Err(e) => (st1, macros, Err(e)),
        Ok(None) => (st1, macros, Err(st1.eof())),
        Ok(Some(keyword)) => {
            if keyword.val == "include"@ {
                let (st2, r2) = include_name(st1);
                match r2 {
                    Err(e) => (st2, macros, Err(e)),
                    Ok(None) => (st2, macros, Ok(EventView::Skipped)),
                    Ok(Some(name)) => (st2, macros, Ok(EventView::Include(name))),
                }
            } else if keyword.val == "define"@ {
                let (st2, m2, r2) = define(st1, macros);
                match r2 {
                    Err(e) => (st2, m2, Err(e)),
                    Ok(name) => (st2, m2, Ok(EventView::Defined(name))),
                }
            } else {
                (st1, macros, Ok(EventView::Skipped))
            }
        },
    }
}

/// Expands `t`: where its spelling names a macro, the replacement list is
/// put in front of the pending tokens and the next visible token is read,
/// without being expanded again; else `t` itself is the result.
pub open spec fn expand(st: LexerView, macros: Macros, t: TokenView) -> (LexerView, Read) {
    if macros.contains_key(t.val) {
        next_token(LexerView { buf: macros[t.val] + st.buf, ..st })
    } else {
        (st, Ok(Some(t)))
    }
}

/// One step of the preprocessor: a visible token is read; `#` opens a
/// directive, which is processed; any other token is expanded and handed
/// out.
pub open spec fn step(st: LexerView, macros: Macros) -> Outcome<EventView> {
    let (st1, r) = next_token(st);
    match r {
        Err(e) => (st1, macros, Err(e)),
        Ok(None) => (st1, macros, Ok(EventView::End)),
        Ok(Some(t)) => {
            if t.val == "#"@ {
                directive(st1, macros)
            } else {
                let (st2, r2) = expand(st1, macros, t);
                match r2 {
                    Err(e) => (st2, macros, Err(e)),
                    Ok(None) => (st2, macros, Ok(EventView::End)),
                    Ok(Some(t2)) => (st2, macros, Ok(EventView::Token(t2))),
                }
            }
        },
    }
}

/// Whether an event is for the consumer: a step that processed a
/// definition or a directive without effect is not.
pub open spec fn visible(r: Result<EventView, LexError>) -> bool {
    !(r matches Ok(EventView::Defined(_))) && r != Ok::<EventView, LexError>(EventView::Skipped)
}

/// A step that is not for the consumer took something away from what is
/// pending, and every step keeps the state well formed.
pub proof fn lemma_step(st: LexerView, macros: Macros)
    requires
        st.wf(),
    ensures
        step(st, macros).0.wf(),
        step(st, macros).0.input == st.input,
        !visible(step(st, macros).2) ==> step(st, macros).0.pending() < st.pending(),
{
    lemma_next_token(st);
    let (st1, r) = next_token(st);
    match r {
        Ok(Some(t)) => {
            if t.val == "#"@ {
                lemma_raw_token(st1);
                let (st2, r2) = raw_token(st1);
                match r2 {
                    Ok(Some(keyword)) => {
                        if keyword.val == "include"@ {
                            lemma_expect(st2, "<"@);
                            let (st3, r3) = expect(st2, "<"@);
                            lemma_run_end(st3.input, st3.pos, CharClass::NotCloseAngle);
                        } else if keyword.val == "define"@ {
                            lemma_raw_token(st2);
                            let (st3, r3) = raw_token(st2);
                            lemma_raw_token(st3);
                            lemma_macro_body(st3);
                        }
                    },
                    _ => {},
                }
            } else {
                if macros.contains_key(t.val) {
                    let pushed = LexerView { buf: macros[t.val] + st1.buf, ..st1 };
                    lemma_next_token(pushed);
                }
            }
        },
        _ => {},
    }
}

/// The next event for the consumer: steps are taken until one is visible.
/// Definitions on the way change the macro table.
pub open spec fn pull(st: LexerView, macros: Macros) -> Outcome<EventView>
    decreases st.pending(),
    when st.wf()
{
    let (st1, m1, r) = step(st, macros);
    if visible(r) {
        (st1, m1, r)
    } else {
        proof {
            lemma_step(st, macros);
        }
        pull(st1, m1)
    }
}

} // verus!
