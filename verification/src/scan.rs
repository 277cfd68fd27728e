//! The scanner as mathematics: where a token starting at a position of the
//! source ends, what it is, and what is skipped before it.
//!
//! Nothing here runs. The executable scanner is proved to compute these
//! functions; the lemmas state what they mean in terms of the source alone.

use vstd::prelude::*;
use crate::chars::{is_blank, is_digit, is_ident_start, CharClass};
use crate::token::{LexError, LexErrorKind, Read, TokenKind, TokenView};

verus! {

/// The number of line feeds among the first `upto` characters of `s`.
pub open spec fn newlines(s: Seq<char>, upto: int) -> int
    decreases upto,
{
    if upto <= 0 || upto > s.len() {
        0
    } else {
        newlines(s, upto - 1) + if s[upto - 1] == '\n' {
            1int
        } else {
            0int
        }
    }
}

/// The 1-based line on which position `pos` of `s` lies.
pub open spec fn line_at(s: Seq<char>, pos: int) -> int {
    1 + newlines(s, pos)
}

/// There are at most as many line feeds before a position as characters.
pub proof fn lemma_newlines_bound(s: Seq<char>, upto: int)
    requires
        0 <= upto <= s.len(),
    ensures
        0 <= newlines(s, upto) <= upto,
    decreases upto,
{
    if upto > 0 {
        lemma_newlines_bound(s, upto - 1);
    }
}

/// The end of the longest run of characters of `class` that starts at `from`.
pub open spec fn run_end(s: Seq<char>, from: int, class: CharClass) -> int
    decreases s.len() - from,
{
    if 0 <= from < s.len() && class.has(s[from]) {
        run_end(s, from + 1, class)
    } else {
        from
    }
}

/// Maximal munch: the run from `from` to `run_end` lies in the class, and
/// either the source ends there or the next character is outside the class.
pub proof fn lemma_run_end(s: Seq<char>, from: int, class: CharClass)
    requires
        0 <= from <= s.len(),
    ensures
        from <= run_end(s, from, class) <= s.len(),
        forall|k: int| from <= k < run_end(s, from, class) ==> class.has(#[trigger] s[k]),
        run_end(s, from, class) < s.len() ==> !class.has(s[run_end(s, from, class)]),
    decreases s.len() - from,
{
    if from < s.len() && class.has(s[from]) {
        lemma_run_end(s, from + 1, class);
    }
}

/// Only one position ends a maximal run: any `e` with the properties of
/// `lemma_run_end` is `run_end`.
pub proof fn lemma_run_end_unique(s: Seq<char>, from: int, class: CharClass, e: int)
    requires
        0 <= from <= e <= s.len(),
        forall|k: int| from <= k < e ==> class.has(#[trigger] s[k]),
        e < s.len() ==> !class.has(s[e]),
    ensures
        run_end(s, from, class) == e,
    decreases e - from,
{
    if from < e {
        assert(class.has(s[from]));
        lemma_run_end_unique(s, from + 1, class, e);
    }
}

/// Whether `s` has the character `c` at index `i`.
pub open spec fn char_is(s: Seq<char>, i: int, c: char) -> bool {
    0 <= i < s.len() && s[i] == c
}

/// The index of the quote that closes a literal whose body starts at `from`:
/// the first `quote` at or after `from` that is not escaped, a backslash
/// escaping the character after it. `None` where the source ends first.
pub open spec fn literal_close(s: Seq<char>, from: int, quote: char) -> Option<int>
    decreases s.len() - from,
{
    if from < 0 || from >= s.len() {
        None
    } else if s[from] == quote {
        Some(from)
    } else if s[from] == '\\' {
        if from + 1 < s.len() {
            literal_close(s, from + 2, quote)
        } else {
            None
        }
    } else {
        literal_close(s, from + 1, quote)
    }
}

/// A closing quote lies in the source, at or after the start of the body.
pub proof fn lemma_literal_close(s: Seq<char>, from: int, quote: char)
    requires
        0 <= from,
    ensures
        literal_close(s, from, quote) matches Some(q) ==> from <= q < s.len() && s[q] == quote,
    decreases s.len() - from,
{
    if from < s.len() && s[from] != quote {
        if s[from] == '\\' {
            if from + 1 < s.len() {
                lemma_literal_close(s, from + 2, quote);
            }
        } else {
            lemma_literal_close(s, from + 1, quote);
        }
    }
}

/// The position just after the first `*/` that starts at or after `from`.
/// `None` where the source holds none.
pub open spec fn comment_close(s: Seq<char>, from: int) -> Option<int>
    decreases s.len() - from,
{
    if from < 0 || from + 1 >= s.len() {
        None
    } else if s[from] == '*' && s[from + 1] == '/' {
        Some(from + 2)
    } else {
        comment_close(s, from + 1)
    }
}

/// A block comment ends inside the source, after its closing `*/`, and no
/// `*/` starts earlier.
pub proof fn lemma_comment_close(s: Seq<char>, from: int)
    requires
        0 <= from,
    ensures
        comment_close(s, from) matches Some(e) ==> {
            &&& from + 2 <= e <= s.len()
            &&& s[e - 2] == '*'
            &&& s[e - 1] == '/'
            &&& forall|k: int| from <= k < e - 2 ==> !(s[k] == '*' && #[trigger] s[k + 1] == '/')
        },
        comment_close(s, from) is None ==> forall|k: int|
            from <= k && k + 1 < s.len() ==> !(s[k] == '*' && #[trigger] s[k + 1] == '/'),
    decreases s.len() - from,
{
    if from + 1 < s.len() && !(s[from] == '*' && s[from + 1] == '/') {
        lemma_comment_close(s, from + 1);
    }
}

/// An operator character that a following `=` extends: `+=`, `==`, `!=`...
pub open spec fn takes_assign(c: char) -> bool {
    c == '+' || c == '-' || c == '*' || c == '/' || c == '%' || c == '=' || c == '^' || c == '!'
}

/// An operator character that may be doubled, the doubled or the single
/// form then taking a following `=`: `<<`, `<=`, `<<=`, `&&`...
pub open spec fn doubles(c: char) -> bool {
    c == '<' || c == '>' || c == '&' || c == '|'
}

/// The length of the symbol that starts at `pos`: the longest operator
/// spelling the source holds there, and 1 for any other character.
pub open spec fn symbol_len(s: Seq<char>, pos: int) -> int
    recommends
        0 <= pos < s.len(),
{
    let c = s[pos];
    if takes_assign(c) {
        if char_is(s, pos + 1, '=') {
            2
        } else {
            1
        }
    } else if doubles(c) {
        let d: int = if char_is(s, pos + 1, c) {
            2
        } else {
            1
        };
        if char_is(s, pos + d, '=') {
            d + 1
        } else {
            d
        }
    } else if c == '.' {
        if char_is(s, pos + 1, '.') && char_is(s, pos + 2, '.') {
            3
        } else {
            1
        }
    } else {
        1
    }
}

/// What scanning from a position gives: the token, the end of the input or
/// an error; the position of the token's first character; and the position
/// at which the cursor is left. Without a token both positions are the end
/// of the source.
pub struct Scanned {
    pub result: Read,
    pub start: int,
    pub next: int,
}

/// The token of kind `kind` that starts at `start`, is spelled
/// `s[from..to)` and leaves the cursor at `next`.
pub open spec fn emit(
    s: Seq<char>,
    kind: TokenKind,
    spaced: bool,
    start: int,
    from: int,
    to: int,
    next: int,
) -> Scanned {
    Scanned {
        result: Ok(
            Some(
                TokenView {
                    kind,
                    space: spaced,
                    val: s.subrange(from, to),
                    line: line_at(s, start),
                },
            ),
        ),
        start,
        next,
    }
}

/// The error `kind`, raised where the source ended.
pub open spec fn at_end(s: Seq<char>, kind: LexErrorKind) -> LexError {
    LexError { kind, line: line_at(s, s.len() as int) as i32 }
}

/// Scanning that failed with `kind`: the source was consumed to its end.
pub open spec fn fail(s: Seq<char>, kind: LexErrorKind) -> Scanned {
    Scanned { result: Err(at_end(s, kind)), start: s.len() as int, next: s.len() as int }
}

/// The kind of the numeric literal spelled `text`: a float where it holds a
/// `.`, else an integer.
pub open spec fn number_kind(text: Seq<char>) -> TokenKind {
    if text.contains('.') {
        TokenKind::FloatNumber
    } else {
        TokenKind::IntNumber
    }
}

/// The quoted literal that opens at `pos`: its text is what stands between
/// the opening character and the closing `quote`, verbatim.
pub open spec fn quoted_at(
    s: Seq<char>,
    pos: int,
    quote: char,
    kind: TokenKind,
    spaced: bool,
) -> Scanned {
    match literal_close(s, pos + 1, quote) {
        Some(q) => emit(s, kind, spaced, pos, pos + 1, q, q + 1),
        None => fail(s, LexErrorKind::UnterminatedLiteral),
    }
}

/// The identifier at `pos`: the longest run of identifier characters.
pub open spec fn ident_at(s: Seq<char>, pos: int, spaced: bool) -> Scanned {
    let e = run_end(s, pos, CharClass::Ident);
    emit(s, TokenKind::Identifier, spaced, pos, pos, e, e)
}

/// The numeric literal at `pos`: the longest run of digits and `.`.
pub open spec fn number_at(s: Seq<char>, pos: int, spaced: bool) -> Scanned {
    let e = run_end(s, pos, CharClass::Number);
    emit(s, number_kind(s.subrange(pos, e)), spaced, pos, pos, e, e)
}

/// The `Newline` token for the character at `pos`. Its text is empty.
pub open spec fn newline_at(s: Seq<char>, pos: int, spaced: bool) -> Scanned {
    emit(s, TokenKind::Newline, spaced, pos, pos, pos, pos + 1)
}

/// The symbol at `pos`.
pub open spec fn symbol_at(s: Seq<char>, pos: int, spaced: bool) -> Scanned {
    let e = pos + symbol_len(s, pos);
    emit(s, TokenKind::Symbol, spaced, pos, pos, e, e)
}

/// `sc` where a character stands at `pos`; where the source has ended
/// there, the error `UnexpectedEndOfInput`.
pub open spec fn unless_end(s: Seq<char>, pos: int, sc: Scanned) -> Scanned {
    if pos < s.len() {
        sc
    } else {
        fail(s, LexErrorKind::UnexpectedEndOfInput)
    }
}

/// The token that starts at `pos`, where a character that neither is
/// whitespace nor opens a comment stands: an identifier, a number, a
/// literal, or a symbol, each as long as the source allows.
pub open spec fn token_at(s: Seq<char>, pos: int, spaced: bool) -> Scanned
    recommends
        0 <= pos < s.len(),
{
    let c = s[pos];
    if is_ident_start(c) {
        ident_at(s, pos, spaced)
    } else if is_digit(c) {
        number_at(s, pos, spaced)
    } else if c == '"' {
        quoted_at(s, pos, '"', TokenKind::String, spaced)
    } else if c == '\'' {
        quoted_at(s, pos, '\'', TokenKind::Char, spaced)
    } else {
        symbol_at(s, pos, spaced)
    }
}

/// The first raw token at or after `pos`.
///
/// Blanks, comments and a backslash before a line feed are skipped. Any
/// other line feed is a `Newline` token. `spaced` says whether a blank was
/// skipped already on the line that the scan has reached; the token found
/// carries it as its leading-space mark. A blank sets the mark. A line
/// continuation clears it, and so does a block comment that holds a line
/// feed: what follows them stands on a new line.
pub open spec fn scan(s: Seq<char>, pos: int, spaced: bool) -> Scanned
    decreases s.len() - pos,
{
    if pos < 0 || pos >= s.len() {
        Scanned { result: Ok(None), start: s.len() as int, next: s.len() as int }
    } else if is_blank(s[pos]) {
        scan(s, pos + 1, true)
    } else if s[pos] == '\n' {
        newline_at(s, pos, spaced)
    } else if s[pos] == '\\' && char_is(s, pos + 1, '\n') {
        scan(s, pos + 2, false)
    } else if s[pos] == '/' && char_is(s, pos + 1, '*') {
        match comment_close(s, pos + 2) {
            Some(e) => {
                proof {
                    lemma_comment_close(s, pos + 2);
                }
                scan(s, e, spaced && line_at(s, e) == line_at(s, pos))
            },
            None => fail(s, LexErrorKind::UnterminatedComment),
        }
    } else if s[pos] == '/' && char_is(s, pos + 1, '/') {
        let e = run_end(s, pos + 2, CharClass::NotNewline);
        proof {
            lemma_run_end(s, pos + 2, CharClass::NotNewline);
        }
        if e < s.len() {
            scan(s, e, spaced)
        } else {
            fail(s, LexErrorKind::UnexpectedEndOfInput)
        }
    } else {
        token_at(s, pos, spaced)
    }
}

/// A symbol is one to three characters long and lies inside the source.
pub proof fn lemma_symbol_len(s: Seq<char>, pos: int)
    requires
        0 <= pos < s.len(),
    ensures
        1 <= symbol_len(s, pos) <= 3,
        pos + symbol_len(s, pos) <= s.len(),
{
}

/// Where scanning ends up.
///
/// The token found starts at or after `pos` and is not empty; its line is
/// the line of its first character, which is 1 plus the number of line feeds
/// before that character. Without a token the whole source was consumed.
pub proof fn lemma_scan(s: Seq<char>, pos: int, spaced: bool)
    requires
        0 <= pos <= s.len(),
    ensures
        ({
            let sc = scan(s, pos, spaced);
            &&& pos <= sc.start <= sc.next <= s.len()
            &&& sc.result matches Ok(Some(t)) ==> {
                &&& sc.start < sc.next
                &&& t.line == 1 + newlines(s, sc.start)
            }
            &&& !(sc.result matches Ok(Some(t))) ==> sc.start == s.len() && sc.next == s.len()
        }),
    decreases s.len() - pos,
{
    if pos < s.len() {
        let c = s[pos];
        if is_blank(c) {
            lemma_scan(s, pos + 1, true);
        } else if c == '\n' {
        } else if c == '\\' && char_is(s, pos + 1, '\n') {
            lemma_scan(s, pos + 2, false);
        } else if c == '/' && char_is(s, pos + 1, '*') {
            lemma_comment_close(s, pos + 2);
            match comment_close(s, pos + 2) {
                Some(e) => {
                    lemma_scan(s, e, spaced && line_at(s, e) == line_at(s, pos));
                },
                None => {},
            }
        } else if c == '/' && char_is(s, pos + 1, '/') {
            let e = run_end(s, pos + 2, CharClass::NotNewline);
            lemma_run_end(s, pos + 2, CharClass::NotNewline);
            if e < s.len() {
                lemma_scan(s, e, spaced);
            }
        } else {
            lemma_run_end(s, pos, CharClass::Ident);
            lemma_run_end(s, pos, CharClass::Number);
            lemma_literal_close(s, pos + 1, '"');
            lemma_literal_close(s, pos + 1, '\'');
            lemma_symbol_len(s, pos);
        }
    }
}

} // verus!
