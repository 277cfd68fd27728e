//! What holds of the scanner and the preprocessor on every input.
//!
//! Each law is stated over the functions of `scan` and `model`, which the
//! executable lexer is proved to compute, so each holds of what the lexer
//! returns.

use vstd::prelude::*;
use crate::chars::{is_blank, CharClass};
use crate::model::{
    clean, define, expand, lemma_raw_token, macro_body, next_token, opens_parameters, pull,
    raw_token, step, EventView, LexerView, Macros,
};
use crate::scan::{
    char_is, comment_close, lemma_comment_close, lemma_run_end, lemma_scan, line_at, newline_at,
    newlines, run_end, scan, token_at, Scanned,
};
use crate::token::{LexError, TokenKind, TokenView};

verus! {

/// Scanning is classifying: the token that a scan finds is the token that
/// starts at its first character, by the rules for identifiers, numbers,
/// literals and symbols, or the line feed that stands there. What the scan
/// passed over before it only decides the token's leading-space mark.
pub proof fn lemma_scan_classifies(s: Seq<char>, pos: int, spaced: bool)
    requires
        0 <= pos <= s.len(),
    ensures
        ({
            let sc = scan(s, pos, spaced);
            sc.result matches Ok(Some(t)) ==> {
                &&& pos <= sc.start < s.len()
                &&& !is_blank(s[sc.start])
                &&& s[sc.start] == '\n' ==> sc == newline_at(s, sc.start, t.space)
                &&& s[sc.start] != '\n' ==> sc == token_at(s, sc.start, t.space)
                &&& t.kind == TokenKind::Newline <==> s[sc.start] == '\n'
            }
        }),
    decreases s.len() - pos,
{
    if pos < s.len() {
        let c = s[pos];
        if is_blank(c) {
            lemma_scan_classifies(s, pos + 1, true);
        } else if c == '\n' {
        } else if c == '\\' && char_is(s, pos + 1, '\n') {
            lemma_scan_classifies(s, pos + 2, false);
        } else if c == '/' && char_is(s, pos + 1, '*') {
            lemma_comment_close(s, pos + 2);
            match comment_close(s, pos + 2) {
                Some(e) => {
                    lemma_scan_classifies(s, e, spaced && line_at(s, e) == line_at(s, pos));
                },
                None => {},
            }
        } else if c == '/' && char_is(s, pos + 1, '/') {
            let e = run_end(s, pos + 2, CharClass::NotNewline);
            lemma_run_end(s, pos + 2, CharClass::NotNewline);
            if e < s.len() {
                lemma_scan_classifies(s, e, spaced);
            }
        }
    }
}

/// A stretch of the source without a line feed lies on one line.
proof fn lemma_same_line(s: Seq<char>, a: int, b: int)
    requires
        0 <= a <= b <= s.len(),
        forall|k: int| a <= k < b ==> #[trigger] s[k] != '\n',
    ensures
        newlines(s, a) == newlines(s, b),
    decreases b - a,
{
    if a < b {
        lemma_same_line(s, a, b - 1);
    }
}

/// Whether a blank stands at `k`, on the line of position `start`.
pub open spec fn blank_on_line(s: Seq<char>, k: int, start: int) -> bool {
    0 <= k < s.len() && is_blank(s[k]) && line_at(s, k) == line_at(s, start)
}

/// The leading-space mark of the token that a scan finds says that a blank
/// stands before the token on the token's own line: either the scan began
/// with the mark set, on that line, or it passed such a blank.
proof fn lemma_space_mark(s: Seq<char>, pos: int, spaced: bool)
    requires
        0 <= pos <= s.len(),
    ensures
        ({
            let sc = scan(s, pos, spaced);
            sc.result matches Ok(Some(t)) ==> (t.space ==> {
                ||| spaced && line_at(s, pos) == line_at(s, sc.start)
                ||| exists|k: int| pos <= k < sc.start && #[trigger] blank_on_line(s, k, sc.start)
            })
        }),
    decreases s.len() - pos,
{
    if pos < s.len() {
        let c = s[pos];
        let sc = scan(s, pos, spaced);
        if is_blank(c) {
            lemma_space_mark(s, pos + 1, true);
            lemma_scan(s, pos + 1, true);
            if sc.result matches Ok(Some(t)) && t.space {
                if line_at(s, pos + 1) == line_at(s, sc.start) {
                    assert(newlines(s, pos + 1) == newlines(s, pos));
                    assert(blank_on_line(s, pos, sc.start));
                } else {
                    let k = choose|k: int|
                        pos + 1 <= k < sc.start && #[trigger] blank_on_line(s, k, sc.start);
                    assert(blank_on_line(s, k, sc.start));
                }
            }
        } else if c == '\n' {
        } else if c == '\\' && char_is(s, pos + 1, '\n') {
            lemma_space_mark(s, pos + 2, false);
            if sc.result matches Ok(Some(t)) && t.space {
                let k = choose|k: int|
                    pos + 2 <= k < sc.start && #[trigger] blank_on_line(s, k, sc.start);
                assert(blank_on_line(s, k, sc.start));
            }
        } else if c == '/' && char_is(s, pos + 1, '*') {
            lemma_comment_close(s, pos + 2);
            match comment_close(s, pos + 2) {
                Some(e) => {
                    let kept = spaced && line_at(s, e) == line_at(s, pos);
                    lemma_space_mark(s, e, kept);
                    if sc.result matches Ok(Some(t)) && t.space {
                        if !(kept && line_at(s, e) == line_at(s, sc.start)) {
                            let k = choose|k: int|
                                e <= k < sc.start && #[trigger] blank_on_line(s, k, sc.start);
                            assert(blank_on_line(s, k, sc.start));
                        }
                    }
                },
                None => {},
            }
        } else if c == '/' && char_is(s, pos + 1, '/') {
            let e = run_end(s, pos + 2, CharClass::NotNewline);
            lemma_run_end(s, pos + 2, CharClass::NotNewline);
            if e < s.len() {
                lemma_space_mark(s, e, spaced);
                assert forall|k: int| pos <= k < e implies #[trigger] s[k] != '\n' by {
                    if k >= pos + 2 {
                        assert(CharClass::NotNewline.has(s[k]));
                    }
                }
                lemma_same_line(s, pos, e);
                if sc.result matches Ok(Some(t)) && t.space {
                    if !(spaced && line_at(s, e) == line_at(s, sc.start)) {
                        let k = choose|k: int|
                            e <= k < sc.start && #[trigger] blank_on_line(s, k, sc.start);
                        assert(blank_on_line(s, k, sc.start));
                    }
                }
            }
        }
    }
}

/// A token found where the scan begins carries the mark the scan began
/// with.
proof fn lemma_scan_start(s: Seq<char>, pos: int, spaced: bool)
    requires
        0 <= pos < s.len(),
    ensures
        ({
            let sc = scan(s, pos, spaced);
            sc.result matches Ok(Some(t)) ==> (sc.start == pos ==> t.space == spaced)
        }),
{
    let c = s[pos];
    if is_blank(c) {
        lemma_scan(s, pos + 1, true);
    } else if c == '\n' {
    } else if c == '\\' && char_is(s, pos + 1, '\n') {
        lemma_scan(s, pos + 2, false);
    } else if c == '/' && char_is(s, pos + 1, '*') {
        lemma_comment_close(s, pos + 2);
        match comment_close(s, pos + 2) {
            Some(e) => {
                lemma_scan(s, e, spaced && line_at(s, e) == line_at(s, pos));
            },
            None => {},
        }
    } else if c == '/' && char_is(s, pos + 1, '/') {
        let e = run_end(s, pos + 2, CharClass::NotNewline);
        lemma_run_end(s, pos + 2, CharClass::NotNewline);
        if e < s.len() {
            lemma_scan(s, e, spaced);
        }
    }
}

/// Whitespace fidelity, of a raw read, which scans from the cursor with
/// the mark clear. A token that stands right at the cursor has no leading
/// space. A token right after a blank at the cursor has. And a token that
/// has leading space has a blank before it on its own line, at or after
/// the cursor: a blank on an earlier line does not mark it.
pub proof fn lemma_leading_space(s: Seq<char>, pos: int)
    requires
        0 <= pos < s.len(),
    ensures
        ({
            let sc = scan(s, pos, false);
            sc.result matches Ok(Some(t)) ==> {
                &&& sc.start == pos ==> !t.space
                &&& is_blank(s[pos]) && sc.start == pos + 1 ==> t.space
                &&& t.space ==> exists|k: int|
                    pos <= k < sc.start && #[trigger] blank_on_line(s, k, sc.start)
            }
        }),
{
    lemma_scan_start(s, pos, false);
    lemma_space_mark(s, pos, false);
    if is_blank(s[pos]) && pos + 1 < s.len() {
        lemma_scan_start(s, pos + 1, true);
    }
}

/// The first token at or after `pos` that is no line feed: raw scans are
/// made, each where the one before it ended, until one finds such a token,
/// the end of the source or an error.
pub open spec fn visible_scan(s: Seq<char>, pos: int) -> Scanned
    decreases s.len() - pos,
    when 0 <= pos <= s.len()
{
    let sc = scan(s, pos, false);
    match sc.result {
        Ok(Some(t)) => {
            if t.kind == TokenKind::Newline {
                proof {
                    lemma_scan(s, pos, false);
                }
                visible_scan(s, sc.next)
            } else {
                sc
            }
        },
        _ => sc,
    }
}

/// Where a visible scan ends up: as a raw scan does, and the token it
/// finds is no line feed: it is the token that starts at its first
/// character, on the line of that character.
pub proof fn lemma_visible_scan(s: Seq<char>, pos: int)
    requires
        0 <= pos <= s.len(),
    ensures
        ({
            let sc = visible_scan(s, pos);
            &&& pos <= sc.start <= sc.next <= s.len()
            &&& sc.result matches Ok(Some(t)) ==> {
                &&& sc.start < sc.next
                &&& t.kind != TokenKind::Newline
                &&& t.line == 1 + newlines(s, sc.start)
                &&& sc == token_at(s, sc.start, t.space)
            }
            &&& !(sc.result matches Ok(Some(t))) ==> sc.start == s.len() && sc.next == s.len()
        }),
    decreases s.len() - pos,
{
    lemma_scan(s, pos, false);
    lemma_scan_classifies(s, pos, false);
    let sc = scan(s, pos, false);
    match sc.result {
        Ok(Some(t)) => {
            if t.kind == TokenKind::Newline {
                lemma_visible_scan(s, sc.next);
            }
        },
        _ => {},
    }
}

/// With no token pending, the next visible token is the first token that
/// is no line feed at or after the cursor.
pub proof fn lemma_next_token_scans(st: LexerView)
    requires
        st.wf(),
        st.buf.len() == 0,
    ensures
        next_token(st) == (
            st.after(visible_scan(st.input, st.pos)),
            visible_scan(st.input, st.pos).result,
        ),
    decreases st.pending(),
{
    lemma_raw_token(st);
    let (st1, r) = raw_token(st);
    match r {
        Ok(Some(t)) => {
            if t.kind == TokenKind::Newline {
                lemma_next_token_scans(st1);
            }
        },
        _ => {},
    }
}

/// A line feed ends the line for the mark too: on a blank, a line feed
/// and a token, the visible token after the line feed is the one that a
/// fresh scan behind the line feed finds, so the blank before the line
/// feed does not mark it.
pub proof fn lemma_line_feed_clears_mark(s: Seq<char>, pos: int)
    requires
        0 <= pos < s.len(),
        scan(s, pos, false).result matches Ok(Some(t)) && t.kind == TokenKind::Newline,
    ensures
        pos < scan(s, pos, false).next <= s.len(),
        s[scan(s, pos, false).next - 1] == '\n',
        visible_scan(s, pos) == visible_scan(s, scan(s, pos, false).next),
{
    lemma_scan(s, pos, false);
    lemma_scan_classifies(s, pos, false);
}

/// Input without directives and macro names passes through unchanged:
/// where the next visible token is neither `#` nor the name of a macro,
/// pulling hands out that token, leaves the lexer as reading it left it,
/// and leaves the macro table alone. The end of the input and an error
/// pass through in the same way.
pub proof fn lemma_pull_plain(st: LexerView, macros: Macros)
    requires
        st.wf(),
        next_token(st).1 matches Ok(Some(t)) ==> t.val != "#"@ && !macros.contains_key(t.val),
    ensures
        pull(st, macros).0 == next_token(st).0,
        pull(st, macros).1 == macros,
        pull(st, macros).2 == match next_token(st).1 {
            Ok(Some(t)) => Ok::<EventView, LexError>(EventView::Token(t)),
            Ok(None) => Ok(EventView::End),
            Err(e) => Err(e),
        },
{
    let (st1, m1, r) = step(st, macros);
    assert(pull(st, macros) == (st1, m1, r));
}

/// Input without directives, macros and pending tokens is classified left
/// to right: pulling gives the first token at or after the cursor that is
/// no line feed, and leaves the cursor behind that token.
pub proof fn lemma_pull_scans(st: LexerView, macros: Macros)
    requires
        st.wf(),
        st.buf.len() == 0,
        visible_scan(st.input, st.pos).result matches Ok(Some(t)) ==> t.val != "#"@
            && !macros.contains_key(t.val),
    ensures
        pull(st, macros).0 == st.after(visible_scan(st.input, st.pos)),
        pull(st, macros).1 == macros,
        pull(st, macros).2 == match visible_scan(st.input, st.pos).result {
            Ok(Some(t)) => Ok::<EventView, LexError>(EventView::Token(t)),
            Ok(None) => Ok(EventView::End),
            Err(e) => Err(e),
        },
{
    lemma_next_token_scans(st);
    lemma_pull_plain(st, macros);
}

/// The tokens of `s` from `pos` on, classified left to right: each is the
/// visible token found where the one before it ended. The list ends where
/// the source does, or at an error.
pub open spec fn token_stream(s: Seq<char>, pos: int) -> Seq<TokenView>
    decreases s.len() - pos,
    when 0 <= pos <= s.len()
{
    let sc = visible_scan(s, pos);
    match sc.result {
        Ok(Some(t)) => {
            proof {
                lemma_visible_scan(s, pos);
            }
            seq![t] + token_stream(s, sc.next)
        },
        _ => Seq::empty(),
    }
}

/// Whether a token passes through the preprocessor as it stands: it is
/// neither a line feed, nor `#`, nor the name of a macro.
pub open spec fn passes(t: TokenView, macros: Macros) -> bool {
    t.kind != TokenKind::Newline && t.val != "#"@ && !macros.contains_key(t.val)
}

/// Whether every token of `list` passes through as it stands.
pub open spec fn all_pass(list: Seq<TokenView>, macros: Macros) -> bool {
    forall|i: int| 0 <= i < list.len() ==> passes(#[trigger] list[i], macros)
}

/// Whether the source from `pos` on is plain: it holds no directive and
/// no name of a macro.
pub open spec fn plain(s: Seq<char>, pos: int, macros: Macros) -> bool {
    all_pass(token_stream(s, pos), macros)
}

/// The lexer and the macro table after `k` pulls.
pub open spec fn after_pulls(st: LexerView, macros: Macros, k: nat) -> (LexerView, Macros)
    decreases k,
{
    if k == 0 {
        (st, macros)
    } else {
        let (st1, m1, _) = pull(st, macros);
        after_pulls(st1, m1, (k - 1) as nat)
    }
}

/// Plain input is classified left to right: on a source without
/// directives and macro names, the pull after `k` earlier ones hands out
/// token `k` of the source, for every `k` below the number of its tokens,
/// and the macro table stays as it is.
pub proof fn lemma_plain_input(st: LexerView, macros: Macros, k: nat)
    requires
        st.wf(),
        st.buf.len() == 0,
        plain(st.input, st.pos, macros),
        k < token_stream(st.input, st.pos).len(),
    ensures
        ({
            let (at, table) = after_pulls(st, macros, k);
            &&& table == macros
            &&& pull(at, table).1 == macros
            &&& pull(at, table).2 == Ok::<EventView, LexError>(
                EventView::Token(token_stream(st.input, st.pos)[k as int]),
            )
        }),
    decreases k,
{
    let s = st.input;
    let stream = token_stream(s, st.pos);
    let sc = visible_scan(s, st.pos);
    lemma_visible_scan(s, st.pos);
    assert(stream[0] == sc.result->Ok_0->Some_0);
    assert(passes(stream[0], macros));
    lemma_pull_scans(st, macros);
    if k > 0 {
        let st1 = st.after(sc);
        let rest = token_stream(s, sc.next);
        assert(stream =~= seq![stream[0]] + rest);
        assert forall|i: int| 0 <= i < rest.len() implies passes(#[trigger] rest[i], macros) by {
            assert(rest[i] == stream[i + 1]);
        }
        lemma_plain_input(st1, macros, (k - 1) as nat);
        assert(stream[k as int] == rest[k - 1]);
    }
}

/// A pending token that passes through is pulled as it stands: it is
/// handed out and taken off the pending tokens, and nothing else changes.
pub proof fn lemma_pull_pending(st: LexerView, macros: Macros)
    requires
        st.wf(),
        st.buf.len() > 0,
        passes(st.buf[0], macros),
    ensures
        pull(st, macros) == (
            LexerView { buf: st.buf.drop_first(), ..st },
            macros,
            Ok::<EventView, LexError>(EventView::Token(st.buf[0])),
        ),
{
    let (st1, r) = raw_token(st);
    assert(next_token(st) == (st1, r));
    lemma_pull_plain(st, macros);
}

/// Pending tokens come out in order: where the pending tokens begin with
/// the list `first`, all of which pass through, `j` pulls take the first
/// `j` of them off, and the next pull hands out token `j` of the list.
pub proof fn lemma_pending_in_order(
    st: LexerView,
    macros: Macros,
    first: Seq<TokenView>,
    rest: Seq<TokenView>,
    j: nat,
)
    requires
        st.wf(),
        st.buf == first + rest,
        all_pass(first, macros),
        j <= first.len(),
    ensures
        after_pulls(st, macros, j) == (
            LexerView { buf: first.subrange(j as int, first.len() as int) + rest, ..st },
            macros,
        ),
        j < first.len() ==> pull(after_pulls(st, macros, j).0, macros).2 == Ok::<
            EventView,
            LexError,
        >(EventView::Token(first[j as int])),
    decreases j,
{
    let n = first.len() as int;
    if j == 0 {
        assert(first.subrange(0, n) =~= first);
        if n > 0 {
            assert(st.buf[0] == first[0]);
            lemma_pull_pending(st, macros);
        }
    } else {
        assert(st.buf[0] == first[0]);
        lemma_pull_pending(st, macros);
        let st1 = LexerView { buf: st.buf.drop_first(), ..st };
        let tail = first.drop_first();
        assert(st1.buf =~= tail + rest);
        assert forall|i: int| 0 <= i < tail.len() implies passes(#[trigger] tail[i], macros) by {
            assert(tail[i] == first[i + 1]);
        }
        lemma_pending_in_order(st1, macros, tail, rest, (j - 1) as nat);
        assert(tail.subrange(j - 1, tail.len() as int) =~= first.subrange(j as int, n));
        if j < n {
            assert(tail[j - 1] == first[j as int]);
        }
    }
}

/// A macro is expanded once: where `t` names a macro with a replacement
/// list that is not empty, expanding `t` hands out the first token of the
/// list as it stands, whatever it names, and leaves the rest of the list
/// pending, in order, in front of what was pending before.
pub proof fn lemma_expand_once(st: LexerView, macros: Macros, t: TokenView)
    requires
        st.wf(),
        clean(macros),
        macros.contains_key(t.val),
        macros[t.val].len() > 0,
    ensures
        expand(st, macros, t) == (
            LexerView { buf: macros[t.val].drop_first() + st.buf, ..st },
            Ok::<Option<TokenView>, LexError>(Some(macros[t.val][0])),
        ),
{
    let body = macros[t.val];
    let pushed = LexerView { buf: body + st.buf, ..st };
    assert(body[0].kind != TokenKind::Newline);
    assert((body + st.buf).drop_first() =~= body.drop_first() + st.buf);
    assert(raw_token(pushed) == (
        LexerView { buf: body.drop_first() + st.buf, ..st },
        Ok::<Option<TokenView>, LexError>(Some(body[0])),
    ));
}

/// A macro name stands for its replacement list. Where the next visible
/// token names a macro whose list is `b0, .., bk`, with `b1, .., bk`
/// passing through as they stand, the pulls from here on hand out `b0`,
/// .., `bk` in that order, the name itself never; the macro table stays
/// as it is; and after them the lexer is where reading the name left it,
/// so what follows the name comes next.
pub proof fn lemma_expansion_in_order(st: LexerView, macros: Macros, j: nat)
    requires
        st.wf(),
        clean(macros),
        next_token(st).1 matches Ok(Some(t)) && t.val != "#"@ && macros.contains_key(t.val)
            && macros[t.val].len() > 0 && all_pass(macros[t.val].drop_first(), macros),
        j < macros[next_token(st).1->Ok_0->Some_0.val].len(),
    ensures
        ({
            let body = macros[next_token(st).1->Ok_0->Some_0.val];
            &&& pull(after_pulls(st, macros, j).0, macros).2 == Ok::<EventView, LexError>(
                EventView::Token(body[j as int]),
            )
            &&& after_pulls(st, macros, j).1 == macros
            &&& after_pulls(st, macros, body.len()) == (next_token(st).0, macros)
        }),
{
    crate::model::lemma_next_token(st);
    let (st1, r) = next_token(st);
    let t = r->Ok_0->Some_0;
    let body = macros[t.val];
    let tail = body.drop_first();
    lemma_expand_once(st1, macros, t);
    let s0 = LexerView { buf: tail + st1.buf, ..st1 };
    assert(step(st, macros) == (s0, macros, Ok::<EventView, LexError>(EventView::Token(body[0]))));
    assert(pull(st, macros) == (s0, macros, Ok::<EventView, LexError>(EventView::Token(body[0]))));
    lemma_pending_in_order(s0, macros, tail, st1.buf, tail.len());
    assert(tail.subrange(tail.len() as int, tail.len() as int) + st1.buf =~= st1.buf);
    assert(after_pulls(st, macros, body.len()) == after_pulls(s0, macros, tail.len()));
    if j > 0 {
        lemma_pending_in_order(s0, macros, tail, st1.buf, (j - 1) as nat);
        assert(after_pulls(st, macros, j) == after_pulls(s0, macros, (j - 1) as nat));
        assert(tail[j - 1] == body[j as int]);
    }
}

/// A definition and a directive without effect hand nothing out: where a
/// step processes one, pulling goes on from the state and the macro table
/// that the step left, so a definition is in force for what follows it.
pub proof fn lemma_pull_continues(st: LexerView, macros: Macros)
    requires
        st.wf(),
        !crate::model::visible(step(st, macros).2),
    ensures
        pull(st, macros) == pull(step(st, macros).0, step(st, macros).1),
{
    crate::model::lemma_step(st, macros);
}

/// A definition ends at the line feed of its line: where the raw token
/// after the name is a line feed, the replacement list is empty, only that
/// line feed is consumed, and nothing is put back.
pub proof fn lemma_define_empty(st: LexerView, macros: Macros)
    requires
        st.wf(),
        raw_token(st).1 is Ok,
        raw_token(st).1->Ok_0 is Some,
        raw_token(raw_token(st).0).1 matches Ok(Some(t)) && t.kind == TokenKind::Newline,
    ensures
        define(st, macros) == (
            raw_token(raw_token(st).0).0,
            macros.insert(raw_token(st).1->Ok_0->Some_0.val, Seq::empty()),
            Ok::<Seq<char>, LexError>(raw_token(st).1->Ok_0->Some_0.val),
        ),
{
    lemma_raw_token(st);
    let st1 = raw_token(st).0;
    let t = raw_token(st1).1->Ok_0->Some_0;
    assert(!opens_parameters(t));
    assert(macro_body(st1) == (
        raw_token(st1).0,
        Ok::<Seq<TokenView>, LexError>(Seq::empty()),
    ));
}

/// A definition records the tokens of its line: where the raw token after
/// the name does not open a parameter list, the replacement list is the
/// raw tokens from there to the next line feed, the lexer is left behind
/// that line feed, and every other entry of the macro table stays.
pub proof fn lemma_define_records(st: LexerView, macros: Macros)
    requires
        st.wf(),
        raw_token(st).1 is Ok,
        raw_token(st).1->Ok_0 is Some,
        !(raw_token(raw_token(st).0).1 matches Ok(Some(t)) && opens_parameters(t)),
        macro_body(raw_token(st).0).1 is Ok,
    ensures
        ({
            let name = raw_token(st).1->Ok_0->Some_0.val;
            let body = macro_body(raw_token(st).0).1->Ok_0;
            &&& define(st, macros).0 == macro_body(raw_token(st).0).0
            &&& define(st, macros).2 == Ok::<Seq<char>, LexError>(name)
            &&& define(st, macros).1[name] == body
            &&& define(st, macros).1.contains_key(name)
            &&& forall|other: Seq<char>|
                other != name ==> {
                    &&& define(st, macros).1.contains_key(other) == macros.contains_key(other)
                    &&& macros.contains_key(other) ==> #[trigger] define(st, macros).1[other]
                        == macros[other]
                }
            &&& clean(macros) ==> clean(define(st, macros).1)
        }),
{
    lemma_raw_token(st);
    crate::model::lemma_macro_body(raw_token(st).0);
}

} // verus!
