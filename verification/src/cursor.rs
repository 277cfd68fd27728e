//! The character cursor: the source text, a position in it and the line
//! that position lies on.

use vstd::prelude::*;
use crate::chars::CharClass;
use crate::scan::{lemma_newlines_bound, line_at};
use crate::token::{LexError, LexErrorKind};

verus! {

/// Where a cursor stands: an index into the text and the line of that index.
#[derive(Clone, Copy)]
struct Mark {
    pos: usize,
    line: i32,
}

/// A cursor over the characters of a source text, with one and two
/// characters of lookahead. It alone consumes characters, and it counts a
/// line for every line feed it consumes.
pub struct CharCursor {
    text: Vec<char>,
    at: Mark,
}

/// The longest text a cursor takes: its line counter is an `i32`.
pub const MAX_SOURCE_LEN: usize = 0x7fff_fffe;

impl CharCursor {
    #[verifier::type_invariant]
    spec fn well_formed(&self) -> bool {
        &&& self.at.pos <= self.text@.len() <= MAX_SOURCE_LEN
        &&& self.at.line == line_at(self.text@, self.at.pos as int)
    }

    /// The whole text the cursor runs over.
    pub closed spec fn source(&self) -> Seq<char> {
        self.text@
    }

    /// The number of characters consumed so far.
    pub closed spec fn offset(&self) -> int {
        self.at.pos as int
    }

    /// A cursor at the start of `input`, on line 1.
    pub fn new(input: &str) -> (c: CharCursor)
        requires
            input@.len() <= MAX_SOURCE_LEN,
        ensures
            c.source() == input@,
            c.offset() == 0,
    {
        let mut text: Vec<char> = Vec::new();
        for ch in it: input.chars()
            invariant
                text@ == it.seq().take(it.index()),
                it.seq() == input@,
        {
            text.push(ch);
        }
        CharCursor { text, at: Mark { pos: 0, line: 1 } }
    }

    /// The position is inside the text or at its end, and the text is short
    /// enough for the line counter.
    pub fn bounds(&self)
        ensures
            0 <= self.offset() <= self.source().len() <= MAX_SOURCE_LEN,
    {
        proof {
            use_type_invariant(self);
        }
    }

    /// The line of the current position: 1 plus the line feeds consumed.
    pub fn line(&self) -> (n: i32)
        ensures
            n == line_at(self.source(), self.offset()),
            0 <= self.offset() <= self.source().len() <= MAX_SOURCE_LEN,
    {
        proof {
            use_type_invariant(self);
        }
        self.at.line
    }

    /// The next character, or `None` at the end. Nothing is consumed.
    pub fn peek_get(&self) -> (r: Option<char>)
        ensures
            0 <= self.offset() <= self.source().len() <= MAX_SOURCE_LEN,
            self.offset() < self.source().len() ==> r == Some(self.source()[self.offset()]),
            self.offset() == self.source().len() ==> r is None,
    {
        proof {
            use_type_invariant(self);
        }
        if self.at.pos < self.text.len() {
            Some(self.text[self.at.pos])
        } else {
            None
        }
    }

    /// Consumes the next character and returns it. At the end of the text
    /// nothing changes and the error is `UnexpectedEndOfInput`.
    pub fn peek_next(&mut self) -> (r: Result<char, LexError>)
        ensures
            final(self).source() == old(self).source(),
            0 <= old(self).offset() <= old(self).source().len() <= MAX_SOURCE_LEN,
            old(self).offset() < old(self).source().len() ==> {
                &&& r == Ok::<char, LexError>(old(self).source()[old(self).offset()])
                &&& final(self).offset() == old(self).offset() + 1
            },
            old(self).offset() == old(self).source().len() ==> {
                &&& r == Err::<char, LexError>(
                    LexError {
                        kind: LexErrorKind::UnexpectedEndOfInput,
                        line: line_at(old(self).source(), old(self).offset()) as i32,
                    },
                )
                &&& final(self).offset() == old(self).offset()
            },
    {
        proof {
            use_type_invariant(&*self);
        }
        if self.at.pos < self.text.len() {
            let c = self.text[self.at.pos];
            proof {
                lemma_newlines_bound(self.text@, self.at.pos as int);
            }
            let line: i32 = if c == '\n' {
                self.at.line + 1
            } else {
                self.at.line
            };
            self.at = Mark { pos: self.at.pos + 1, line };
            Ok(c)
        } else {
            Err(LexError { kind: LexErrorKind::UnexpectedEndOfInput, line: self.at.line })
        }
    }

    /// Returns the character read last to the front of the stream: the
    /// cursor stands where it stood before that character was consumed.
    pub fn peek_unget(&mut self, ch: char)
        requires
            old(self).offset() > 0,
            old(self).source()[old(self).offset() - 1] == ch,
        ensures
            final(self).source() == old(self).source(),
            final(self).offset() == old(self).offset() - 1,
    {
        proof {
            use_type_invariant(&*self);
            lemma_newlines_bound(self.text@, self.at.pos as int - 1);
        }
        let line: i32 = if ch == '\n' {
            self.at.line - 1
        } else {
            self.at.line
        };
        self.at = Mark { pos: self.at.pos - 1, line };
    }

    /// Whether the next character is `ch`. At the end of the text it is not.
    pub fn peek_char_is(&self, ch: char) -> (b: bool)
        ensures
            0 <= self.offset() <= self.source().len() <= MAX_SOURCE_LEN,
            b == (self.offset() < self.source().len() && self.source()[self.offset()] == ch),
    {
        proof {
            use_type_invariant(self);
        }
        self.at.pos < self.text.len() && self.text[self.at.pos] == ch
    }

    /// Whether the next character belongs to `class`. At the end of the text
    /// it does not.
    pub fn peek_in(&self, class: CharClass) -> (b: bool)
        ensures
            0 <= self.offset() <= self.source().len() <= MAX_SOURCE_LEN,
            b == (self.offset() < self.source().len() && class.has(self.source()[self.offset()])),
    {
        proof {
            use_type_invariant(self);
        }
        self.at.pos < self.text.len() && class.contains(self.text[self.at.pos])
    }

    /// Whether the character after the next one is `ch`. Where fewer than
    /// two characters are left it is not.
    pub fn peek_next_char_is(&self, ch: char) -> (b: bool)
        ensures
            0 <= self.offset() <= self.source().len() <= MAX_SOURCE_LEN,
            b == (self.offset() + 1 < self.source().len() && self.source()[self.offset() + 1]
                == ch),
    {
        proof {
            use_type_invariant(self);
        }
        self.at.pos + 1 < self.text.len() && self.text[self.at.pos + 1] == ch
    }
}

} // verus!
