//! Character classes of the scanner.
//!
//! Every class is a predicate on a single `char`. The spec functions are what
//! contracts speak of; each executable test is proved equal to its spec
//! function.

use vstd::prelude::*;

verus! {

/// An ASCII letter.
pub open spec fn is_letter(c: char) -> bool {
    ('a' <= c && c <= 'z') || ('A' <= c && c <= 'Z')
}

/// An ASCII decimal digit.
pub open spec fn is_digit(c: char) -> bool {
    '0' <= c && c <= '9'
}

/// A character that may open an identifier: a letter or `_`.
pub open spec fn is_ident_start(c: char) -> bool {
    is_letter(c) || c == '_'
}

/// A character that may continue an identifier: a letter, `_` or a digit.
pub open spec fn is_ident_char(c: char) -> bool {
    is_ident_start(c) || is_digit(c)
}

/// A character of a numeric literal: a digit or `.`.
pub open spec fn is_number_char(c: char) -> bool {
    is_digit(c) || c == '.'
}

/// Horizontal whitespace: a space or a tab.
pub open spec fn is_blank(c: char) -> bool {
    c == ' ' || c == '\t'
}

/// The sets of characters whose maximal runs the scanner consumes.
#[derive(Clone, Copy, PartialEq, Eq, Debug, Structural)]
pub enum CharClass {
    /// Characters of an identifier.
    Ident,
    /// Characters of a numeric literal.
    Number,
    /// Everything but a line feed: the body of a line comment.
    NotNewline,
    /// Everything but `>`: the file name of an include directive.
    NotCloseAngle,
}

impl CharClass {
    /// Whether `c` belongs to the class.
    pub open spec fn has(self, c: char) -> bool {
        match self {
            CharClass::Ident => is_ident_char(c),
            CharClass::Number => is_number_char(c),
            CharClass::NotNewline => c != '\n',
            CharClass::NotCloseAngle => c != '>',
        }
    }

    /// Tests membership of `c` in the class.
    pub fn contains(self, c: char) -> (b: bool)
        ensures
            b == self.has(c),
    {
        match self {
            CharClass::Ident => ident_char(c),
            CharClass::Number => digit(c) || c == '.',
            CharClass::NotNewline => c != '\n',
            CharClass::NotCloseAngle => c != '>',
        }
    }
}

/// Tests whether `c` is an ASCII decimal digit.
pub fn digit(c: char) -> (b: bool)
    ensures
        b == is_digit(c),
{
    '0' <= c && c <= '9'
}

/// Tests whether `c` may open an identifier.
pub fn ident_start(c: char) -> (b: bool)
    ensures
        b == is_ident_start(c),
{
    ('a' <= c && c <= 'z') || ('A' <= c && c <= 'Z') || c == '_'
}

/// Tests whether `c` may continue an identifier.
pub fn ident_char(c: char) -> (b: bool)
    ensures
        b == is_ident_char(c),
{
    ident_start(c) || digit(c)
}

/// Tests whether `c` is a space or a tab.
pub fn blank(c: char) -> (b: bool)
    ensures
        b == is_blank(c),
{
    c == ' ' || c == '\t'
}

} // verus!
