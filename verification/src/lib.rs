//! The lexical front end of a C compiler.
//!
//! Four layers, each built on the one before:
//!
//! - [`cursor`]: the character cursor, with lookahead and a line counter;
//! - [`lexer`]: the token scanner and the queue of pending tokens, with
//!   pushback of whole tokens;
//! - the preprocessor of one file, [`lexer::Lexer::step`] and
//!   [`lexer::Lexer::get`]: object-like `#define` and the recognition of
//!   `#include <name>`;
//! - [`preprocessor`]: a whole run over a main file and the headers it
//!   includes, which share one macro table.
//!
//! No function here reads a file or prints. A run hands out the name of a
//! header it needs and takes the header's text back; what a driver prints
//! on the way, it can compute from what the run hands out.
//!
//! [`scan`] and [`model`] define, as mathematics, what the scanner and the
//! preprocessor compute; every executable function is proved against
//! them. [`laws`] states what follows for every input. [`node`] is a small
//! syntax tree for constant expressions.

pub mod chars;
pub mod cursor;
pub mod laws;
pub mod lexer;
pub mod macros;
pub mod model;
pub mod node;
pub mod preprocessor;
pub mod scan;
pub mod text;
pub mod token;
