//! A whole preprocessing run: the macro table and the lexers of the files
//! that are open, the innermost included file first.
//!
//! The run never touches a file. Where a header is asked for, `step` says
//! so; the caller finds and reads it and hands its text to `enter`, or
//! reports it missing.

use vstd::prelude::*;
use crate::cursor::MAX_SOURCE_LEN;
use crate::lexer::{candidates, is_first_present, search_prefixes, Event, Lexer};
use crate::macros::MacroTable;
use crate::model::{step, EventView, LexerView, Macros};
use crate::token::{views, LexError, LexErrorKind, Token, TokenView};

verus! {

/// An open file: its lexer and the tokens it has yielded so far.
struct Frame {
    lexer: Lexer,
    drained: Vec<Token>,
}

/// An open file, as mathematics.
pub struct FrameView {
    /// The state of its lexer.
    pub lexer: LexerView,
    /// The name it was opened under.
    pub name: Seq<char>,
    /// The tokens it has yielded so far, in order.
    pub drained: Seq<TokenView>,
}

impl View for Frame {
    type V = FrameView;

    closed spec fn view(&self) -> FrameView {
        FrameView { lexer: self.lexer@, name: self.lexer.name(), drained: views(self.drained@) }
    }
}

/// A preprocessing run.
pub struct Preprocessor {
    macros: MacroTable,
    current: Frame,
    parents: Vec<Frame>,
}

/// A preprocessing run, as mathematics.
pub struct PreprocessorView {
    /// The macros defined so far.
    pub macros: Macros,
    /// The file being read.
    pub current: FrameView,
    /// The files that wait for it, each having included the next; the last
    /// one included `current`. Empty while the main file is being read.
    pub parents: Seq<FrameView>,
}

impl View for Preprocessor {
    type V = PreprocessorView;

    closed spec fn view(&self) -> PreprocessorView {
        PreprocessorView {
            macros: self.macros@,
            current: self.current@,
            parents: self.parents@.map_values(|f: Frame| f@),
        }
    }
}

/// What a step of a run asks of its caller.
pub enum Action {
    /// A token of the output.
    Token(Token),
    /// The output is complete.
    End,
    /// The header of this name is to be found and entered.
    Include(String),
    /// The macro of this name was defined.
    Defined(String),
    /// The included file of this name is exhausted; the file that included
    /// it is read on.
    Left(String),
    /// Nothing: the step made progress that does not show.
    Continue,
}

/// What a step of a run asks of its caller, as mathematics.
pub enum ActionView {
    Token(TokenView),
    End,
    Include(Seq<char>),
    Defined(Seq<char>),
    Left(Seq<char>),
    Continue,
}

impl View for Action {
    type V = ActionView;

    open spec fn view(&self) -> ActionView {
        match self {
            Action::Token(t) => ActionView::Token(t@),
            Action::End => ActionView::End,
            Action::Include(name) => ActionView::Include(name@),
            Action::Defined(name) => ActionView::Defined(name@),
            Action::Left(name) => ActionView::Left(name@),
            Action::Continue => ActionView::Continue,
        }
    }
}

/// The view of the result of a step of a run.
pub open spec fn action_view(r: Result<Action, LexError>) -> Result<ActionView, LexError> {
    match r {
        Ok(a) => Ok(a@),
        Err(e) => Err(e),
    }
}

/// The run that reads `input` under `name`, with no macros defined.
pub open spec fn start(name: Seq<char>, input: Seq<char>) -> PreprocessorView {
    PreprocessorView {
        macros: Map::empty(),
        current: opened(name, input),
        parents: Seq::empty(),
    }
}

/// A file just opened: nothing consumed, nothing yielded.
pub open spec fn opened(name: Seq<char>, input: Seq<char>) -> FrameView {
    FrameView {
        lexer: LexerView { input, pos: 0, buf: Seq::empty() },
        name,
        drained: Seq::empty(),
    }
}

/// The run after `input` was entered as the included file `name`: it is
/// read from its start, and the file that was being read waits.
pub open spec fn entered(pp: PreprocessorView, name: Seq<char>, input: Seq<char>) -> PreprocessorView {
    PreprocessorView {
        macros: pp.macros,
        current: opened(name, input),
        parents: pp.parents.push(pp.current),
    }
}

/// One step of a run: the lexer of the current file takes one step.
///
/// A token of the main file is output. A token of an included file is
/// kept with those the file yielded before. When an included file ends,
/// everything it yielded is appended, in order, to the pending tokens of
/// the file that included it, and that file is read on: it sees those
/// tokens before anything it has not read yet. Definitions go to the one
/// macro table, whichever file holds them.
pub open spec fn advance(pp: PreprocessorView) -> (PreprocessorView, Result<ActionView, LexError>) {
    let (lexer, macros, r) = step(pp.current.lexer, pp.macros);
    let moved = PreprocessorView { macros, current: FrameView { lexer, ..pp.current }, ..pp };
    match r {
        Err(e) => (moved, Err(e)),
        Ok(EventView::Token(t)) => {
            if pp.parents.len() == 0 {
                (moved, Ok(ActionView::Token(t)))
            } else {
                (
                    PreprocessorView {
                        current: FrameView {
                            drained: moved.current.drained.push(t),
                            ..moved.current
                        },
                        ..moved
                    },
                    Ok(ActionView::Continue),
                )
            }
        },
        Ok(EventView::End) => {
            if pp.parents.len() == 0 {
                (moved, Ok(ActionView::End))
            } else {
                let parent = pp.parents.last();
                (
                    PreprocessorView {
                        macros,
                        current: FrameView {
                            lexer: LexerView {
                                buf: parent.lexer.buf + pp.current.drained,
                                ..parent.lexer
                            },
                            ..parent
                        },
                        parents: pp.parents.drop_last(),
                    },
                    Ok(ActionView::Left(pp.current.name)),
                )
            }
        },
        Ok(EventView::Include(name)) => (moved, Ok(ActionView::Include(name))),
        Ok(EventView::Defined(name)) => (moved, Ok(ActionView::Defined(name))),
        Ok(EventView::Skipped) => (moved, Ok(ActionView::Continue)),
    }
}

impl Preprocessor {
    /// A run over the main file `input`, with no macros defined.
    pub fn new(filename: String, input: &str) -> (pp: Preprocessor)
        requires
            input@.len() <= MAX_SOURCE_LEN,
        ensures
            pp@ == start(filename@, input@),
    {
        let pp = Preprocessor {
            macros: MacroTable::new(),
            current: Frame { lexer: Lexer::new(filename, input), drained: Vec::new() },
            parents: Vec::new(),
        };
        assert(pp@.parents =~= Seq::empty());
        assert(pp@.current.drained =~= Seq::empty());
        pp
    }

    /// The macros defined so far.
    pub fn macros(&self) -> (table: &MacroTable)
        ensures
            table@ == self@.macros,
    {
        &self.macros
    }

    /// How many included files are open: 0 while the main file is read.
    pub fn depth(&self) -> (n: usize)
        ensures
            n == self@.parents.len(),
    {
        self.parents.len()
    }

    /// Takes one step of the run.
    pub fn step(&mut self) -> (r: Result<Action, LexError>)
        ensures
            final(self)@ == advance(old(self)@).0,
            action_view(r) == advance(old(self)@).1,
    {
        let ghost before = self@;
        match self.current.lexer.step(&mut self.macros) {
            Err(e) => Err(e),
            Ok(Event::Token(t)) => {
                if self.parents.len() == 0 {
                    Ok(Action::Token(t))
                } else {
                    self.current.drained.push(t);
                    assert(views(self.current.drained@) =~= before.current.drained.push(t@));
                    Ok(Action::Continue)
                }
            },
            Ok(Event::End) => {
                match self.parents.pop() {
                    None => Ok(Action::End),
                    Some(parent) => {
                        let mut frame = parent;
                        std::mem::swap(&mut self.current, &mut frame);
                        let name = frame.lexer.get_filename();
                        self.current.lexer.splice(frame.drained);
                        assert(self@.parents =~= before.parents.drop_last());
                        Ok(Action::Left(name))
                    },
                }
            },
            Ok(Event::Include(name)) => Ok(Action::Include(name)),
            Ok(Event::Defined(name)) => Ok(Action::Defined(name)),
            Ok(Event::Skipped) => Ok(Action::Continue),
        }
    }

    /// Enters the included file `filename` with the text `input`: it is
    /// read from its start, and the file that asked for it waits.
    pub fn enter(&mut self, filename: String, input: &str)
        requires
            input@.len() <= MAX_SOURCE_LEN,
        ensures
            final(self)@ == entered(old(self)@, filename@, input@),
    {
        let mut frame = Frame { lexer: Lexer::new(filename, input), drained: Vec::new() };
        assert(frame@.drained =~= Seq::empty());
        std::mem::swap(&mut self.current, &mut frame);
        self.parents.push(frame);
        assert(self@.parents =~= old(self)@.parents.push(old(self)@.current));
    }

    /// Finds the header `filename`, which the current file asks for:
    /// `present` says of each path of `Lexer::include_candidates(filename)`,
    /// in their order, whether a file exists there. The result is the first
    /// path that has one. Where none has, the error is `IncludeNotFound` on
    /// the line the current file has reached.
    pub fn find_header(&self, filename: &str, present: &Vec<bool>) -> (r: Result<String, LexError>)
        ensures
            match r {
                Ok(path) => exists|i: int|
                    {
                        &&& is_first_present(present@, i)
                        &&& path@ == #[trigger] candidates(filename@)[i]
                    },
                Err(e) => {
                    &&& e == self@.current.lexer.error(LexErrorKind::IncludeNotFound)
                    &&& forall|i: int|
                        0 <= i < search_prefixes().len() && i < present@.len() ==> !present@[i]
                },
            },
    {
        match Lexer::cpp_try_include(filename, present) {
            Some(path) => Ok(path),
            None => Err(self.include_not_found()),
        }
    }

    /// The error for a header that no search path holds, on the line the
    /// current file has reached.
    pub fn include_not_found(&self) -> (e: LexError)
        ensures
            e == self@.current.lexer.error(LexErrorKind::IncludeNotFound),
    {
        LexError { kind: LexErrorKind::IncludeNotFound, line: self.current.lexer.line() }
    }
}

} // verus!
