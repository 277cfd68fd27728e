//! Macros and the table that holds their definitions.

use vstd::hash_map::StringHashMap;
use vstd::prelude::*;
use vstd::string::StringExecFns;
use crate::model::{clean, no_newline, Macros};
use crate::token::{views, Token, TokenView};

verus! {

/// A macro definition.
pub enum Macro {
    /// An object-like macro: a name that stands for a list of tokens.
    Object(Vec<Token>),
}

impl View for Macro {
    type V = Seq<TokenView>;

    /// The replacement list.
    open spec fn view(&self) -> Seq<TokenView> {
        match self {
            Macro::Object(body) => views(body@),
        }
    }
}

/// The text of a replacement list: the spellings of its tokens in order,
/// a single space before each token that had leading space.
pub open spec fn spelled(tokens: Seq<TokenView>) -> Seq<char>
    decreases tokens.len(),
{
    if tokens.len() == 0 {
        Seq::empty()
    } else {
        let last = tokens.last();
        spelled(tokens.drop_last()) + if last.space {
            seq![' ']
        } else {
            Seq::empty()
        } + last.val
    }
}

impl Macro {
    /// The text of the replacement list, for display.
    pub fn body_text(&self) -> (text: String)
        ensures
            text@ == spelled(self@),
    {
        match self {
            Macro::Object(body) => {
                let mut text = String::new();
                let mut i: usize = 0;
                while i < body.len()
                    invariant
                        i <= body.len(),
                        text@ == spelled(views(body@).subrange(0, i as int)),
                    decreases body.len() - i,
                {
                    let ghost done = views(body@).subrange(0, i as int);
                    let ghost more = views(body@).subrange(0, i + 1);
                    assert(more.drop_last() =~= done);
                    assert(more.last() == body@[i as int]@);
                    if body[i].space {
                        text.push(' ');
                    }
                    text.append(body[i].val.as_str());
                    assert(text@ =~= spelled(more));
                    i = i + 1;
                }
                assert(views(body@).subrange(0, body.len() as int) =~= views(body@));
                text
            },
        }
    }
}

/// The macro table: the definition of every macro defined so far. One
/// table serves a whole run; the lexers of included files share it with
/// the lexer that included them.
pub struct MacroTable {
    map: StringHashMap<Macro>,
}

impl View for MacroTable {
    type V = Macros;

    /// The replacement list of every defined name.
    closed spec fn view(&self) -> Macros {
        self.map@.map_values(|m: Macro| m@)
    }
}

impl MacroTable {
    #[verifier::type_invariant]
    spec fn well_formed(&self) -> bool {
        clean(self@)
    }

    /// A table without definitions.
    pub fn new() -> (table: MacroTable)
        ensures
            table@ == Map::<Seq<char>, Seq<TokenView>>::empty(),
    {
        let map: StringHashMap<Macro> = StringHashMap::new();
        assert(map@.map_values(|m: Macro| m@) =~= Map::<Seq<char>, Seq<TokenView>>::empty());
        MacroTable { map }
    }

    /// No replacement list of the table holds a line feed.
    pub fn valid(&self)
        ensures
            clean(self@),
    {
        proof {
            use_type_invariant(self);
        }
    }

    /// Records `definition` under `name`, in place of any earlier
    /// definition of that name. A replacement list holds no line feed.
    pub fn define(&mut self, name: String, definition: Macro)
        requires
            no_newline(definition@),
        ensures
            final(self)@ == old(self)@.insert(name@, definition@),
    {
        proof {
            use_type_invariant(&*self);
        }
        let mut taken = MacroTable::new();
        std::mem::swap(self, &mut taken);
        let mut map = taken.map;
        map.insert(name, definition);
        assert(map@.map_values(|m: Macro| m@) =~= old(self)@.insert(name@, definition@));
        *self = MacroTable { map };
    }

    /// The definition of `name`, if it has one.
    pub fn get(&self, name: &str) -> (r: Option<&Macro>)
        ensures
            match r {
                Some(m) => self@.contains_key(name@) && m@ == self@[name@] && no_newline(m@),
                None => !self@.contains_key(name@),
            },
    {
        proof {
            use_type_invariant(self);
        }
        self.map.get(name)
    }
}

} // verus!
