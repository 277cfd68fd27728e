//! What this library assumes of `String`.

use vstd::prelude::*;

verus! {

/// `String::push` of the standard library appends `ch` to the end of the
/// string, as its documentation says; the characters before it stay.
pub assume_specification[ std::string::String::push ](s: &mut std::string::String, ch: char)
    ensures
        final(s)@ == old(s)@.push(ch),
;

} // verus!
