//! What the library takes for granted of the standard string type.

use vstd::prelude::*;

verus! {

/// `String::push` appends the character to the end of the string and
/// changes nothing else of it.
pub assume_specification[ String::push ](s: &mut String, ch: char)
    ensures
        final(s)@ == old(s)@.push(ch),
;

} // verus!
