//! What this crate assumes of `String`, beyond what `vstd` already states.

use vstd::prelude::*;

verus! {

/// `String::push` appends the given character to the end of the string:
/// afterwards the string holds the characters it held before, followed by `c`.
///
/// This is taken from the standard library's documentation and is not proved.
pub assume_specification[ String::push ](s: &mut String, c: char)
    ensures
        final(s)@ == old(s)@.push(c),
;

} // verus!
