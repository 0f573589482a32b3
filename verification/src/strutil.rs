//! Small string-building helpers over std that vstd gives no specification
//! for.

use vstd::prelude::*;

verus! {

/// Relies on String::push: appends the given character to the end of the
/// string.
#[verifier::external_body]
pub fn push_char(s: &mut String, c: char)
    ensures
        final(s)@ == old(s)@.push(c),
{
    s.push(c)
}

} // verus!
