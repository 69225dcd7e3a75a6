//! Reading through a shared reference and mutating through an exclusive
//! one.

use vstd::prelude::*;

verus! {

/// The length in bytes of the string, read through a shared reference.
pub fn calculate_length(s: &String) -> (r: usize)
    ensures
        r == vstd::utf8::encode_utf8(s@).len() as usize,
{
    s.as_str().len()
}

/// Appends `", world"`, which takes an exclusive reference.
pub fn change(s: &mut String)
    ensures
        final(s)@ == old(s)@ + ", world"@,
{
    s.append(", world");
}

} // verus!
