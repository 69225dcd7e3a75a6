//! Building strings: growing an empty string, converting a literal, and
//! concatenating owned strings.

use vstd::prelude::*;

verus! {

/// `"Hello, world!"` grown from an empty string in two pushes.
pub fn new_string() -> (r: String)
    ensures
        r@ == "Hello, world!"@,
{
    let mut s = String::new();
    s.append("Hello, ");
    s.append("world!");
    proof {
        reveal_strlit("Hello, ");
        reveal_strlit("world!");
        reveal_strlit("Hello, world!");
        assert(s@ =~= "Hello, world!"@);
    }
    s
}

/// An owned copy of a string literal.
pub fn string_from_literal() -> (r: String)
    ensures
        r@ == "Hello from a string literal!"@,
{
    let s: &str = "Hello from a string literal!";
    s.to_owned()
}

/// `"Hello " + "world!" + " wombat"`, concatenated pairwise.
pub fn string_concat() -> (r: String)
    ensures
        r@ == "Hello world! wombat"@,
{
    let s1 = String::from_str("Hello ");
    let s2 = String::from_str("world!");
    let s3 = String::from_str(" wombat");
    let s = s1.concat(s2.as_str()).concat(s3.as_str());
    proof {
        reveal_strlit("Hello ");
        reveal_strlit("world!");
        reveal_strlit(" wombat");
        reveal_strlit("Hello world! wombat");
        assert(s@ =~= "Hello world! wombat"@);
    }
    s
}

} // verus!
