//! The answer of the music manager's self test.
use vstd::prelude::*;
use vstd::string::*;

verus! {

/// The answer of the self test.
pub fn test() -> (r: String)
    ensures
        r@ == "Test success!"@,
{
    String::from_str("Test success!")
}

} // verus!
