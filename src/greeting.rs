//! The text that a delayed greeting resolves to.

use vstd::prelude::*;

verus! {

/// `Hello, <who>!`.
pub fn greeting(who: &str) -> (r: String)
    ensures
        r@ == "Hello, "@ + who@ + "!"@,
{
    let mut r = String::from_str("Hello, ");
    r.append(who);
    r.append("!");
    r
}

} // verus!
