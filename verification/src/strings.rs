//! Small string helpers shared by the property table and the frame resolver.

use vstd::prelude::*;

verus! {

/// String-slice equality by character content.
pub fn str_eq(a: &str, b: &str) -> (r: bool)
    ensures
        r == (a@ == b@),
{
    let sa: String = a.to_owned();
    let sb: String = b.to_owned();
    sa == sb
}

} // verus!
