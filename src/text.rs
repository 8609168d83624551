use vstd::prelude::*;

verus! {

/// Compares an owned string with a borrowed one.
pub fn same_text(a: &String, b: &str) -> (r: bool)
    ensures
        r == (a@ == b@),
{
    let owned = String::from_str(b);
    a.eq(&owned)
}

} // verus!
