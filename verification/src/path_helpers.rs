use vstd::prelude::*;
use vstd::string::StringExecFns;

verus! {

/// The path to take the parts of: the canonical form of `s` where `s` names
/// something that exists and has a canonical form, and `s` itself else.
pub fn expand(s: &str, exists: bool, canonical: Option<String>) -> (r: String)
    ensures
        r@ == (if exists && canonical is Some {
            canonical->0@
        } else {
            s@
        }),
{
    if exists {
        match canonical {
            Some(c) => c,
            None => String::from_str(s),
        }
    } else {
        String::from_str(s)
    }
}

} // verus!
