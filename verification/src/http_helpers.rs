use vstd::prelude::*;
use vstd::string::StringExecFns;

verus! {

/// The address at which gitignore.io serves the template named `v`.
pub open spec fn gitignore_io_address(v: Seq<char>) -> Seq<char> {
    "https://www.gitignore.io/api/"@ + v
}

/// The address to get for the `gitignore_io` helper.
pub fn gitignore_io_url(v: &str) -> (r: String)
    ensures
        r@ == gitignore_io_address(v@),
{
    let mut url = String::from_str("https://www.gitignore.io/api/");
    url.append(v);
    url
}

} // verus!
