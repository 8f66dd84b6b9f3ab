use crate::json::{json_to_serde, Json, JsonView};
use vstd::prelude::*;

verus! {

/// Whether `serde_json::Value`'s `==` holds of two documents as values of that
/// type: the same kind of document with equal content, the members of an
/// object in any order, and a number equal only to a number of the same form.
pub uninterp spec fn json_equal(x: JsonView, y: JsonView) -> bool;

/// `==` of `serde_json::Value` on the two documents as values of that type,
/// which [`json_equal`] names.
#[verifier::external_body]
fn values_equal(x: &Json, y: &Json) -> (r: bool)
    ensures
        r == json_equal(x@, y@),
{
    json_to_serde(x) == json_to_serde(y)
}

/// The helper `eq`: whether two documents are equal.
pub fn eq(x: &Json, y: &Json) -> (r: bool)
    ensures
        r == json_equal(x@, y@),
{
    values_equal(x, y)
}

/// The helper `ne`: whether two documents are not equal.
pub fn ne(x: &Json, y: &Json) -> (r: bool)
    ensures
        r == !json_equal(x@, y@),
{
    !values_equal(x, y)
}

} // verus!
