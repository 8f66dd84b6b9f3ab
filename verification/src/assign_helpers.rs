use crate::json::{insert_member, text_of, valid, with_member, Json, JsonView};
use crate::json_helpers::HelperError;
use vstd::prelude::*;
use vstd::string::StringExecFns;

verus! {

/// The data of a context after `name` has been given the value `value`. Only
/// an object takes the member; any other document stays as it is.
pub open spec fn assigned(data: JsonView, name: Seq<char>, value: JsonView) -> JsonView {
    match data {
        JsonView::Object(members) => JsonView::Object(with_member(members, name, value)),
        _ => data,
    }
}

/// The data of a context after each of the entries has been assigned in turn.
pub open spec fn assigned_all(data: JsonView, entries: Seq<(String, Json)>) -> JsonView
    decreases entries.len(),
{
    if entries.len() == 0 {
        data
    } else {
        assigned(assigned_all(data, entries.drop_last()), entries.last().0@, entries.last().1@)
    }
}

fn assign_member(data: Json, name: &str, value: &Json) -> (r: Json)
    ensures
        r@ == assigned(data@, name@, value@),
        valid(data@) && valid(value@) ==> valid(r@),
{
    match data {
        Json::Object(members) => {
            let mut members = members;
            insert_member(&mut members, String::from_str(name), value.clone());
            Json::Object(members)
        },
        other => other,
    }
}

/// The helper `assign`: the data of the context with the member named by the
/// first argument set to the second argument. The first argument must be
/// there and be a string, and the second must be there.
pub fn assign_fct(data: &Json, name: Option<&Json>, value: Option<&Json>) -> (r: Result<
    Json,
    HelperError,
>)
    ensures
        match (text_of(name), value) {
            (None, _) => r is Err && r->Err_0 == HelperError::ParamNotFoundForIndex("assign", 0),
            (Some(_), None) => r is Err && r->Err_0 == HelperError::ParamNotFoundForIndex(
                "assign",
                1,
            ),
            (Some(n), Some(v)) => r is Ok && r->Ok_0@ == assigned(data@, n, v@),
        },
        r is Ok && valid(data@) && value is Some && valid(value->0@) ==> valid(r->Ok_0@),
{
    let name = match name {
        Some(j) => match j.as_str() {
            Some(s) => s,
            None => {
                return Err(HelperError::ParamNotFoundForIndex("assign", 0));
            },
        },
        None => {
            return Err(HelperError::ParamNotFoundForIndex("assign", 0));
        },
    };
    let value = match value {
        Some(v) => v,
        None => {
            return Err(HelperError::ParamNotFoundForIndex("assign", 1));
        },
    };
    Ok(assign_member(data.clone(), name, value))
}

/// The helper `set`: the data of the context with each of the named arguments
/// assigned in turn.
pub fn set_fct(data: &Json, hash: &Vec<(String, Json)>) -> (r: Json)
    ensures
        r@ == assigned_all(data@, hash@),
        valid(data@) && (forall|i: int| 0 <= i < hash.len() ==> valid((#[trigger] hash@[i]).1@))
            ==> valid(r@),
{
    let mut ctx = data.clone();
    let mut i: usize = 0;
    assert(hash@.take(0) =~= Seq::<(String, Json)>::empty());
    while i < hash.len()
        invariant
            i <= hash.len(),
            ctx@ == assigned_all(data@, hash@.take(i as int)),
            valid(data@) && (forall|k: int|
                0 <= k < hash.len() ==> valid((#[trigger] hash@[k]).1@)) ==> valid(ctx@),
        decreases hash.len() - i,
    {
        let ghost next = hash@.take(i + 1);
        assert(next.drop_last() =~= hash@.take(i as int));
        assert(next.last() == hash@[i as int]);
        ctx = assign_member(ctx, hash[i].0.as_str(), &hash[i].1);
        i += 1;
    }
    assert(hash@.take(hash.len() as int) =~= hash@);
    ctx
}

} // verus!
