use crate::json::{items_view, members_view, unique_names, valid, Json, JsonNumber, JsonView};
use crate::json::{lemma_item_decreases, lemma_member_decreases};
use vstd::prelude::*;

verus! {

/// A TOML value, as far as a JSON document can give one. A table is the list
/// of its members in the order in which they are written out.
#[derive(Debug)]
pub enum TomlValue {
    String(String),
    Integer(i64),
    /// A number that no `i64` holds, to be written as a float.
    Float(JsonNumber),
    Boolean(bool),
    Array(Vec<TomlValue>),
    Table(Vec<(String, TomlValue)>),
}

/// What a [`TomlValue`] is, with texts as sequences of characters.
pub enum TomlView {
    String(Seq<char>),
    Integer(i64),
    Float(JsonNumber),
    Boolean(bool),
    Array(Seq<TomlView>),
    Table(Seq<(Seq<char>, TomlView)>),
}

/// The views of the items of a list of values.
pub open spec fn toml_items_view(items: Seq<TomlValue>) -> Seq<TomlView>
    decreases items,
{
    Seq::new(
        items.len(),
        |i: int|
            if 0 <= i < items.len() {
                items[i].view()
            } else {
                TomlView::Boolean(false)
            },
    )
}

/// The views of the members of a table.
pub open spec fn toml_members_view(members: Seq<(String, TomlValue)>) -> Seq<(Seq<char>, TomlView)>
    decreases members,
{
    Seq::new(
        members.len(),
        |i: int|
            if 0 <= i < members.len() {
                (members[i].0@, members[i].1.view())
            } else {
                (Seq::empty(), TomlView::Boolean(false))
            },
    )
}

impl View for TomlValue {
    type V = TomlView;

    open spec fn view(&self) -> TomlView
        decreases self,
    {
        match self {
            TomlValue::String(s) => TomlView::String(s@),
            TomlValue::Integer(i) => TomlView::Integer(*i),
            TomlValue::Float(n) => TomlView::Float(*n),
            TomlValue::Boolean(b) => TomlView::Boolean(*b),
            TomlValue::Array(a) => TomlView::Array(toml_items_view(a@)),
            TomlValue::Table(t) => TomlView::Table(toml_members_view(t@)),
        }
    }
}

impl TomlValue {
    /// Whether the value is a table.
    pub fn is_table(&self) -> (r: bool)
        ensures
            r == (self@ is Table),
    {
        match self {
            TomlValue::Table(_) => true,
            _ => false,
        }
    }

    /// Whether the value is an array.
    pub fn is_array(&self) -> (r: bool)
        ensures
            r == (self@ is Array),
    {
        match self {
            TomlValue::Array(_) => true,
            _ => false,
        }
    }
}

impl Clone for TomlValue {
    fn clone(&self) -> (r: TomlValue)
        ensures
            r@ == self@,
        decreases self,
    {
        match self {
            TomlValue::String(s) => TomlValue::String(s.clone()),
            TomlValue::Integer(i) => TomlValue::Integer(*i),
            TomlValue::Float(n) => TomlValue::Float(n.clone()),
            TomlValue::Boolean(b) => TomlValue::Boolean(*b),
            TomlValue::Array(a) => {
                let mut out: Vec<TomlValue> = Vec::new();
                let mut i: usize = 0;
                while i < a.len()
                    invariant
                        *self == TomlValue::Array(*a),
                        i <= a.len(),
                        out.len() == i,
                        forall|j: int| 0 <= j < i ==> out@[j]@ == a@[j]@,
                    decreases a.len() - i,
                {
                    proof {
                        assert(decreases_to!(self => self->Array_0));
                        assert(decreases_to!(*a => a[i as int]));
                    }
                    out.push(a[i].clone());
                    i += 1;
                }
                assert(toml_items_view(out@) =~= toml_items_view(a@));
                TomlValue::Array(out)
            },
            TomlValue::Table(t) => {
                let mut out: Vec<(String, TomlValue)> = Vec::new();
                let mut i: usize = 0;
                while i < t.len()
                    invariant
                        *self == TomlValue::Table(*t),
                        i <= t.len(),
                        out.len() == i,
                        forall|j: int|
                            0 <= j < i ==> out@[j].0@ == t@[j].0@ && out@[j].1@ == t@[j].1@,
                    decreases t.len() - i,
                {
                    proof {
                        assert(decreases_to!(self => self->Table_0));
                        assert(decreases_to!(*t => t[i as int]));
                        assert(decreases_to!(t[i as int] => t[i as int].1));
                    }
                    out.push((t[i].0.clone(), t[i].1.clone()));
                    i += 1;
                }
                assert(toml_members_view(out@) =~= toml_members_view(t@));
                TomlValue::Table(out)
            },
        }
    }
}

/// Where a member stands when a table is written out: plain values first,
/// then arrays, then tables.
pub open spec fn rank(v: TomlView) -> int {
    if v is Table {
        2
    } else if v is Array {
        1
    } else {
        0
    }
}

/// The members of rank `r`, in the order in which they stand in `members`.
pub open spec fn of_rank(members: Seq<(Seq<char>, TomlView)>, r: int) -> Seq<(Seq<char>, TomlView)>
    decreases members.len(),
{
    if members.len() == 0 {
        Seq::empty()
    } else {
        let init = of_rank(members.drop_last(), r);
        if rank(members.last().1) == r {
            init.push(members.last())
        } else {
            init
        }
    }
}

/// A table's members in the order in which they can be written out: the plain
/// values, then the arrays, then the tables, each group in its old order.
pub open spec fn sorted_table(members: Seq<(Seq<char>, TomlView)>) -> Seq<(Seq<char>, TomlView)> {
    of_rank(members, 0) + of_rank(members, 1) + of_rank(members, 2)
}

/// The members of one rank are members of the table, all of that rank, and no
/// more than the table has.
pub proof fn lemma_of_rank(members: Seq<(Seq<char>, TomlView)>, r: int)
    ensures
        of_rank(members, r).len() <= members.len(),
        forall|i: int|
            0 <= i < of_rank(members, r).len() ==> rank((#[trigger] of_rank(members, r)[i]).1)
                == r && members.contains(of_rank(members, r)[i]),
        forall|i: int|
            0 <= i < members.len() && rank(members[i].1) == r ==> of_rank(members, r).contains(
                #[trigger] members[i],
            ),
    decreases members.len(),
{
    if members.len() > 0 {
        let init = members.drop_last();
        let last = members.last();
        lemma_of_rank(init, r);
        let picked = of_rank(members, r);
        assert forall|i: int| 0 <= i < picked.len() implies rank((#[trigger] picked[i]).1) == r
            && members.contains(picked[i]) by {
            if i < of_rank(init, r).len() {
                let j = choose|j: int| 0 <= j < init.len() && init[j] == of_rank(init, r)[i];
                assert(members[j] == picked[i]);
            } else {
                assert(members[members.len() - 1] == picked[i]);
            }
        }
        assert forall|i: int| 0 <= i < members.len() && rank(members[i].1) == r implies picked
            .contains(#[trigger] members[i]) by {
            if i < init.len() {
                assert(init[i] == members[i]);
                let j = choose|j: int|
                    0 <= j < of_rank(init, r).len() && of_rank(init, r)[j] == init[i];
                assert(picked[j] == members[i]);
            } else {
                assert(picked[picked.len() - 1] == members[i]);
            }
        }
    }
}

/// The three ranks part a table: their lengths add up to its length.
pub proof fn lemma_ranks_part(members: Seq<(Seq<char>, TomlView)>)
    ensures
        of_rank(members, 0).len() + of_rank(members, 1).len() + of_rank(members, 2).len()
            == members.len(),
    decreases members.len(),
{
    if members.len() > 0 {
        lemma_ranks_part(members.drop_last());
    }
}

/// A sorted table holds what the table held, member for member, with the
/// ranks in ascending order.
pub proof fn lemma_sorted_table(members: Seq<(Seq<char>, TomlView)>)
    ensures
        sorted_table(members).len() == members.len(),
        forall|i: int|
            0 <= i < members.len() ==> sorted_table(members).contains(#[trigger] members[i]),
        forall|i: int|
            0 <= i < members.len() ==> members.contains(#[trigger] sorted_table(members)[i]),
        forall|i: int, j: int|
            0 <= i <= j < members.len() ==> rank((#[trigger] sorted_table(members)[i]).1) <= rank(
                (#[trigger] sorted_table(members)[j]).1,
            ),
{
    let p0 = of_rank(members, 0);
    let p1 = of_rank(members, 1);
    let p2 = of_rank(members, 2);
    let sorted = sorted_table(members);
    lemma_of_rank(members, 0);
    lemma_of_rank(members, 1);
    lemma_of_rank(members, 2);
    lemma_ranks_part(members);
    assert forall|i: int| 0 <= i < sorted.len() implies rank((#[trigger] sorted[i]).1) == (if i
        < p0.len() {
        0int
    } else if i < p0.len() + p1.len() {
        1int
    } else {
        2int
    }) && members.contains(sorted[i]) by {
        if i < p0.len() {
            assert(sorted[i] == p0[i]);
        } else if i < p0.len() + p1.len() {
            assert(sorted[i] == p1[i - p0.len()]);
        } else {
            assert(sorted[i] == p2[i - p0.len() - p1.len()]);
        }
    }
    assert forall|i: int| 0 <= i < members.len() implies sorted.contains(
        #[trigger] members[i],
    ) by {
        let m = members[i];
        if rank(m.1) == 0 {
            let j = choose|j: int| 0 <= j < p0.len() && p0[j] == m;
            assert(sorted[j] == m);
        } else if rank(m.1) == 1 {
            let j = choose|j: int| 0 <= j < p1.len() && p1[j] == m;
            assert(sorted[p0.len() + j] == m);
        } else {
            let j = choose|j: int| 0 <= j < p2.len() && p2[j] == m;
            assert(sorted[p0.len() + p1.len() + j] == m);
        }
    }
}

/// A value is valid where no table in it, at any depth, has two members of the
/// same name.
pub open spec fn toml_valid(v: TomlView) -> bool
    decreases v,
{
    match v {
        TomlView::Array(items) => forall|i: int|
            0 <= i < items.len() ==> toml_valid(#[trigger] items[i]),
        TomlView::Table(members) => unique_names(members) && forall|i: int|
            0 <= i < members.len() ==> toml_valid((#[trigger] members[i]).1),
        _ => true,
    }
}

/// The members of one rank of a table without a repeated name have no
/// repeated name.
pub proof fn lemma_of_rank_unique(members: Seq<(Seq<char>, TomlView)>, r: int)
    requires
        unique_names(members),
    ensures
        unique_names(of_rank(members, r)),
    decreases members.len(),
{
    if members.len() > 0 {
        let init = members.drop_last();
        assert(unique_names(init)) by {
            assert forall|i: int, j: int| 0 <= i < j < init.len() implies (#[trigger] init[i]).0
                != (#[trigger] init[j]).0 by {
                assert(init[i] == members[i]);
                assert(init[j] == members[j]);
            }
        }
        lemma_of_rank_unique(init, r);
        lemma_of_rank(init, r);
        let picked = of_rank(members, r);
        let before = of_rank(init, r);
        assert forall|i: int, j: int| 0 <= i < j < picked.len() implies (#[trigger] picked[i]).0
            != (#[trigger] picked[j]).0 by {
            if j < before.len() {
                assert(picked[i] == before[i]);
                assert(picked[j] == before[j]);
            } else {
                assert(picked[i] == before[i]);
                let k = choose|k: int| 0 <= k < init.len() && init[k] == before[i];
                assert(members[k] == picked[i]);
                assert(members[members.len() - 1] == picked[j]);
            }
        }
    }
}

/// A sorted table has no repeated name where the table had none.
pub proof fn lemma_sorted_unique(members: Seq<(Seq<char>, TomlView)>)
    requires
        unique_names(members),
    ensures
        unique_names(sorted_table(members)),
{
    let p0 = of_rank(members, 0);
    let p1 = of_rank(members, 1);
    let p2 = of_rank(members, 2);
    let sorted = sorted_table(members);
    lemma_of_rank(members, 0);
    lemma_of_rank(members, 1);
    lemma_of_rank(members, 2);
    lemma_of_rank_unique(members, 0);
    lemma_of_rank_unique(members, 1);
    lemma_of_rank_unique(members, 2);
    assert forall|i: int, j: int| 0 <= i < j < sorted.len() implies (#[trigger] sorted[i]).0 != (
    #[trigger] sorted[j]).0 by {
        let x = sorted[i];
        let y = sorted[j];
        let rx = if i < p0.len() {
            0int
        } else if i < p0.len() + p1.len() {
            1int
        } else {
            2int
        };
        let ry = if j < p0.len() {
            0int
        } else if j < p0.len() + p1.len() {
            1int
        } else {
            2int
        };
        if i < p0.len() {
            assert(x == p0[i]);
        } else if i < p0.len() + p1.len() {
            assert(x == p1[i - p0.len()]);
        } else {
            assert(x == p2[i - p0.len() - p1.len()]);
        }
        if j < p0.len() {
            assert(y == p0[j]);
        } else if j < p0.len() + p1.len() {
            assert(y == p1[j - p0.len()]);
        } else {
            assert(y == p2[j - p0.len() - p1.len()]);
        }
        if rx != ry {
            assert(rank(x.1) == rx);
            assert(rank(y.1) == ry);
            let a = choose|a: int| 0 <= a < members.len() && members[a] == x;
            let b = choose|b: int| 0 <= b < members.len() && members[b] == y;
            if a < b {
                assert(members[a].0 != members[b].0);
            } else if b < a {
                assert(members[b].0 != members[a].0);
            }
        }
    }
}

/// A sorted table is valid where the table was.
pub proof fn lemma_sorted_valid(members: Seq<(Seq<char>, TomlView)>)
    requires
        toml_valid(TomlView::Table(members)),
    ensures
        toml_valid(TomlView::Table(sorted_table(members))),
{
    lemma_sorted_unique(members);
    lemma_sorted_table(members);
    let sorted = sorted_table(members);
    assert forall|i: int| 0 <= i < sorted.len() implies toml_valid((#[trigger] sorted[i]).1) by {
        assert(members.contains(sorted[i]));
        let a = choose|a: int| 0 <= a < members.len() && members[a] == sorted[i];
        assert(toml_valid(members[a].1));
    }
}

/// The values of the items of a list of valid documents are valid.
pub proof fn lemma_ordered_items_valid(items: Seq<JsonView>)
    requires
        forall|i: int| 0 <= i < items.len() ==> valid(#[trigger] items[i]),
    ensures
        forall|k: int|
            0 <= k < ordered_items(items).len() ==> toml_valid(#[trigger] ordered_items(items)[k]),
    decreases items,
{
    if items.len() > 0 {
        let init = items.drop_last();
        assert forall|i: int| 0 <= i < init.len() implies valid(#[trigger] init[i]) by {
            assert(init[i] == items[i]);
        }
        lemma_ordered_items_valid(init);
        assert(items.last() == items[items.len() - 1]);
        lemma_ordered_valid(items.last());
        let result = ordered_items(items);
        assert forall|k: int| 0 <= k < result.len() implies toml_valid(#[trigger] result[k]) by {
            if k < ordered_items(init).len() {
                assert(result[k] == ordered_items(init)[k]);
            }
        }
    }
}

/// The members that the members of a valid object give are valid, bear names
/// of the object, and bear no name twice.
pub proof fn lemma_ordered_members_valid(members: Seq<(Seq<char>, JsonView)>)
    requires
        unique_names(members),
        forall|i: int| 0 <= i < members.len() ==> valid((#[trigger] members[i]).1),
    ensures
        unique_names(ordered_members(members)),
        forall|k: int|
            0 <= k < ordered_members(members).len() ==> toml_valid(
                (#[trigger] ordered_members(members)[k]).1,
            ),
        forall|k: int|
            0 <= k < ordered_members(members).len() ==> exists|j: int|
                0 <= j < members.len() && (#[trigger] members[j]).0 == (
                #[trigger] ordered_members(members)[k]).0,
    decreases members,
{
    if members.len() > 0 {
        let init = members.drop_last();
        let last = members.last();
        assert(last == members[members.len() - 1]);
        assert(unique_names(init)) by {
            assert forall|i: int, j: int| 0 <= i < j < init.len() implies (#[trigger] init[i]).0
                != (#[trigger] init[j]).0 by {
                assert(init[i] == members[i]);
                assert(init[j] == members[j]);
            }
        }
        assert forall|i: int| 0 <= i < init.len() implies valid((#[trigger] init[i]).1) by {
            assert(init[i] == members[i]);
        }
        lemma_ordered_members_valid(init);
        lemma_ordered_valid(last.1);
        let before = ordered_members(init);
        let result = ordered_members(members);
        assert forall|k: int| 0 <= k < result.len() implies exists|j: int|
            0 <= j < members.len() && (#[trigger] members[j]).0 == (#[trigger] result[k]).0 by {
            if k < before.len() {
                assert(result[k] == before[k]);
                let j = choose|j: int|
                    0 <= j < init.len() && (#[trigger] init[j]).0 == before[k].0;
                assert(members[j].0 == result[k].0);
            } else {
                assert(members[members.len() - 1].0 == result[k].0);
            }
        }
        assert forall|k: int| 0 <= k < result.len() implies toml_valid(
            (#[trigger] result[k]).1,
        ) by {
            if k < before.len() {
                assert(result[k] == before[k]);
            }
        }
        assert forall|i: int, j: int| 0 <= i < j < result.len() implies (#[trigger] result[i]).0
            != (#[trigger] result[j]).0 by {
            assert(result[i] == before[i]);
            if j < before.len() {
                assert(result[j] == before[j]);
            } else {
                let a = choose|a: int|
                    0 <= a < init.len() && (#[trigger] init[a]).0 == before[i].0;
                assert(members[a].0 == result[i].0);
                assert(members[members.len() - 1].0 == result[j].0);
            }
        }
    }
}

/// The TOML value of a valid document is valid.
pub proof fn lemma_ordered_valid(v: JsonView)
    requires
        valid(v),
    ensures
        ordered_toml(v) is Some ==> toml_valid(ordered_toml(v)->0),
    decreases v,
{
    match v {
        JsonView::Array(a) => {
            assert forall|i: int| 0 <= i < a.len() implies valid(#[trigger] a[i]) by {}
            lemma_ordered_items_valid(a);
            assert(toml_valid(TomlView::Array(ordered_items(a))));
        },
        JsonView::Object(o) => {
            assert forall|i: int| 0 <= i < o.len() implies valid((#[trigger] o[i]).1) by {}
            lemma_ordered_members_valid(o);
            assert(toml_valid(TomlView::Table(ordered_members(o))));
            lemma_sorted_valid(ordered_members(o));
        },
        _ => {},
    }
}

/// Moves the arrays of a table behind its plain values, and its tables behind
/// both, and keeps the order otherwise. A valid table stays valid.
pub fn sort_toml_map(data: Vec<(String, TomlValue)>) -> (r: Vec<(String, TomlValue)>)
    ensures
        toml_members_view(r@) == sorted_table(toml_members_view(data@)),
        toml_valid(TomlView::Table(toml_members_view(data@))) ==> toml_valid(
            TomlView::Table(toml_members_view(r@)),
        ),
{
    proof {
        if toml_valid(TomlView::Table(toml_members_view(data@))) {
            lemma_sorted_valid(toml_members_view(data@));
        }
    }
    let ghost all = toml_members_view(data@);
    let mut others: Vec<(String, TomlValue)> = Vec::new();
    let mut arrays: Vec<(String, TomlValue)> = Vec::new();
    let mut tables: Vec<(String, TomlValue)> = Vec::new();
    let mut i: usize = 0;
    while i < data.len()
        invariant
            i <= data.len(),
            all == toml_members_view(data@),
            toml_members_view(others@) == of_rank(all.take(i as int), 0),
            toml_members_view(arrays@) == of_rank(all.take(i as int), 1),
            toml_members_view(tables@) == of_rank(all.take(i as int), 2),
        decreases data.len() - i,
    {
        let ghost next = all.take(i + 1);
        assert(next.drop_last() =~= all.take(i as int));
        assert(next.last() == all[i as int]);
        let key = data[i].0.clone();
        let value = data[i].1.clone();
        if value.is_table() {
            let ghost old_view = toml_members_view(tables@);
            tables.push((key, value));
            assert(toml_members_view(tables@) =~= old_view.push(all[i as int]));
        } else if value.is_array() {
            let ghost old_view = toml_members_view(arrays@);
            arrays.push((key, value));
            assert(toml_members_view(arrays@) =~= old_view.push(all[i as int]));
        } else {
            let ghost old_view = toml_members_view(others@);
            others.push((key, value));
            assert(toml_members_view(others@) =~= old_view.push(all[i as int]));
        }
        i += 1;
    }
    assert(all.take(data.len() as int) =~= all);
    let ghost v0 = toml_members_view(others@);
    let ghost v1 = toml_members_view(arrays@);
    let ghost v2 = toml_members_view(tables@);
    others.append(&mut arrays);
    others.append(&mut tables);
    assert(toml_members_view(others@) =~= v0 + v1 + v2);
    others
}

/// The TOML values of the items that have one, in their order.
pub open spec fn ordered_items(items: Seq<JsonView>) -> Seq<TomlView>
    decreases items,
{
    if items.len() == 0 {
        Seq::empty()
    } else {
        let init = ordered_items(items.drop_last());
        match ordered_toml(items.last()) {
            Some(t) => init.push(t),
            None => init,
        }
    }
}

/// The members whose values have a TOML value, in their order.
pub open spec fn ordered_members(members: Seq<(Seq<char>, JsonView)>) -> Seq<(Seq<char>, TomlView)>
    decreases members,
{
    if members.len() == 0 {
        Seq::empty()
    } else {
        let init = ordered_members(members.drop_last());
        match ordered_toml(members.last().1) {
            Some(t) => init.push((members.last().0, t)),
            None => init,
        }
    }
}

/// The TOML value of a JSON document. `null` has none, and is left out of the
/// array or object that holds it; the members of an object come out as
/// [`sorted_table`] orders them; an integer that `i64` holds stays an integer
/// and every other number becomes a float.
pub open spec fn ordered_toml(v: JsonView) -> Option<TomlView>
    decreases v,
{
    match v {
        JsonView::Null => None,
        JsonView::Bool(b) => Some(TomlView::Boolean(b)),
        JsonView::Number(n) => if n.fits_i64() {
            Some(TomlView::Integer(n.int_value() as i64))
        } else {
            Some(TomlView::Float(n))
        },
        JsonView::String(s) => Some(TomlView::String(s)),
        JsonView::Array(a) => Some(TomlView::Array(ordered_items(a))),
        JsonView::Object(o) => Some(TomlView::Table(sorted_table(ordered_members(o)))),
    }
}

/// Turns a JSON document into the TOML value that can be written out for it.
/// The value of a valid document is valid.
pub fn to_ordored_toml_value(data: &Json) -> (r: Option<TomlValue>)
    ensures
        match r {
            Some(t) => ordered_toml(data@) == Some(t@),
            None => ordered_toml(data@) is None,
        },
        valid(data@) && r is Some ==> toml_valid(r->0@),
    decreases data,
{
    proof {
        if valid(data@) {
            lemma_ordered_valid(data@);
        }
    }
    match data {
        Json::String(v) => Some(TomlValue::String(v.clone())),
        Json::Array(a) => {
            let ghost all = items_view(a@);
            let mut out: Vec<TomlValue> = Vec::new();
            let mut i: usize = 0;
            while i < a.len()
                invariant
                    *data == Json::Array(*a),
                    all == items_view(a@),
                    i <= a.len(),
                    toml_items_view(out@) == ordered_items(all.take(i as int)),
                decreases a.len() - i,
            {
                proof {
                    lemma_item_decreases(data, i as int);
                    let next = all.take(i + 1);
                    assert(next.drop_last() =~= all.take(i as int));
                    assert(next.last() == a@[i as int]@);
                }
                let ghost old_view = toml_items_view(out@);
                match to_ordored_toml_value(&a[i]) {
                    Some(t) => {
                        out.push(t);
                        assert(toml_items_view(out@) =~= old_view.push(t@));
                    },
                    None => {},
                }
                i += 1;
            }
            assert(all.take(a.len() as int) =~= all);
            Some(TomlValue::Array(out))
        },
        Json::Object(o) => {
            let ghost all = members_view(o@);
            let mut out: Vec<(String, TomlValue)> = Vec::new();
            let mut i: usize = 0;
            while i < o.len()
                invariant
                    *data == Json::Object(*o),
                    all == members_view(o@),
                    i <= o.len(),
                    toml_members_view(out@) == ordered_members(all.take(i as int)),
                decreases o.len() - i,
            {
                proof {
                    lemma_member_decreases(data, i as int);
                    let next = all.take(i + 1);
                    assert(next.drop_last() =~= all.take(i as int));
                    assert(next.last() == (o@[i as int].0@, o@[i as int].1@));
                }
                let ghost old_view = toml_members_view(out@);
                match to_ordored_toml_value(&o[i].1) {
                    Some(t) => {
                        let key = o[i].0.clone();
                        out.push((key, t));
                        assert(toml_members_view(out@) =~= old_view.push((key@, t@)));
                    },
                    None => {},
                }
                i += 1;
            }
            assert(all.take(o.len() as int) =~= all);
            Some(TomlValue::Table(sort_toml_map(out)))
        },
        Json::Number(n) => match n.as_i64() {
            Some(i) => Some(TomlValue::Integer(i)),
            None => Some(TomlValue::Float(n.clone())),
        },
        Json::Bool(b) => Some(TomlValue::Boolean(*b)),
        Json::Null => None,
    }
}

} // verus!
