use crate::text::str_eq;
use vstd::prelude::*;

verus! {

#[verifier::external_type_specification]
#[verifier::external_body]
pub struct ExSerdeNumber(serde_json::Number);

#[verifier::external_type_specification]
#[verifier::external_body]
pub struct ExSerdeValue(serde_json::Value);

pub assume_specification[ <serde_json::Number as Clone>::clone ](n: &serde_json::Number) -> (r:
    serde_json::Number)
    ensures
        r == *n,
;

/// A JSON number in one of the three forms that a JSON parser tells apart.
///
/// `PosInt` holds the integers from zero up, `NegInt` the integers below zero,
/// and `Float` every number written with a fraction or an exponent, kept as
/// the parser delivered it.
#[derive(Debug)]
pub enum JsonNumber {
    PosInt(u64),
    NegInt(i64),
    Float(serde_json::Number),
}

impl JsonNumber {
    /// The number is an integer that a signed 64-bit integer can hold.
    pub open spec fn fits_i64(&self) -> bool {
        match self {
            JsonNumber::PosInt(u) => *u <= i64::MAX,
            JsonNumber::NegInt(_) => true,
            JsonNumber::Float(_) => false,
        }
    }

    /// The integer that the number stands for, where `fits_i64` holds.
    pub open spec fn int_value(&self) -> int {
        match self {
            JsonNumber::PosInt(u) => *u as int,
            JsonNumber::NegInt(i) => *i as int,
            JsonNumber::Float(_) => 0,
        }
    }

    /// The number that an `i64` stands for.
    pub fn from_i64(i: i64) -> (r: JsonNumber)
        ensures
            r == (if i < 0 {
                JsonNumber::NegInt(i)
            } else {
                JsonNumber::PosInt(i as u64)
            }),
    {
        if i < 0 {
            JsonNumber::NegInt(i)
        } else {
            JsonNumber::PosInt(i as u64)
        }
    }

    /// Whether the number is an integer that an `i64` holds.
    pub fn is_i64(&self) -> (r: bool)
        ensures
            r == self.fits_i64(),
    {
        match self {
            JsonNumber::PosInt(u) => *u <= 0x7fff_ffff_ffff_ffffu64,
            JsonNumber::NegInt(_) => true,
            JsonNumber::Float(_) => false,
        }
    }

    /// The number as an `i64`, where it is an integer that an `i64` holds.
    pub fn as_i64(&self) -> (r: Option<i64>)
        ensures
            r is Some <==> self.fits_i64(),
            r is Some ==> r->0 == self.int_value(),
    {
        match self {
            JsonNumber::PosInt(u) => {
                if *u <= 0x7fff_ffff_ffff_ffffu64 {
                    Some(*u as i64)
                } else {
                    None
                }
            },
            JsonNumber::NegInt(i) => Some(*i),
            JsonNumber::Float(_) => None,
        }
    }
}

impl Clone for JsonNumber {
    fn clone(&self) -> (r: JsonNumber)
        ensures
            r == *self,
    {
        match self {
            JsonNumber::PosInt(u) => JsonNumber::PosInt(*u),
            JsonNumber::NegInt(i) => JsonNumber::NegInt(*i),
            JsonNumber::Float(n) => JsonNumber::Float(n.clone()),
        }
    }
}

/// A JSON document.
///
/// An object is the list of its members in the order in which they were
/// written down.
#[derive(Debug)]
pub enum Json {
    Null,
    Bool(bool),
    Number(JsonNumber),
    String(String),
    Array(Vec<Json>),
    Object(Vec<(String, Json)>),
}

/// What a [`Json`] value is: the document with texts as sequences of characters.
pub enum JsonView {
    Null,
    Bool(bool),
    Number(JsonNumber),
    String(Seq<char>),
    Array(Seq<JsonView>),
    Object(Seq<(Seq<char>, JsonView)>),
}

/// An item of an array is smaller than the array.
pub proof fn lemma_item_decreases(v: &Json, i: int)
    requires
        v is Array,
        0 <= i < v->Array_0.len(),
    ensures
        decreases_to!(v => v->Array_0[i]),
{
    let a = v->Array_0;
    assert(decreases_to!(v => a));
    assert(decreases_to!(a => a[i]));
}

/// The value of a member of an object is smaller than the object.
pub proof fn lemma_member_decreases(v: &Json, i: int)
    requires
        v is Object,
        0 <= i < v->Object_0.len(),
    ensures
        decreases_to!(v => v->Object_0[i].1),
{
    let o = v->Object_0;
    assert(decreases_to!(v => o));
    assert(decreases_to!(o => o[i]));
    assert(decreases_to!(o[i] => o[i].1));
}

/// The views of the items of a list of documents.
pub open spec fn items_view(items: Seq<Json>) -> Seq<JsonView>
    decreases items,
{
    Seq::new(
        items.len(),
        |i: int|
            if 0 <= i < items.len() {
                items[i].view()
            } else {
                JsonView::Null
            },
    )
}

/// The views of the members of a list of members.
pub open spec fn members_view(members: Seq<(String, Json)>) -> Seq<(Seq<char>, JsonView)>
    decreases members,
{
    Seq::new(
        members.len(),
        |i: int|
            if 0 <= i < members.len() {
                (members[i].0@, members[i].1.view())
            } else {
                (Seq::empty(), JsonView::Null)
            },
    )
}

impl View for Json {
    type V = JsonView;

    open spec fn view(&self) -> JsonView
        decreases self,
    {
        match self {
            Json::Null => JsonView::Null,
            Json::Bool(b) => JsonView::Bool(*b),
            Json::Number(n) => JsonView::Number(*n),
            Json::String(s) => JsonView::String(s@),
            Json::Array(a) => JsonView::Array(items_view(a@)),
            Json::Object(o) => JsonView::Object(members_view(o@)),
        }
    }
}

impl Clone for Json {
    fn clone(&self) -> (r: Json)
        ensures
            r@ == self@,
        decreases self,
    {
        match self {
            Json::Null => Json::Null,
            Json::Bool(b) => Json::Bool(*b),
            Json::Number(n) => Json::Number(n.clone()),
            Json::String(s) => Json::String(s.clone()),
            Json::Array(a) => {
                let mut out: Vec<Json> = Vec::new();
                let mut i: usize = 0;
                while i < a.len()
                    invariant
                        *self == Json::Array(*a),
                        i <= a.len(),
                        out.len() == i,
                        forall|j: int| 0 <= j < i ==> out@[j]@ == a@[j]@,
                    decreases a.len() - i,
                {
                    proof {
                        lemma_item_decreases(self, i as int);
                    }
                    out.push(a[i].clone());
                    i += 1;
                }
                assert(items_view(out@) =~= items_view(a@));
                Json::Array(out)
            },
            Json::Object(o) => {
                let mut out: Vec<(String, Json)> = Vec::new();
                let mut i: usize = 0;
                while i < o.len()
                    invariant
                        *self == Json::Object(*o),
                        i <= o.len(),
                        out.len() == i,
                        forall|j: int|
                            0 <= j < i ==> out@[j].0@ == o@[j].0@ && out@[j].1@ == o@[j].1@,
                    decreases o.len() - i,
                {
                    proof {
                        lemma_member_decreases(self, i as int);
                    }
                    out.push((o[i].0.clone(), o[i].1.clone()));
                    i += 1;
                }
                assert(members_view(out@) =~= members_view(o@));
                Json::Object(out)
            },
        }
    }
}

impl Json {
    /// Whether the document is `null`.
    pub fn is_null(&self) -> (r: bool)
        ensures
            r == (self@ is Null),
    {
        match self {
            Json::Null => true,
            _ => false,
        }
    }

    /// Whether the document is an array.
    pub fn is_array(&self) -> (r: bool)
        ensures
            r == (self@ is Array),
    {
        match self {
            Json::Array(_) => true,
            _ => false,
        }
    }

    /// Whether the document is an object.
    pub fn is_object(&self) -> (r: bool)
        ensures
            r == (self@ is Object),
    {
        match self {
            Json::Object(_) => true,
            _ => false,
        }
    }

    /// The text of a string, and nothing for any other document.
    pub fn as_str(&self) -> (r: Option<&str>)
        ensures
            r is Some <==> self@ is String,
            r is Some ==> r->0@ == self@->String_0,
    {
        match self {
            Json::String(s) => Some(s.as_str()),
            _ => None,
        }
    }

    /// The value of a boolean, and nothing for any other document.
    pub fn as_bool(&self) -> (r: Option<bool>)
        ensures
            r == (if self@ is Bool { Some(self@->Bool_0) } else { None }),
    {
        match self {
            Json::Bool(b) => Some(*b),
            _ => None,
        }
    }
}

/// The text of `v` where it is there and is a JSON string.
pub open spec fn text_of(v: Option<&Json>) -> Option<Seq<char>> {
    match v {
        Some(j) => if j@ is String {
            Some(j@->String_0)
        } else {
            None
        },
        None => None,
    }
}

/// The text of an argument that is there and is a string.
pub fn as_text<'a>(v: Option<&'a Json>) -> (r: Option<&'a str>)
    ensures
        match r {
            Some(s) => text_of(v) == Some(s@),
            None => text_of(v) is None,
        },
{
    match v {
        Some(j) => j.as_str(),
        None => None,
    }
}

/// The text of an argument that is a string, and the empty text for an
/// argument that is missing or is no string.
pub open spec fn text_or_empty(v: Option<&Json>) -> Seq<char> {
    match v {
        Some(j) => if j@ is String {
            j@->String_0
        } else {
            Seq::empty()
        },
        None => Seq::empty(),
    }
}

/// The text of an argument that is a string, and the empty text else.
pub fn str_or_empty<'a>(v: Option<&'a Json>) -> (r: &'a str)
    ensures
        r@ == text_or_empty(v),
{
    proof {
        reveal_strlit("");
        assert(""@ =~= Seq::<char>::empty());
    }
    match v {
        Some(j) => match j.as_str() {
            Some(s) => s,
            None => "",
        },
        None => "",
    }
}

/// No two members have the same name.
pub open spec fn unique_names<T>(members: Seq<(Seq<char>, T)>) -> bool {
    forall|i: int, j: int|
        0 <= i < j < members.len() ==> (#[trigger] members[i]).0 != (#[trigger] members[j]).0
}

/// A document is valid where no object in it, at any depth, has two members
/// of the same name.
pub open spec fn valid(v: JsonView) -> bool
    decreases v,
{
    match v {
        JsonView::Array(items) => forall|i: int|
            0 <= i < items.len() ==> valid(#[trigger] items[i]),
        JsonView::Object(members) => unique_names(members) && forall|i: int|
            0 <= i < members.len() ==> valid((#[trigger] members[i]).1),
        _ => true,
    }
}

/// The place of the first member of `members` named `key`, if there is one.
pub open spec fn position_of(members: Seq<(Seq<char>, JsonView)>, key: Seq<char>) -> Option<int>
    decreases members.len(),
{
    if members.len() == 0 {
        None
    } else if members[0].0 == key {
        Some(0)
    } else {
        match position_of(members.drop_first(), key) {
            Some(i) => Some(i + 1),
            None => None,
        }
    }
}

/// `position_of` finds the least index that holds the key.
pub proof fn lemma_position_of(members: Seq<(Seq<char>, JsonView)>, key: Seq<char>)
    ensures
        match position_of(members, key) {
            Some(i) => 0 <= i < members.len() && members[i].0 == key && forall|j: int|
                0 <= j < i ==> (#[trigger] members[j]).0 != key,
            None => forall|j: int| 0 <= j < members.len() ==> (#[trigger] members[j]).0 != key,
        },
    decreases members.len(),
{
    if members.len() > 0 && members[0].0 != key {
        let rest = members.drop_first();
        lemma_position_of(rest, key);
        match position_of(rest, key) {
            Some(i) => {
                assert forall|j: int| 0 <= j < i + 1 implies (#[trigger] members[j]).0 != key by {
                    if j > 0 {
                        assert(members[j] == rest[j - 1]);
                    }
                }
            },
            None => {
                assert forall|j: int| 0 <= j < members.len() implies (#[trigger] members[j]).0
                    != key by {
                    if j > 0 {
                        assert(members[j] == rest[j - 1]);
                    }
                }
            },
        }
    }
}

/// The members after `key` has been given the value `value`: the first member of
/// that name takes the new value where it stands, and where there is none the
/// member is added at the end.
pub open spec fn with_member(
    members: Seq<(Seq<char>, JsonView)>,
    key: Seq<char>,
    value: JsonView,
) -> Seq<(Seq<char>, JsonView)> {
    match position_of(members, key) {
        Some(i) => members.update(i, (key, value)),
        None => members.push((key, value)),
    }
}

/// The value of the first member named `key`, if there is one.
pub open spec fn value_of(members: Seq<(Seq<char>, JsonView)>, key: Seq<char>) -> Option<JsonView> {
    match position_of(members, key) {
        Some(i) => Some(members[i].1),
        None => None,
    }
}

/// After `key` has been given a value, `key` has that value, and every other
/// name has the value that it had before.
pub proof fn lemma_with_member(
    members: Seq<(Seq<char>, JsonView)>,
    key: Seq<char>,
    value: JsonView,
    other: Seq<char>,
)
    ensures
        value_of(with_member(members, key, value), key) == Some(value),
        other != key ==> value_of(with_member(members, key, value), other) == value_of(
            members,
            other,
        ),
{
    let after = with_member(members, key, value);
    lemma_position_of(members, key);
    lemma_position_of(members, other);
    lemma_position_of(after, key);
    lemma_position_of(after, other);
    match position_of(members, key) {
        Some(i) => {
            assert(after[i].0 == key);
            assert(forall|j: int| 0 <= j < after.len() && j != i ==> after[j] == members[j]);
        },
        None => {
            assert(after[members.len() as int].0 == key);
            assert(forall|j: int| 0 <= j < members.len() ==> after[j] == members[j]);
        },
    }
}

/// Giving a member a valid value keeps a valid object valid: no name comes to
/// stand twice.
pub proof fn lemma_with_member_valid(
    members: Seq<(Seq<char>, JsonView)>,
    key: Seq<char>,
    value: JsonView,
)
    requires
        valid(JsonView::Object(members)),
        valid(value),
    ensures
        valid(JsonView::Object(with_member(members, key, value))),
{
    let after = with_member(members, key, value);
    lemma_position_of(members, key);
    match position_of(members, key) {
        Some(p) => {
            assert forall|i: int, j: int| 0 <= i < j < after.len() implies (#[trigger] after[i]).0
                != (#[trigger] after[j]).0 by {
                assert(after[i].0 == members[i].0);
                assert(after[j].0 == members[j].0);
            }
            assert forall|i: int| 0 <= i < after.len() implies valid((#[trigger] after[i]).1) by {
                if i != p {
                    assert(after[i] == members[i]);
                }
            }
        },
        None => {
            assert forall|i: int, j: int| 0 <= i < j < after.len() implies (#[trigger] after[i]).0
                != (#[trigger] after[j]).0 by {
                assert(after[i] == members[i]);
                if j < members.len() {
                    assert(after[j] == members[j]);
                }
            }
            assert forall|i: int| 0 <= i < after.len() implies valid((#[trigger] after[i]).1) by {
                if i < members.len() {
                    assert(after[i] == members[i]);
                }
            }
        },
    }
}

/// Gives the member `key` of `members` the value `value`. Valid members stay
/// valid where the value is valid.
pub fn insert_member(members: &mut Vec<(String, Json)>, key: String, value: Json)
    ensures
        members_view(final(members)@) == with_member(members_view(old(members)@), key@, value@),
        valid(JsonView::Object(members_view(old(members)@))) && valid(value@) ==> valid(
            JsonView::Object(members_view(final(members)@)),
        ),
{
    proof {
        if valid(JsonView::Object(members_view(members@))) && valid(value@) {
            lemma_with_member_valid(members_view(members@), key@, value@);
        }
    }
    let ghost before = members_view(members@);
    let mut i: usize = 0;
    while i < members.len()
        invariant
            i <= members.len(),
            members@ == old(members)@,
            before == members_view(members@),
            forall|j: int| 0 <= j < i ==> (#[trigger] before[j]).0 != key@,
        decreases members.len() - i,
    {
        if str_eq(members[i].0.as_str(), key.as_str()) {
            proof {
                lemma_position_of(before, key@);
                assert(before[i as int].0 == key@);
            }
            members.set(i, (key, value));
            assert(members_view(members@) =~= before.update(i as int, (key@, value@)));
            return ;
        }
        assert(before[i as int].0 != key@);
        i += 1;
    }
    proof {
        lemma_position_of(before, key@);
    }
    members.push((key, value));
    assert(members_view(members@) =~= before.push((key@, value@)));
}

/// Rewrites a `serde_json::Value` as a [`Json`], member by member in the order
/// in which the value's map hands them out. A map holds no name twice, so the
/// document is valid.
#[verifier::external_body]
pub(crate) fn json_from_serde(v: &serde_json::Value) -> (r: Json)
    ensures
        valid(r@),
{
    match v {
        serde_json::Value::Null => Json::Null,
        serde_json::Value::Bool(b) => Json::Bool(*b),
        serde_json::Value::Number(n) => Json::Number(number_from_serde(n)),
        serde_json::Value::String(s) => Json::String(s.clone()),
        serde_json::Value::Array(a) => Json::Array(a.iter().map(json_from_serde).collect()),
        serde_json::Value::Object(o) => Json::Object(
            o.iter().map(|(k, x)| (k.clone(), json_from_serde(x))).collect(),
        ),
    }
}

/// Tells the three forms of a `serde_json::Number` apart by its `as_u64` and
/// `as_i64`. Nothing is stated of the result.
#[verifier::external_body]
pub(crate) fn number_from_serde(n: &serde_json::Number) -> (r: JsonNumber) {
    if let Some(u) = n.as_u64() {
        JsonNumber::PosInt(u)
    } else if let Some(i) = n.as_i64() {
        JsonNumber::NegInt(i)
    } else {
        JsonNumber::Float(n.clone())
    }
}

/// Rewrites a [`Json`] as a `serde_json::Value`; the members of an object are
/// inserted into the value's map in their order. Nothing is stated of the result.
#[verifier::external_body]
pub(crate) fn json_to_serde(v: &Json) -> (r: serde_json::Value) {
    match v {
        Json::Null => serde_json::Value::Null,
        Json::Bool(b) => serde_json::Value::Bool(*b),
        Json::Number(n) => serde_json::Value::Number(number_to_serde(n)),
        Json::String(s) => serde_json::Value::String(s.clone()),
        Json::Array(a) => serde_json::Value::Array(a.iter().map(json_to_serde).collect()),
        Json::Object(o) => serde_json::Value::Object(
            o.iter().map(|(k, x)| (k.clone(), json_to_serde(x))).collect(),
        ),
    }
}

/// Makes the `serde_json::Number` of a [`JsonNumber`] with `Number::from`.
/// Nothing is stated of the result.
#[verifier::external_body]
pub(crate) fn number_to_serde(n: &JsonNumber) -> (r: serde_json::Number) {
    match n {
        JsonNumber::PosInt(u) => serde_json::Number::from(*u),
        JsonNumber::NegInt(i) => serde_json::Number::from(*i),
        JsonNumber::Float(x) => x.clone(),
    }
}

} // verus!
