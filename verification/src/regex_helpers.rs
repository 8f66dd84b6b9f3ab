use crate::json::{insert_member, members_view, str_or_empty, text_or_empty};
use crate::json::{valid, with_member, Json, JsonView};
use crate::json_helpers::HelperError;
use crate::text::{decimal, decimal_string};
use vstd::prelude::*;
use vstd::string::StringExecFns;

verus! {

#[verifier::external_type_specification]
#[verifier::external_body]
pub struct ExRegex(regex::Regex);

#[verifier::external_type_specification]
#[verifier::external_body]
pub struct ExRegexError(regex::Error);

/// What `regex::Regex::new` gives for a text: the compiled pattern, or the
/// error that says why the text is none.
pub uninterp spec fn compiled(pattern: Seq<char>) -> Result<regex::Regex, regex::Error>;

/// What `Display` prints for a `regex::Error`.
pub uninterp spec fn error_text(e: regex::Error) -> Seq<char>;

/// Whether `regex::Regex::is_match` finds the pattern in a text.
pub uninterp spec fn matched(re: regex::Regex, on: Seq<char>) -> bool;

/// What `regex::Regex::capture_names` gives: the name of each group of the
/// pattern, in the order of the groups, with nothing for a group without a
/// name.
pub uninterp spec fn names_of(re: regex::Regex) -> Seq<Option<Seq<char>>>;

/// What `regex::Regex::captures` finds in a text, handed out by
/// `regex::Captures::iter`: nothing where the pattern does not match, and else
/// for each group in turn the text that it matched, if it took part in the
/// match.
pub uninterp spec fn groups_captured(re: regex::Regex, on: Seq<char>) -> Option<
    Seq<Option<Seq<char>>>,
>;

/// What `regex::Captures::name` gives of what `regex::Regex::captures` finds
/// in a text: the text that the group of that name matched, if the pattern
/// matches and the group took part in the match.
pub uninterp spec fn named_captured(re: regex::Regex, on: Seq<char>, name: Seq<char>) -> Option<
    Seq<char>,
>;

/// `regex::Regex::new`: the compiled pattern, or the error that says why the
/// text is none; the same for the same text, which [`compiled`] names.
#[verifier::external_body]
fn regex_new(pattern: &str) -> (r: Result<regex::Regex, regex::Error>)
    ensures
        r == compiled(pattern@),
{
    regex::Regex::new(pattern)
}

/// What `Display` prints for a `regex::Error`, which [`error_text`] names.
#[verifier::external_body]
fn regex_error_text(e: &regex::Error) -> (r: String)
    ensures
        r@ == error_text(*e),
{
    e.to_string()
}

/// `regex::Regex::is_match`, which [`matched`] names.
#[verifier::external_body]
fn regex_is_match(re: &regex::Regex, on: &str) -> (r: bool)
    ensures
        r == matched(*re, on@),
{
    re.is_match(on)
}

/// `regex::Regex::capture_names`, each name as a string of its own, which
/// [`names_of`] names.
#[verifier::external_body]
fn regex_capture_names(re: &regex::Regex) -> (r: Vec<Option<String>>)
    ensures
        groups_view(r@) == names_of(*re),
{
    re.capture_names().map(|n| n.map(|s| s.to_string())).collect()
}

/// `regex::Regex::captures`, with each group that `regex::Captures::iter`
/// hands out as a string of its own, which [`groups_captured`] names.
#[verifier::external_body]
fn regex_capture_groups(re: &regex::Regex, on: &str) -> (r: Option<Vec<Option<String>>>)
    ensures
        match r {
            Some(groups) => groups_captured(*re, on@) == Some(groups_view(groups@)),
            None => groups_captured(*re, on@) is None,
        },
{
    re.captures(on).map(|c| c.iter().map(|m| m.map(|x| x.as_str().to_string())).collect())
}

/// `regex::Captures::name` on what `regex::Regex::captures` finds, as a string
/// of its own, which [`named_captured`] names.
#[verifier::external_body]
fn regex_capture_named(re: &regex::Regex, on: &str, name: &str) -> (r: Option<String>)
    ensures
        match r {
            Some(text) => named_captured(*re, on@, name@) == Some(text@),
            None => named_captured(*re, on@, name@) is None,
        },
{
    re.captures(on).and_then(|c| c.name(name).map(|m| m.as_str().to_string()))
}

/// The names that matched with the texts that they matched, in the order of
/// the names.
pub open spec fn named_pairs(names: Seq<Option<Seq<char>>>, re: regex::Regex, on: Seq<char>) -> Seq<
    (Seq<char>, Seq<char>),
>
    decreases names.len(),
{
    if names.len() == 0 {
        Seq::empty()
    } else {
        let init = named_pairs(names.drop_last(), re, on);
        match names.last() {
            Some(n) => match named_captured(re, on, n) {
                Some(text) => init.push((n, text)),
                None => init,
            },
            None => init,
        }
    }
}

/// The object that tells what a pattern captures in a text.
pub open spec fn captures_of(re: regex::Regex, on: Seq<char>, groups: Seq<Option<Seq<char>>>) -> JsonView {
    JsonView::Object(
        with_groups(with_named(Seq::empty(), named_pairs(names_of(re), re, on)), groups),
    )
}

/// The views of a list of names and the texts that they matched.
pub open spec fn named_view(named: Seq<(String, String)>) -> Seq<(Seq<char>, Seq<char>)> {
    Seq::new(named.len(), |i: int| (named[i].0@, named[i].1@))
}

/// The views of the texts that the groups matched.
pub open spec fn groups_view(groups: Seq<Option<String>>) -> Seq<Option<Seq<char>>> {
    Seq::new(
        groups.len(),
        |i: int|
            match groups[i] {
                Some(s) => Some(s@),
                None => None,
            },
    )
}

/// The name under which the group at place `i` is listed.
pub open spec fn group_key(i: nat) -> Seq<char> {
    "_"@ + decimal(i)
}

/// `members` with each name given the text that it matched, in turn.
pub open spec fn with_named(
    members: Seq<(Seq<char>, JsonView)>,
    named: Seq<(Seq<char>, Seq<char>)>,
) -> Seq<(Seq<char>, JsonView)>
    decreases named.len(),
{
    if named.len() == 0 {
        members
    } else {
        with_member(
            with_named(members, named.drop_last()),
            named.last().0,
            JsonView::String(named.last().1),
        )
    }
}

/// `members` with each group that matched given its text, in turn, under
/// `_` and the number of the group.
pub open spec fn with_groups(
    members: Seq<(Seq<char>, JsonView)>,
    groups: Seq<Option<Seq<char>>>,
) -> Seq<(Seq<char>, JsonView)>
    decreases groups.len(),
{
    if groups.len() == 0 {
        members
    } else {
        let init = with_groups(members, groups.drop_last());
        match groups.last() {
            Some(t) => with_member(init, group_key((groups.len() - 1) as nat), JsonView::String(t)),
            None => init,
        }
    }
}

/// The object that tells what a pattern captured: first each named group that
/// matched under its name, then each group that matched under `_` and its
/// number; a later member takes the place of an earlier one of the same name.
pub fn captures_object(named: &Vec<(String, String)>, groups: &Vec<Option<String>>) -> (r: Json)
    ensures
        r@ == JsonView::Object(
            with_groups(
                with_named(Seq::empty(), named_view(named@)),
                groups_view(groups@),
            ),
        ),
        valid(r@),
{
    let ghost all_named = named_view(named@);
    let ghost all_groups = groups_view(groups@);
    let mut members: Vec<(String, Json)> = Vec::new();
    let mut i: usize = 0;
    assert(members_view(members@) =~= Seq::empty());
    assert(all_named.take(0) =~= Seq::empty());
    while i < named.len()
        invariant
            all_named == named_view(named@),
            i <= named.len(),
            members_view(members@) == with_named(Seq::empty(), all_named.take(i as int)),
            valid(JsonView::Object(members_view(members@))),
        decreases named.len() - i,
    {
        let ghost next = all_named.take(i + 1);
        assert(next.drop_last() =~= all_named.take(i as int));
        assert(next.last() == (named@[i as int].0@, named@[i as int].1@));
        insert_member(&mut members, named[i].0.clone(), Json::String(named[i].1.clone()));
        i += 1;
    }
    assert(all_named.take(named.len() as int) =~= all_named);
    let ghost base = members_view(members@);
    let mut k: usize = 0;
    assert(all_groups.take(0) =~= Seq::empty());
    while k < groups.len()
        invariant
            all_groups == groups_view(groups@),
            k <= groups.len(),
            members_view(members@) == with_groups(base, all_groups.take(k as int)),
            valid(JsonView::Object(members_view(members@))),
        decreases groups.len() - k,
    {
        let ghost next = all_groups.take(k + 1);
        assert(next.drop_last() =~= all_groups.take(k as int));
        assert(next.last() == all_groups[k as int]);
        match &groups[k] {
            Some(text) => {
                let mut key = String::from_str("_");
                let number = decimal_string(k);
                key.append(number.as_str());
                insert_member(&mut members, key, Json::String(text.clone()));
            },
            None => {},
        }
        k += 1;
    }
    assert(all_groups.take(groups.len() as int) =~= all_groups);
    Json::Object(members)
}

/// The helper that tells what a pattern captures in a text.
#[allow(non_camel_case_types)]
pub struct regex_captures_fct;

impl regex_captures_fct {
    /// Searches the text of `on` for the pattern of `pattern`; an argument
    /// that is missing or no string counts as the empty text. Fails exactly
    /// where the pattern is none, with what the pattern's compiler says.
    /// Gives `null` where nothing matches, and else the object of
    /// [`captures_object`] for the names that matched and the groups.
    pub fn call_inner(&self, on: Option<&Json>, pattern: Option<&Json>) -> (r: Result<
        Json,
        HelperError,
    >)
        ensures
            match compiled(text_or_empty(pattern)) {
                Err(e) => r is Err && r->Err_0 is Other && r->Err_0->Other_0@ == error_text(e),
                Ok(re) => match groups_captured(re, text_or_empty(on)) {
                    None => r is Ok && r->Ok_0@ == JsonView::Null,
                    Some(groups) => r is Ok && r->Ok_0@ == captures_of(
                        re,
                        text_or_empty(on),
                        groups,
                    ),
                },
            },
            r is Ok ==> valid(r->Ok_0@),
    {
        let on = str_or_empty(on);
        let pattern = str_or_empty(pattern);
        let re = match regex_new(pattern) {
            Ok(re) => re,
            Err(e) => {
                return Err(HelperError::Other(regex_error_text(&e)));
            },
        };
        match regex_capture_groups(&re, on) {
            Some(groups) => {
                let names = regex_capture_names(&re);
                let ghost all = groups_view(names@);
                let mut named: Vec<(String, String)> = Vec::new();
                let mut i: usize = 0;
                assert(named_view(named@) =~= Seq::empty());
                assert(all.take(0) =~= Seq::empty());
                while i < names.len()
                    invariant
                        all == groups_view(names@),
                        i <= names.len(),
                        named_view(named@) == named_pairs(all.take(i as int), re, on@),
                    decreases names.len() - i,
                {
                    let ghost next = all.take(i + 1);
                    let ghost before = named_view(named@);
                    assert(next.drop_last() =~= all.take(i as int));
                    assert(next.last() == all[i as int]);
                    match &names[i] {
                        Some(name) => match regex_capture_named(&re, on, name.as_str()) {
                            Some(text) => {
                                named.push((name.clone(), text));
                                assert(named_view(named@) =~= before.push((name@, text@)));
                            },
                            None => {},
                        },
                        None => {},
                    }
                    i += 1;
                }
                assert(all.take(names.len() as int) =~= all);
                Ok(captures_object(&named, &groups))
            },
            None => Ok(Json::Null),
        }
    }
}

/// The helper that tells whether a pattern matches in a text.
#[allow(non_camel_case_types)]
pub struct regex_is_match_fct;

impl regex_is_match_fct {
    /// Whether the pattern of `pattern` matches in the text of `on`; an
    /// argument that is missing or no string counts as the empty text. Fails
    /// exactly where the pattern is none, with what the pattern's compiler
    /// says.
    pub fn call_inner(&self, on: Option<&Json>, pattern: Option<&Json>) -> (r: Result<
        Json,
        HelperError,
    >)
        ensures
            match compiled(text_or_empty(pattern)) {
                Err(e) => r is Err && r->Err_0 is Other && r->Err_0->Other_0@ == error_text(e),
                Ok(re) => r is Ok && r->Ok_0@ == JsonView::Bool(matched(re, text_or_empty(on))),
            },
    {
        let on = str_or_empty(on);
        let pattern = str_or_empty(pattern);
        match regex_new(pattern) {
            Ok(re) => Ok(Json::Bool(regex_is_match(&re, on))),
            Err(e) => Err(HelperError::Other(regex_error_text(&e))),
        }
    }
}

} // verus!
