use crate::json::{items_view, Json, JsonView};
use crate::text::{lowercased, to_lowercase, to_uppercase, uppercased};
use vstd::prelude::*;
use vstd::string::{StrSliceExecFns, StringExecFns};

verus! {

/// The text of the first of the documents that is a string and not empty.
pub open spec fn first_text(params: Seq<JsonView>) -> Option<Seq<char>>
    decreases params.len(),
{
    if params.len() == 0 {
        None
    } else if params[0] is String && params[0]->String_0.len() > 0 {
        Some(params[0]->String_0)
    } else {
        first_text(params.drop_first())
    }
}

/// The helper that gives the first of its arguments that is a string and not
/// empty.
#[allow(non_camel_case_types)]
pub struct first_non_empty_fct;

impl first_non_empty_fct {
    /// The first argument that is a string which is not empty, as a string of
    /// its own; nothing where there is none.
    pub fn call_inner(&self, params: &Vec<Json>) -> (r: Option<Json>)
        ensures
            match r {
                Some(j) => j@ is String && first_text(items_view(params@)) == Some(
                    j@->String_0,
                ),
                None => first_text(items_view(params@)) is None,
            },
    {
        let ghost all = items_view(params@);
        let mut i: usize = 0;
        assert(all.skip(0) =~= all);
        while i < params.len()
            invariant
                all == items_view(params@),
                i <= params.len(),
                first_text(all) == first_text(all.skip(i as int)),
            decreases params.len() - i,
        {
            let ghost rest = all.skip(i as int);
            assert(rest[0] == params@[i as int]@);
            assert(rest.drop_first() =~= all.skip(i + 1));
            match params[i].as_str() {
                Some(s) => {
                    if !s.is_empty() {
                        return Some(Json::String(String::from_str(s)));
                    }
                },
                None => {},
            }
            i += 1;
        }
        None
    }
}

/// What one character becomes between quotes: the quote and the backslash get
/// a backslash before them.
pub open spec fn escaped_char(quote: char, c: char) -> Seq<char> {
    if c == quote {
        seq!['\\', quote]
    } else if c == '\\' {
        seq!['\\', '\\']
    } else {
        seq![c]
    }
}

/// A text with its quotes and backslashes escaped.
pub open spec fn escaped(quote: char, s: Seq<char>) -> Seq<char>
    decreases s.len(),
{
    if s.len() == 0 {
        Seq::empty()
    } else {
        escaped(quote, s.drop_last()) + escaped_char(quote, s.last())
    }
}

/// A text between two quotes, escaped.
pub open spec fn enquoted(quote: char, s: Seq<char>) -> Seq<char> {
    seq![quote] + escaped(quote, s) + seq![quote]
}

/// `enquote::enquote`: the text between two quotes, with a backslash before
/// each quote and each backslash in it.
#[verifier::external_body]
fn enquote(quote: char, s: &str) -> (r: String)
    ensures
        r@ == enquoted(quote, s@),
{
    enquote::enquote(quote, s)
}

/// What `enquote::unquote` makes of a text, if it accepts it.
pub uninterp spec fn unquoted(s: Seq<char>) -> Option<Seq<char>>;

/// `enquote::unquote`: the text without the quotes around it and with its
/// escapes resolved, the same for the same text, or nothing where the text is
/// not quoted or holds an escape that is none.
#[verifier::external_body]
fn unquote_text(s: &str) -> (r: Option<String>)
    ensures
        match r {
            Some(u) => unquoted(s@) == Some(u@),
            None => unquoted(s@) is None,
        },
{
    enquote::unquote(s).ok()
}

/// The quote that a helper argument asks for: its first character, and the
/// double quote where it is empty.
pub open spec fn quote_of(quote_symbol: Seq<char>) -> char {
    if quote_symbol.len() > 0 {
        quote_symbol[0]
    } else {
        '"'
    }
}

/// Puts `v` between quotes. The quote is the first character of
/// `quote_symbol`, or the double quote where that is empty.
pub fn quote(quote_symbol: &str, v: &str) -> (r: String)
    ensures
        r@ == enquoted(quote_of(quote_symbol@), v@),
{
    let q = if quote_symbol.is_empty() {
        '"'
    } else {
        quote_symbol.get_char(0)
    };
    enquote(q, v)
}

/// Takes the quotes from around `v`; a text that is not quoted stays as it is.
pub fn unquote(v: &str) -> (r: String)
    ensures
        r@ == (match unquoted(v@) {
            Some(u) => u,
            None => v@,
        }),
{
    match unquote_text(v) {
        Some(s) => s,
        None => String::from_str(v),
    }
}

/// What `inflector::cases::camelcase::to_camel_case` makes of a text.
pub uninterp spec fn camel_cased(text: Seq<char>) -> Seq<char>;

/// `inflector::cases::camelcase::to_camel_case`: the text in camel case, as in `fooBar`; the same
/// for the same text.
#[verifier::external_body]
fn inflect_to_camel_case(v: &str) -> (r: String)
    ensures
        r@ == camel_cased(v@),
{
    inflector::cases::camelcase::to_camel_case(v)
}

/// `v` in camel case, as in `fooBar`.
pub fn to_camel_case(v: &str) -> (r: String)
    ensures
        r@ == camel_cased(v@),
{
    inflect_to_camel_case(v)
}

/// What `inflector::cases::pascalcase::to_pascal_case` makes of a text.
pub uninterp spec fn pascal_cased(text: Seq<char>) -> Seq<char>;

/// `inflector::cases::pascalcase::to_pascal_case`: the text in Pascal case, as in `FooBar`; the same
/// for the same text.
#[verifier::external_body]
fn inflect_to_pascal_case(v: &str) -> (r: String)
    ensures
        r@ == pascal_cased(v@),
{
    inflector::cases::pascalcase::to_pascal_case(v)
}

/// `v` in Pascal case, as in `FooBar`.
pub fn to_pascal_case(v: &str) -> (r: String)
    ensures
        r@ == pascal_cased(v@),
{
    inflect_to_pascal_case(v)
}

/// What `inflector::cases::snakecase::to_snake_case` makes of a text.
pub uninterp spec fn snake_cased(text: Seq<char>) -> Seq<char>;

/// `inflector::cases::snakecase::to_snake_case`: the text in snake case, as in `foo_bar`; the same
/// for the same text.
#[verifier::external_body]
fn inflect_to_snake_case(v: &str) -> (r: String)
    ensures
        r@ == snake_cased(v@),
{
    inflector::cases::snakecase::to_snake_case(v)
}

/// `v` in snake case, as in `foo_bar`.
pub fn to_snake_case(v: &str) -> (r: String)
    ensures
        r@ == snake_cased(v@),
{
    inflect_to_snake_case(v)
}

/// What `inflector::cases::screamingsnakecase::to_screaming_snake_case` makes of a text.
pub uninterp spec fn screaming_snake_cased(text: Seq<char>) -> Seq<char>;

/// `inflector::cases::screamingsnakecase::to_screaming_snake_case`: the text in screaming snake case, as in `FOO_BAR`; the same
/// for the same text.
#[verifier::external_body]
fn inflect_to_screaming_snake_case(v: &str) -> (r: String)
    ensures
        r@ == screaming_snake_cased(v@),
{
    inflector::cases::screamingsnakecase::to_screaming_snake_case(v)
}

/// `v` in screaming snake case, as in `FOO_BAR`.
pub fn to_screaming_snake_case(v: &str) -> (r: String)
    ensures
        r@ == screaming_snake_cased(v@),
{
    inflect_to_screaming_snake_case(v)
}

/// What `inflector::cases::kebabcase::to_kebab_case` makes of a text.
pub uninterp spec fn kebab_cased(text: Seq<char>) -> Seq<char>;

/// `inflector::cases::kebabcase::to_kebab_case`: the text in kebab case, as in `foo-bar`; the same
/// for the same text.
#[verifier::external_body]
fn inflect_to_kebab_case(v: &str) -> (r: String)
    ensures
        r@ == kebab_cased(v@),
{
    inflector::cases::kebabcase::to_kebab_case(v)
}

/// `v` in kebab case, as in `foo-bar`.
pub fn to_kebab_case(v: &str) -> (r: String)
    ensures
        r@ == kebab_cased(v@),
{
    inflect_to_kebab_case(v)
}

/// What `inflector::cases::traincase::to_train_case` makes of a text.
pub uninterp spec fn train_cased(text: Seq<char>) -> Seq<char>;

/// `inflector::cases::traincase::to_train_case`: the text in train case, as in `Foo-Bar`; the same
/// for the same text.
#[verifier::external_body]
fn inflect_to_train_case(v: &str) -> (r: String)
    ensures
        r@ == train_cased(v@),
{
    inflector::cases::traincase::to_train_case(v)
}

/// `v` in train case, as in `Foo-Bar`.
pub fn to_train_case(v: &str) -> (r: String)
    ensures
        r@ == train_cased(v@),
{
    inflect_to_train_case(v)
}

/// What `inflector::cases::sentencecase::to_sentence_case` makes of a text.
pub uninterp spec fn sentence_cased(text: Seq<char>) -> Seq<char>;

/// `inflector::cases::sentencecase::to_sentence_case`: the text in sentence case, as in `Foo bar`; the same
/// for the same text.
#[verifier::external_body]
fn inflect_to_sentence_case(v: &str) -> (r: String)
    ensures
        r@ == sentence_cased(v@),
{
    inflector::cases::sentencecase::to_sentence_case(v)
}

/// `v` in sentence case, as in `Foo bar`.
pub fn to_sentence_case(v: &str) -> (r: String)
    ensures
        r@ == sentence_cased(v@),
{
    inflect_to_sentence_case(v)
}

/// What `inflector::cases::titlecase::to_title_case` makes of a text.
pub uninterp spec fn title_cased(text: Seq<char>) -> Seq<char>;

/// `inflector::cases::titlecase::to_title_case`: the text in title case, as in `Foo Bar`; the same
/// for the same text.
#[verifier::external_body]
fn inflect_to_title_case(v: &str) -> (r: String)
    ensures
        r@ == title_cased(v@),
{
    inflector::cases::titlecase::to_title_case(v)
}

/// `v` in title case, as in `Foo Bar`.
pub fn to_title_case(v: &str) -> (r: String)
    ensures
        r@ == title_cased(v@),
{
    inflect_to_title_case(v)
}

/// What `inflector::cases::classcase::to_class_case` makes of a text.
pub uninterp spec fn class_cased(text: Seq<char>) -> Seq<char>;

/// `inflector::cases::classcase::to_class_case`: the text in class case: Pascal case with the last word in the singular; the same
/// for the same text.
#[verifier::external_body]
fn inflect_to_class_case(v: &str) -> (r: String)
    ensures
        r@ == class_cased(v@),
{
    inflector::cases::classcase::to_class_case(v)
}

/// `v` in class case: Pascal case with the last word in the singular.
pub fn to_class_case(v: &str) -> (r: String)
    ensures
        r@ == class_cased(v@),
{
    inflect_to_class_case(v)
}

/// What `inflector::cases::tablecase::to_table_case` makes of a text.
pub uninterp spec fn table_cased(text: Seq<char>) -> Seq<char>;

/// `inflector::cases::tablecase::to_table_case`: the text in table case: snake case with the last word in the plural; the same
/// for the same text.
#[verifier::external_body]
fn inflect_to_table_case(v: &str) -> (r: String)
    ensures
        r@ == table_cased(v@),
{
    inflector::cases::tablecase::to_table_case(v)
}

/// `v` in table case: snake case with the last word in the plural.
pub fn to_table_case(v: &str) -> (r: String)
    ensures
        r@ == table_cased(v@),
{
    inflect_to_table_case(v)
}

/// What `inflector::string::pluralize::to_plural` makes of a text.
pub uninterp spec fn pluralized(text: Seq<char>) -> Seq<char>;

/// `inflector::string::pluralize::to_plural`: the text in the plural; the same
/// for the same text.
#[verifier::external_body]
fn inflect_to_plural(v: &str) -> (r: String)
    ensures
        r@ == pluralized(v@),
{
    inflector::string::pluralize::to_plural(v)
}

/// `v` in the plural.
pub fn to_plural(v: &str) -> (r: String)
    ensures
        r@ == pluralized(v@),
{
    inflect_to_plural(v)
}

/// What `inflector::string::singularize::to_singular` makes of a text.
pub uninterp spec fn singularized(text: Seq<char>) -> Seq<char>;

/// `inflector::string::singularize::to_singular`: the text in the singular; the same
/// for the same text.
#[verifier::external_body]
fn inflect_to_singular(v: &str) -> (r: String)
    ensures
        r@ == singularized(v@),
{
    inflector::string::singularize::to_singular(v)
}

/// `v` in the singular.
pub fn to_singular(v: &str) -> (r: String)
    ensures
        r@ == singularized(v@),
{
    inflect_to_singular(v)
}

/// `v` in lower case.
pub fn to_lower_case(v: &str) -> (r: String)
    ensures
        r@ == lowercased(v@),
{
    to_lowercase(v)
}

/// `v` in upper case.
pub fn to_upper_case(v: &str) -> (r: String)
    ensures
        r@ == uppercased(v@),
{
    to_uppercase(v)
}

} // verus!
