use crate::errors::{reported, ExpressionError};
use crate::expression::{compile, fault_message, found, parsed, variable_of, Rcvar};
use crate::numbers::first_fault;
use crate::json::{json_from_serde, json_to_serde, number_to_serde, text_of, text_or_empty};
use crate::json::{valid, Json, JsonView};
use crate::text::{decimal, decimal_string, lowercased, str_eq, to_lowercase};
use crate::text::{trim, trim_start_matches, trimmed, without_leading};
use crate::toml_value::{ordered_toml, to_ordored_toml_value, TomlValue, TomlView};
use vstd::prelude::*;
use vstd::string::{StringExecFns, StringSliceAdditionalSpecFns};

verus! {

#[verifier::external_type_specification]
#[verifier::external_body]
pub struct ExSerdeJsonError(serde_json::Error);

#[verifier::external_type_specification]
#[verifier::external_body]
pub struct ExYamlError(serde_yaml::Error);

#[verifier::external_type_specification]
#[verifier::external_body]
pub struct ExTomlReadError(toml::de::Error);

#[verifier::external_type_specification]
#[verifier::external_body]
pub struct ExTomlWriteError(toml::ser::Error);

#[verifier::external_type_specification]
#[verifier::external_body]
pub struct ExTomlOutside(toml::Value);

/// Why a query or the choice of a data format failed.
#[derive(Debug)]
#[allow(inconsistent_fields)]
pub enum JsonError {
    /// The expression is no expression, or its search failed.
    JsonQueryFailure { expression: String, source: ExpressionError },
    /// What the search found cannot be told as JSON.
    ToJsonValueError { input: String, source: serde_json::Error },
    /// No data format has this name.
    DataFormatUnknown { format: String },
}

/// Why a helper failed.
#[derive(Debug)]
pub enum HelperError {
    /// An argument is missing; the text says which.
    Other(String),
    /// The helper of this name lacks the argument at this place.
    ParamNotFoundForIndex(&'static str, usize),
    /// A query failed, or a data format is unknown.
    Nested(JsonError),
    /// A text is no JSON, or a document cannot be written as JSON.
    Json(serde_json::Error),
    /// A text is no YAML, or a document cannot be written as YAML.
    Yaml(serde_yaml::Error),
    /// A text is no TOML.
    TomlRead(toml::de::Error),
    /// A document cannot be written as TOML.
    TomlWrite(toml::ser::Error),
}

/// The formats in which a document can be read and written.
#[derive(Clone, Copy, Debug, PartialEq, Eq, Structural)]
pub enum DataFormat {
    Json,
    JsonPretty,
    Yaml,
    Toml,
    TomlPretty,
}

/// The document that `serde_json::from_str` reads from a text, if it reads one.
pub uninterp spec fn json_parsed(text: Seq<char>) -> Option<JsonView>;

/// The document that `serde_yaml::from_str` reads from a text, if it reads one.
pub uninterp spec fn yaml_parsed(text: Seq<char>) -> Option<JsonView>;

/// The document that `toml::from_str` reads from a text, if it reads one.
pub uninterp spec fn toml_parsed(text: Seq<char>) -> Option<JsonView>;

/// The text that `serde_json::to_string` writes for a document, if it writes one.
pub uninterp spec fn json_text(v: JsonView) -> Option<Seq<char>>;

/// The text that `serde_json::to_string_pretty` writes for a document.
pub uninterp spec fn json_pretty_text(v: JsonView) -> Option<Seq<char>>;

/// The text that `serde_yaml::to_string` writes for a document.
pub uninterp spec fn yaml_text(v: JsonView) -> Option<Seq<char>>;

/// The text that `toml::to_string` writes for a value that may be missing.
pub uninterp spec fn toml_text(v: Option<TomlView>) -> Option<Seq<char>>;

/// The text that `toml::to_string_pretty` writes for a value that may be missing.
pub uninterp spec fn toml_pretty_text(v: Option<TomlView>) -> Option<Seq<char>>;

/// `serde_json::from_str`, read as a `serde_json::Value`: the document that the
/// text holds, the same for the same text, or the parser's error.
#[verifier::external_body]
fn parse_json(text: &str) -> (r: Result<Json, serde_json::Error>)
    ensures
        match r {
            Ok(v) => json_parsed(text@) == Some(v@) && valid(v@),
            Err(_) => json_parsed(text@) is None,
        },
{
    serde_json::from_str::<serde_json::Value>(text).map(|v| json_from_serde(&v))
}

/// `serde_yaml::from_str`, read as a `serde_json::Value`: the document that the
/// text holds, the same for the same text, or the parser's error.
#[verifier::external_body]
fn parse_yaml(text: &str) -> (r: Result<Json, serde_yaml::Error>)
    ensures
        match r {
            Ok(v) => yaml_parsed(text@) == Some(v@) && valid(v@),
            Err(_) => yaml_parsed(text@) is None,
        },
{
    serde_yaml::from_str::<serde_json::Value>(text).map(|v| json_from_serde(&v))
}

/// `toml::from_str`, read as a `serde_json::Value`: the document that the text
/// holds, the same for the same text, or the parser's error.
#[verifier::external_body]
fn parse_toml(text: &str) -> (r: Result<Json, toml::de::Error>)
    ensures
        match r {
            Ok(v) => toml_parsed(text@) == Some(v@) && valid(v@),
            Err(_) => toml_parsed(text@) is None,
        },
{
    toml::from_str::<serde_json::Value>(text).map(|v| json_from_serde(&v))
}

/// `serde_json::to_string` on the document as a `serde_json::Value`: its text
/// on one line, the same for the same document, or the writer's error.
#[verifier::external_body]
fn write_json(v: &Json) -> (r: Result<String, serde_json::Error>)
    ensures
        match r {
            Ok(s) => json_text(v@) == Some(s@),
            Err(_) => json_text(v@) is None,
        },
{
    serde_json::to_string(&json_to_serde(v))
}

/// `serde_json::to_string_pretty` on the document as a `serde_json::Value`: its
/// indented text, the same for the same document, or the writer's error.
#[verifier::external_body]
fn write_json_pretty(v: &Json) -> (r: Result<String, serde_json::Error>)
    ensures
        match r {
            Ok(s) => json_pretty_text(v@) == Some(s@),
            Err(_) => json_pretty_text(v@) is None,
        },
{
    serde_json::to_string_pretty(&json_to_serde(v))
}

/// `serde_yaml::to_string` on the document as a `serde_json::Value`: its YAML
/// text, the same for the same document, or the writer's error.
#[verifier::external_body]
fn write_yaml(v: &Json) -> (r: Result<String, serde_yaml::Error>)
    ensures
        match r {
            Ok(s) => yaml_text(v@) == Some(s@),
            Err(_) => yaml_text(v@) is None,
        },
{
    serde_yaml::to_string(&json_to_serde(v))
}

/// Rewrites a [`TomlValue`] as a `toml::Value`; a float takes the value that
/// `serde_json::Number::as_f64` gives for its number, and the members of a
/// table are inserted in their order. Nothing is stated of the result.
#[verifier::external_body]
fn toml_to_outside(v: &TomlValue) -> (r: toml::Value) {
    match v {
        TomlValue::String(s) => toml::Value::String(s.clone()),
        TomlValue::Integer(i) => toml::Value::Integer(*i),
        TomlValue::Float(n) => toml::Value::Float(number_to_serde(n).as_f64().unwrap_or_default()),
        TomlValue::Boolean(b) => toml::Value::Boolean(*b),
        TomlValue::Array(a) => toml::Value::Array(a.iter().map(toml_to_outside).collect()),
        TomlValue::Table(t) => toml::Value::Table(
            t.iter().map(|(k, x)| (k.clone(), toml_to_outside(x))).collect(),
        ),
    }
}

/// `toml::to_string` on the value as an `Option<toml::Value>`: its TOML text,
/// the same for the same value, or the writer's error.
#[verifier::external_body]
fn write_toml(v: &Option<TomlValue>) -> (r: Result<String, toml::ser::Error>)
    ensures
        match r {
            Ok(s) => toml_text(toml_view(*v)) == Some(s@),
            Err(_) => toml_text(toml_view(*v)) is None,
        },
{
    toml::to_string(&v.as_ref().map(toml_to_outside))
}

/// `toml::to_string_pretty` on the value as an `Option<toml::Value>`: its TOML
/// text, the same for the same value, or the writer's error.
#[verifier::external_body]
fn write_toml_pretty(v: &Option<TomlValue>) -> (r: Result<String, toml::ser::Error>)
    ensures
        match r {
            Ok(s) => toml_pretty_text(toml_view(*v)) == Some(s@),
            Err(_) => toml_pretty_text(toml_view(*v)) is None,
        },
{
    toml::to_string_pretty(&v.as_ref().map(toml_to_outside))
}

/// The document that `serde_json::to_value` makes of a `jmespath::Variable`,
/// if it makes one.
pub uninterp spec fn json_of(v: jmespath::Variable) -> Option<JsonView>;

/// What `Debug` prints for a `jmespath::Variable`.
pub uninterp spec fn debug_of(v: jmespath::Variable) -> Seq<char>;

/// `serde_json::to_value` on what a search found, rewritten as a [`Json`]: the
/// same document for the same variable, which [`json_of`] names, or the
/// error of the conversion.
#[verifier::external_body]
fn variable_to_json(v: &Rcvar) -> (r: Result<Json, serde_json::Error>)
    ensures
        match r {
            Ok(j) => json_of(**v) == Some(j@) && valid(j@),
            Err(_) => json_of(**v) is None,
        },
{
    serde_json::to_value(v.as_ref()).map(|x| json_from_serde(&x))
}

/// What `Debug` prints for what a search found, which [`debug_of`] names.
#[verifier::external_body]
fn debug_text(v: &Rcvar) -> (r: String)
    ensures
        r@ == debug_of(**v),
{
    format!("{:?}", v)
}

/// Turns a result that may hold nothing inside out: an error stays an error,
/// a value stays a value, and nothing stays nothing.
pub fn to_opt_res<T, E>(v: Result<Option<T>, E>) -> (r: Option<Result<T, E>>)
    ensures
        r == (match v {
            Err(e) => Some(Err(e)),
            Ok(Some(x)) => Some(Ok(x)),
            Ok(None) => None,
        }),
{
    match v {
        Err(e) => Some(Err(e)),
        Ok(Some(x)) => Some(Ok(x)),
        Ok(None) => None,
    }
}

/// The view of a value that may be missing.
pub open spec fn toml_view(v: Option<TomlValue>) -> Option<TomlView> {
    match v {
        Some(t) => Some(t@),
        None => None,
    }
}

/// The format that a name in lower case stands for.
pub open spec fn format_named(name: Seq<char>) -> Option<DataFormat> {
    if name == "json"@ {
        Some(DataFormat::Json)
    } else if name == "json_pretty"@ {
        Some(DataFormat::JsonPretty)
    } else if name == "yaml"@ {
        Some(DataFormat::Yaml)
    } else if name == "toml"@ {
        Some(DataFormat::Toml)
    } else if name == "toml_pretty"@ {
        Some(DataFormat::TomlPretty)
    } else {
        None
    }
}

/// The mark that starts a YAML document.
pub open spec fn yaml_mark() -> Seq<char> {
    "---\n"@
}

impl DataFormat {
    /// The format that a name in lower case stands for.
    pub fn from_lowercase(name: &str) -> (r: Option<DataFormat>)
        ensures
            r == format_named(name@),
    {
        if str_eq(name, "json") {
            Some(DataFormat::Json)
        } else if str_eq(name, "json_pretty") {
            Some(DataFormat::JsonPretty)
        } else if str_eq(name, "yaml") {
            Some(DataFormat::Yaml)
        } else if str_eq(name, "toml") {
            Some(DataFormat::Toml)
        } else if str_eq(name, "toml_pretty") {
            Some(DataFormat::TomlPretty)
        } else {
            None
        }
    }

    /// The format of a name, whatever the case of its letters. An unknown name
    /// comes back in the error as it was given.
    pub fn from_str(s: &str) -> (r: Result<DataFormat, JsonError>)
        ensures
            match r {
                Ok(f) => format_named(lowercased(s@)) == Some(f),
                Err(e) => format_named(lowercased(s@)) is None && e is DataFormatUnknown
                    && e->DataFormatUnknown_format@ == s@,
            },
    {
        let lower = to_lowercase(s);
        match DataFormat::from_lowercase(lower.as_str()) {
            Some(f) => Ok(f),
            None => Err(JsonError::DataFormatUnknown { format: String::from_str(s) }),
        }
    }

    /// The document that a text holds in this format. The empty text holds the
    /// empty string in every format.
    pub open spec fn read(self, text: Seq<char>) -> Option<JsonView> {
        if text.len() == 0 {
            Some(JsonView::String(Seq::empty()))
        } else {
            match self {
                DataFormat::Json | DataFormat::JsonPretty => json_parsed(text),
                DataFormat::Yaml => yaml_parsed(text),
                DataFormat::Toml | DataFormat::TomlPretty => toml_parsed(text),
            }
        }
    }

    /// The text of a document in this format. `null` and the empty string are
    /// written as the empty text in every format; YAML comes without the mark
    /// of a document's start; TOML is written from [`ordered_toml`].
    pub open spec fn written(self, v: JsonView) -> Option<Seq<char>> {
        if v is Null || v == JsonView::String(Seq::empty()) {
            Some(Seq::empty())
        } else {
            match self {
                DataFormat::Json => json_text(v),
                DataFormat::JsonPretty => json_pretty_text(v),
                DataFormat::Yaml => match yaml_text(v) {
                    Some(s) => Some(without_leading(s, yaml_mark())),
                    None => None,
                },
                DataFormat::Toml => toml_text(ordered_toml(v)),
                DataFormat::TomlPretty => toml_pretty_text(ordered_toml(v)),
            }
        }
    }

    /// Reads a document from a text in this format.
    pub fn read_string(&self, data: &str) -> (r: Result<Json, HelperError>)
        ensures
            match r {
                Ok(v) => self.read(data@) == Some(v@) && valid(v@),
                Err(e) => self.read(data@) is None && match *self {
                    DataFormat::Json | DataFormat::JsonPretty => e is Json,
                    DataFormat::Yaml => e is Yaml,
                    DataFormat::Toml | DataFormat::TomlPretty => e is TomlRead,
                },
            },
    {
        if data.is_empty() {
            let empty = String::new();
            return Ok(Json::String(empty));
        }
        match self {
            DataFormat::Json | DataFormat::JsonPretty => match parse_json(data) {
                Ok(v) => Ok(v),
                Err(e) => Err(HelperError::Json(e)),
            },
            DataFormat::Yaml => match parse_yaml(data) {
                Ok(v) => Ok(v),
                Err(e) => Err(HelperError::Yaml(e)),
            },
            DataFormat::Toml | DataFormat::TomlPretty => match parse_toml(data) {
                Ok(v) => Ok(v),
                Err(e) => Err(HelperError::TomlRead(e)),
            },
        }
    }

    /// Writes a document as a text in this format.
    pub fn write_string(&self, data: &Json) -> (r: Result<String, HelperError>)
        ensures
            match r {
                Ok(s) => self.written(data@) == Some(s@),
                Err(e) => self.written(data@) is None && match *self {
                    DataFormat::Json | DataFormat::JsonPretty => e is Json,
                    DataFormat::Yaml => e is Yaml,
                    DataFormat::Toml | DataFormat::TomlPretty => e is TomlWrite,
                },
            },
    {
        match data {
            Json::Null => {
                return Ok(String::new());
            },
            Json::String(c) => {
                if c.as_str().is_empty() {
                    assert(data@ == JsonView::String(Seq::empty())) by {
                        assert(c@ =~= Seq::<char>::empty());
                    }
                    return Ok(String::new());
                }
                assert(data@ != JsonView::String(Seq::empty()));
            },
            _ => {},
        }
        match self {
            DataFormat::Json => match write_json(data) {
                Ok(s) => Ok(s),
                Err(e) => Err(HelperError::Json(e)),
            },
            DataFormat::JsonPretty => match write_json_pretty(data) {
                Ok(s) => Ok(s),
                Err(e) => Err(HelperError::Json(e)),
            },
            DataFormat::Yaml => match write_yaml(data) {
                Ok(s) => Ok(String::from_str(trim_start_matches(s.as_str(), "---\n"))),
                Err(e) => Err(HelperError::Yaml(e)),
            },
            DataFormat::Toml => {
                let data_toml = to_ordored_toml_value(data);
                match write_toml(&data_toml) {
                    Ok(s) => Ok(s),
                    Err(e) => Err(HelperError::TomlWrite(e)),
                }
            },
            DataFormat::TomlPretty => {
                let data_toml = to_ordored_toml_value(data);
                match write_toml_pretty(&data_toml) {
                    Ok(s) => Ok(s),
                    Err(e) => Err(HelperError::TomlWrite(e)),
                }
            },
        }
    }
}

/// What the search of a document with the tree of a text gives: the error of
/// the parser where the text has no tree, and else what the built-in search
/// finds in the variable of the document, or its error.
pub open spec fn searched(expr: Seq<char>, data: JsonView) -> Result<
    jmespath::Variable,
    ExpressionError,
> {
    match parsed(expr) {
        Ok(tree) => found(expr, tree, variable_of(data)),
        Err(e) => Err(e),
    }
}

/// The document that a query gives: there is one where the numbers of the
/// expression are allowed, the search succeeds, and what it found can be told
/// as JSON.
pub open spec fn query_found(expr: Seq<char>, data: JsonView) -> Option<JsonView> {
    if first_fault(vstd::utf8::encode_utf8(expr)) is Some {
        None
    } else {
        match searched(expr, data) {
            Ok(v) => json_of(v),
            Err(_) => None,
        }
    }
}

/// Whether an error is the one that a query fails with: for a number of the
/// expression that is not allowed, `JsonQueryFailure` with the error of
/// parsing that names the fault at its place; for an error of the parser or of
/// the search, `JsonQueryFailure` with that error; for what was found and
/// cannot be told as JSON, `ToJsonValueError` with what `Debug` prints for it.
/// Each `JsonQueryFailure` holds the expression as it was given.
pub open spec fn is_query_failure(expr: Seq<char>, data: JsonView, e: JsonError) -> bool {
    match first_fault(vstd::utf8::encode_utf8(expr)) {
        Some((offset, kind)) => e is JsonQueryFailure && e->JsonQueryFailure_expression@ == expr
            && e->JsonQueryFailure_source.offset == offset
            && e->JsonQueryFailure_source.expression@ == expr
            && e->JsonQueryFailure_source.reason is Parse
            && e->JsonQueryFailure_source.reason->Parse_0@ == fault_message(kind),
        None => match searched(expr, data) {
            Err(s) => e is JsonQueryFailure && e->JsonQueryFailure_expression@ == expr
                && e->JsonQueryFailure_source == reported(s),
            Ok(v) => e is ToJsonValueError && e->ToJsonValueError_input@ == debug_of(v),
        },
    }
}

/// Searches a document with an expression and gives what was found as a
/// document.
///
/// A number of the expression that is not allowed, an error of the parser and
/// an error of the search each give `JsonQueryFailure` with the expression as
/// it was given and that error as the source; never a value in its place. What
/// was found and cannot be told as JSON gives `ToJsonValueError` with what
/// `Debug` prints for it.
pub fn json_query(expr: &str, data: &Json) -> (r: Result<Json, JsonError>)
    ensures
        match r {
            Ok(v) => query_found(expr@, data@) == Some(v@) && valid(v@),
            Err(_) => query_found(expr@, data@) is None,
        },
        r is Err ==> is_query_failure(expr@, data@, r->Err_0),
{
    let found = match compile(expr) {
        Ok(e) => e.search(data),
        Err(source) => Err(source),
    };
    match found {
        Err(source) => Err(
            JsonError::JsonQueryFailure { expression: String::from_str(expr), source },
        ),
        Ok(res) => match variable_to_json(&res) {
            Ok(v) => Ok(v),
            Err(source) => Err(JsonError::ToJsonValueError { input: debug_text(&res), source }),
        },
    }
}

/// The name of the format that a `format` argument asks for: its text where it
/// is a string, and `json` else.
pub open spec fn format_name(format: Option<&Json>) -> Seq<char> {
    match text_of(format) {
        Some(s) => s,
        None => "json"@,
    }
}

/// The data format that a helper's `format` argument asks for.
pub fn find_data_format(format: Option<&Json>) -> (r: Result<DataFormat, HelperError>)
    ensures
        match r {
            Ok(f) => format_named(lowercased(format_name(format))) == Some(f),
            Err(e) => format_named(lowercased(format_name(format))) is None && e is Nested
                && e->Nested_0 is DataFormatUnknown
                && e->Nested_0->DataFormatUnknown_format@ == format_name(format),
        },
{
    let name = match format {
        Some(v) => match v.as_str() {
            Some(s) => s,
            None => "json",
        },
        None => "json",
    };
    match DataFormat::from_str(name) {
        Ok(f) => Ok(f),
        Err(e) => Err(HelperError::Nested(e)),
    }
}

/// What is said of a string argument that is missing at place `pos`.
pub open spec fn missing_string(pos: nat) -> Seq<char> {
    "param "@ + decimal(pos) + " (the string) not found"@
}

/// The text of the argument at place `pos`: the argument's text where it is a
/// string, the empty text where it is anything else, and an error where there
/// is no argument.
pub fn find_str_param(pos: usize, param: Option<&Json>) -> (r: Result<String, HelperError>)
    ensures
        match param {
            Some(v) => r is Ok && r->Ok_0@ == (if v@ is String {
                v@->String_0
            } else {
                Seq::empty()
            }),
            None => r is Err && r->Err_0 is Other && r->Err_0->Other_0@ == missing_string(
                pos as nat,
            ),
        },
{
    match param {
        None => {
            let mut msg = String::from_str("param ");
            let number = decimal_string(pos);
            msg.append(number.as_str());
            msg.append(" (the string) not found");
            Err(HelperError::Other(msg))
        },
        Some(v) => match v.as_str() {
            Some(s) => Ok(String::from_str(s)),
            None => {
                let empty = String::new();
                Ok(empty)
            },
        },
    }
}

/// The text in which the result of a query is given: an array or an object
/// in the format asked for, any other document as JSON without the white space
/// around it.
pub open spec fn query_text(format: DataFormat, v: JsonView) -> Option<Seq<char>> {
    if v is Array || v is Object {
        format.written(v)
    } else {
        match DataFormat::Json.written(v) {
            Some(s) => Some(trimmed(s)),
            None => None,
        }
    }
}

/// Writes the result of a query as [`query_text`] says.
pub fn write_query_result(format: DataFormat, v: &Json) -> (r: Result<String, HelperError>)
    ensures
        match r {
            Ok(s) => query_text(format, v@) == Some(s@),
            Err(_) => query_text(format, v@) is None,
        },
{
    if v.is_array() || v.is_object() {
        format.write_string(v)
    } else {
        match DataFormat::Json.write_string(v) {
            Ok(s) => Ok(String::from_str(trim(s.as_str()))),
            Err(e) => Err(e),
        }
    }
}

/// What is said where the document to write is missing.
pub open spec fn missing_json() -> Seq<char> {
    "param 0 (the json) not found"@
}

/// The helper that reads a document from a text.
#[allow(non_camel_case_types)]
pub struct str_to_json_fct;

impl str_to_json_fct {
    /// Reads the document that the text of `param` holds in the format that
    /// `format` names. An argument that is no string counts as the empty
    /// text. A missing argument is reported before an unknown format.
    pub fn call_inner(&self, param: Option<&Json>, format: Option<&Json>) -> (r: Result<
        Json,
        HelperError,
    >)
        ensures
            match param {
                None => r is Err && r->Err_0 is Other && r->Err_0->Other_0@ == missing_string(0),
                Some(_) => match format_named(lowercased(format_name(format))) {
                    None => r is Err && r->Err_0 is Nested && r->Err_0->Nested_0
                        is DataFormatUnknown
                        && r->Err_0->Nested_0->DataFormatUnknown_format@ == format_name(format),
                    Some(f) => match r {
                        Ok(j) => f.read(text_or_empty(param)) == Some(j@) && valid(j@),
                        Err(_) => f.read(text_or_empty(param)) is None,
                    },
                },
            },
    {
        let data = match find_str_param(0, param) {
            Ok(d) => d,
            Err(e) => {
                return Err(e);
            },
        };
        let format = match find_data_format(format) {
            Ok(f) => f,
            Err(e) => {
                return Err(e);
            },
        };
        format.read_string(data.as_str())
    }
}

/// The helper that writes a document as a text.
#[allow(non_camel_case_types)]
pub struct json_to_str_fct;

impl json_to_str_fct {
    /// Writes the document `param` in the format that `format` names, and
    /// gives the text as a JSON string. An unknown format is reported before
    /// a missing document.
    pub fn call_inner(&self, param: Option<&Json>, format: Option<&Json>) -> (r: Result<
        Json,
        HelperError,
    >)
        ensures
            match format_named(lowercased(format_name(format))) {
                None => r is Err && r->Err_0 is Nested && r->Err_0->Nested_0 is DataFormatUnknown
                    && r->Err_0->Nested_0->DataFormatUnknown_format@ == format_name(format),
                Some(f) => match param {
                    None => r is Err && r->Err_0 is Other && r->Err_0->Other_0@ == missing_json(),
                    Some(v) => match r {
                        Ok(j) => f.written(v@) == Some(j@->String_0) && j@ is String,
                        Err(_) => f.written(v@) is None,
                    },
                },
            },
    {
        let format = match find_data_format(format) {
            Ok(f) => f,
            Err(e) => {
                return Err(e);
            },
        };
        let data = match param {
            Some(v) => v,
            None => {
                return Err(HelperError::Other(String::from_str("param 0 (the json) not found")));
            },
        };
        match format.write_string(data) {
            Ok(s) => Ok(Json::String(s)),
            Err(e) => Err(e),
        }
    }
}

/// The helper that searches a document given as a text.
#[allow(non_camel_case_types)]
pub struct json_str_query_fct;

impl json_str_query_fct {
    /// Reads the document that the text of `data` holds in the format that
    /// `format` names, searches it with the expression of `expr`, and gives
    /// what was found as [`write_query_result`] writes it, as a JSON string.
    /// An unknown format is reported first, then a missing expression, then a
    /// missing text, then a text that cannot be read.
    pub fn call_inner(
        &self,
        expr: Option<&Json>,
        data: Option<&Json>,
        format: Option<&Json>,
    ) -> (r: Result<Json, HelperError>)
        ensures
            r is Ok ==> r->Ok_0@ is String,
            match format_named(lowercased(format_name(format))) {
                None => r is Err && r->Err_0 is Nested && r->Err_0->Nested_0 is DataFormatUnknown
                    && r->Err_0->Nested_0->DataFormatUnknown_format@ == format_name(format),
                Some(f) => if expr is None {
                    r is Err && r->Err_0 is Other && r->Err_0->Other_0@ == missing_string(0)
                } else if data is None {
                    r is Err && r->Err_0 is Other && r->Err_0->Other_0@ == missing_string(1)
                } else {
                    match f.read(text_or_empty(data)) {
                        None => r is Err && !(r->Err_0 is Other) && !(r->Err_0 is Nested),
                        Some(document) => match query_found(text_or_empty(expr), document) {
                            None => r is Err && r->Err_0 is Nested && is_query_failure(
                                text_or_empty(expr),
                                document,
                                r->Err_0->Nested_0,
                            ),
                            Some(v) => match r {
                                Ok(j) => query_text(f, v) == Some(j@->String_0),
                                Err(_) => query_text(f, v) is None,
                            },
                        },
                    }
                },
            },
    {
        let format = match find_data_format(format) {
            Ok(f) => f,
            Err(e) => {
                return Err(e);
            },
        };
        let expr = match find_str_param(0, expr) {
            Ok(s) => s,
            Err(e) => {
                return Err(e);
            },
        };
        let data_str = match find_str_param(1, data) {
            Ok(s) => s,
            Err(e) => {
                return Err(e);
            },
        };
        let data = match format.read_string(data_str.as_str()) {
            Ok(d) => d,
            Err(e) => {
                return Err(e);
            },
        };
        match json_query(expr.as_str(), &data) {
            Err(e) => Err(HelperError::Nested(e)),
            Ok(v) => match write_query_result(format, &v) {
                Ok(s) => Ok(Json::String(s)),
                Err(e) => Err(e),
            },
        }
    }
}

/// What the block `from_json` writes for a content: the document that the
/// content holds as JSON, in the format asked for.
pub open spec fn from_json_text(format: DataFormat, content: Seq<char>) -> Option<Seq<char>> {
    match DataFormat::Json.read(content) {
        Some(d) => format.written(d),
        None => None,
    }
}

/// The block `from_json`: reads its content as JSON and writes it in `format`.
pub fn from_json_block(format: DataFormat, content: &str) -> (r: Result<String, HelperError>)
    ensures
        match r {
            Ok(s) => from_json_text(format, content@) == Some(s@),
            Err(_) => from_json_text(format, content@) is None,
        },
{
    match DataFormat::Json.read_string(content) {
        Ok(data) => format.write_string(&data),
        Err(e) => Err(e),
    }
}

/// What the block `to_json` writes for a content: the document that the
/// content holds in the format asked for, as indented JSON.
pub open spec fn to_json_text(format: DataFormat, content: Seq<char>) -> Option<Seq<char>> {
    match format.read(content) {
        Some(d) => DataFormat::JsonPretty.written(d),
        None => None,
    }
}

/// The block `to_json`: reads its content in `format` and writes it as
/// indented JSON.
pub fn to_json_block(format: DataFormat, content: &str) -> (r: Result<String, HelperError>)
    ensures
        match r {
            Ok(s) => to_json_text(format, content@) == Some(s@),
            Err(_) => to_json_text(format, content@) is None,
        },
{
    match format.read_string(content) {
        Ok(data) => DataFormat::JsonPretty.write_string(&data),
        Err(e) => Err(e),
    }
}

} // verus!
