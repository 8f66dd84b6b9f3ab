use handlebars::{
    no_escape, Context, Handlebars, Helper, HelperDef, HelperResult, Output, RenderContext,
    RenderError, RenderErrorReason, Renderable, ScopedJson,
};
use handlebars_misc_helpers::assign_helpers::{assign_fct, set_fct};
use handlebars_misc_helpers::json::{Json, JsonNumber};
use handlebars_misc_helpers::json_helpers::{
    find_data_format, from_json_block, json_query, json_str_query_fct, json_to_str_fct,
    str_to_json_fct, to_json_block, DataFormat, HelperError,
};
use handlebars_misc_helpers::jsonnet_helpers::jsonnet_block;
use handlebars_misc_helpers::outputs::StringOutput;
use handlebars_misc_helpers::regex_helpers::{regex_captures_fct, regex_is_match_fct};
use handlebars_misc_helpers::region_helpers::ReplaceSectionHelper;
use handlebars_misc_helpers::string_helpers::{
    first_non_empty_fct, quote, to_camel_case, to_class_case, to_kebab_case, to_lower_case,
    to_pascal_case, to_plural, to_screaming_snake_case, to_sentence_case, to_singular,
    to_snake_case, to_table_case, to_title_case, to_train_case, to_upper_case, unquote,
};
use handlebars_misc_helpers::text::{replace, trim, trim_end, trim_start};
use handlebars_misc_helpers::toml_value::{sort_toml_map, TomlValue};
use handlebars_misc_helpers::truth_helpers::{eq, ne};
use handlebars_misc_helpers::uuid_helpers::{uuid_new_v4_fct, uuid_new_v7_fct};
use serde_json::Value;
use std::collections::HashMap;
use std::error::Error;
use std::fmt;
use unindent::unindent;

fn to_json(v: &Value) -> Json {
    match v {
        Value::Null => Json::Null,
        Value::Bool(b) => Json::Bool(*b),
        Value::Number(n) => Json::Number(if let Some(u) = n.as_u64() {
            JsonNumber::PosInt(u)
        } else if let Some(i) = n.as_i64() {
            JsonNumber::NegInt(i)
        } else {
            JsonNumber::Float(n.clone())
        }),
        Value::String(s) => Json::String(s.clone()),
        Value::Array(a) => Json::Array(a.iter().map(to_json).collect()),
        Value::Object(o) => Json::Object(o.iter().map(|(k, x)| (k.clone(), to_json(x))).collect()),
    }
}

fn to_value(j: &Json) -> Value {
    match j {
        Json::Null => Value::Null,
        Json::Bool(b) => Value::Bool(*b),
        Json::Number(JsonNumber::PosInt(u)) => Value::Number((*u).into()),
        Json::Number(JsonNumber::NegInt(i)) => Value::Number((*i).into()),
        Json::Number(JsonNumber::Float(n)) => Value::Number(n.clone()),
        Json::String(s) => Value::String(s.clone()),
        Json::Array(a) => Value::Array(a.iter().map(to_value).collect()),
        Json::Object(o) => Value::Object(o.iter().map(|(k, x)| (k.clone(), to_value(x))).collect()),
    }
}

#[derive(Debug)]
struct Failure(String);

impl fmt::Display for Failure {
    fn fmt(&self, f: &mut fmt::Formatter) -> fmt::Result {
        f.write_str(&self.0)
    }
}

impl Error for Failure {}

fn nested<E: fmt::Debug>(e: E) -> RenderError {
    RenderErrorReason::NestedError(Box::new(Failure(format!("{:?}", e)))).into()
}

fn render_error(e: HelperError) -> RenderError {
    match e {
        HelperError::Other(s) => RenderErrorReason::Other(s).into(),
        HelperError::ParamNotFoundForIndex(h, i) => {
            RenderErrorReason::ParamNotFoundForIndex(h, i).into()
        }
        HelperError::Nested(e) => nested(e),
        HelperError::Json(e) => RenderErrorReason::from(e).into(),
        HelperError::Yaml(e) => nested(e),
        HelperError::TomlRead(e) => nested(e),
        HelperError::TomlWrite(e) => nested(e),
    }
}

fn param(h: &Helper, i: usize) -> Option<Json> {
    h.param(i).map(|p| to_json(p.value()))
}

fn hash(h: &Helper, key: &str) -> Option<Json> {
    h.hash_get(key).map(|p| to_json(p.value()))
}

fn str_param(h: &Helper, helper: &'static str, i: usize) -> Result<String, RenderError> {
    h.param(i)
        .and_then(|p| p.value().as_str())
        .map(|s| s.to_owned())
        .ok_or_else(|| RenderErrorReason::ParamNotFoundForIndex(helper, i).into())
}

struct ValueHelper(fn(&Helper) -> Result<Json, RenderError>);

impl HelperDef for ValueHelper {
    fn call_inner<'reg: 'rc, 'rc>(
        &self,
        h: &Helper<'rc>,
        _: &'reg Handlebars<'reg>,
        _: &'rc Context,
        _: &mut RenderContext<'reg, 'rc>,
    ) -> Result<ScopedJson<'rc>, RenderError> {
        (self.0)(h).map(|j| ScopedJson::Derived(to_value(&j)))
    }
}

struct Collected(StringOutput);

impl Output for Collected {
    fn write(&mut self, seg: &str) -> Result<(), std::io::Error> {
        self.0.write(seg);
        Ok(())
    }
}

fn render_content<'reg: 'rc, 'rc>(
    h: &Helper<'rc>,
    r: &'reg Handlebars<'reg>,
    ctx: &'rc Context,
    rc: &mut RenderContext<'reg, 'rc>,
) -> Result<String, RenderError> {
    let mut content = Collected(StringOutput::default());
    h.template()
        .map(|t| t.render(r, ctx, rc, &mut content))
        .unwrap_or(Ok(()))?;
    Ok(content.0.into_string()?)
}

struct AssignHelper;

impl HelperDef for AssignHelper {
    fn call<'reg: 'rc, 'rc>(
        &self,
        h: &Helper<'rc>,
        _: &'reg Handlebars<'reg>,
        ctx: &'rc Context,
        rc: &mut RenderContext<'reg, 'rc>,
        _: &mut dyn Output,
    ) -> HelperResult {
        let mut ctx = rc.context().as_deref().unwrap_or(ctx).clone();
        let data = to_json(ctx.data());
        let next = assign_fct(&data, param(h, 0).as_ref(), param(h, 1).as_ref())
            .map_err(render_error)?;
        *ctx.data_mut() = to_value(&next);
        rc.set_context(ctx);
        Ok(())
    }
}

struct SetHelper;

impl HelperDef for SetHelper {
    fn call<'reg: 'rc, 'rc>(
        &self,
        h: &Helper<'rc>,
        _: &'reg Handlebars<'reg>,
        ctx: &'rc Context,
        rc: &mut RenderContext<'reg, 'rc>,
        _: &mut dyn Output,
    ) -> HelperResult {
        let mut ctx = rc.context().as_deref().unwrap_or(ctx).clone();
        let data = to_json(ctx.data());
        let entries: Vec<(String, Json)> = h
            .hash()
            .iter()
            .map(|(k, v)| (k.to_string(), to_json(v.value())))
            .collect();
        *ctx.data_mut() = to_value(&set_fct(&data, &entries));
        rc.set_context(ctx);
        Ok(())
    }
}

struct FromJsonHelper;

impl HelperDef for FromJsonHelper {
    fn call<'reg: 'rc, 'rc>(
        &self,
        h: &Helper<'rc>,
        r: &'reg Handlebars<'reg>,
        ctx: &'rc Context,
        rc: &mut RenderContext<'reg, 'rc>,
        out: &mut dyn Output,
    ) -> HelperResult {
        let format = find_data_format(hash(h, "format").as_ref()).map_err(render_error)?;
        let content = render_content(h, r, ctx, rc)?;
        let res = from_json_block(format, &content).map_err(render_error)?;
        out.write(&res).map_err(nested)
    }
}

struct ToJsonHelper;

impl HelperDef for ToJsonHelper {
    fn call<'reg: 'rc, 'rc>(
        &self,
        h: &Helper<'rc>,
        r: &'reg Handlebars<'reg>,
        ctx: &'rc Context,
        rc: &mut RenderContext<'reg, 'rc>,
        out: &mut dyn Output,
    ) -> HelperResult {
        let format = find_data_format(hash(h, "format").as_ref()).map_err(render_error)?;
        let content = render_content(h, r, ctx, rc)?;
        let res = to_json_block(format, &content).map_err(render_error)?;
        out.write(&res).map_err(RenderError::from)
    }
}

struct JsonnetHelper;

impl HelperDef for JsonnetHelper {
    fn call<'reg: 'rc, 'rc>(
        &self,
        h: &Helper<'rc>,
        r: &'reg Handlebars<'reg>,
        ctx: &'rc Context,
        rc: &mut RenderContext<'reg, 'rc>,
        out: &mut dyn Output,
    ) -> HelperResult {
        let input = render_content(h, r, ctx, rc)?;
        let res = jsonnet_block(input, hash(h, "string_output").as_ref()).map_err(nested)?;
        out.write(&res).map_err(nested)
    }
}

struct SectionHelper;

impl HelperDef for SectionHelper {
    fn call<'reg: 'rc, 'rc>(
        &self,
        h: &Helper<'rc>,
        r: &'reg Handlebars<'reg>,
        ctx: &'rc Context,
        rc: &mut RenderContext<'reg, 'rc>,
        out: &mut dyn Output,
    ) -> HelperResult {
        let frame = ReplaceSectionHelper.call(
            h.template().is_some(),
            param(h, 0).as_ref(),
            hash(h, "begin").as_ref(),
            hash(h, "end").as_ref(),
            hash(h, "remove_boundaries").as_ref(),
        );
        if let (Some(frame), Some(tmpl)) = (frame, h.template()) {
            out.write(&frame.head)?;
            tmpl.render(r, ctx, rc, out)?;
            out.write(&frame.tail)?;
        }
        Ok(())
    }
}

fn register(hbs: &mut Handlebars) {
    hbs.register_helper("assign", Box::new(AssignHelper));
    hbs.register_helper("set", Box::new(SetHelper));
    hbs.register_helper("from_json", Box::new(FromJsonHelper));
    hbs.register_helper("to_json", Box::new(ToJsonHelper));
    hbs.register_helper("jsonnet", Box::new(JsonnetHelper));
    hbs.register_helper("replace_section", Box::new(SectionHelper));
    hbs.register_helper(
        "json_to_str",
        Box::new(ValueHelper(|h| {
            json_to_str_fct
                .call_inner(param(h, 0).as_ref(), hash(h, "format").as_ref())
                .map_err(render_error)
        })),
    );
    hbs.register_helper(
        "str_to_json",
        Box::new(ValueHelper(|h| {
            str_to_json_fct
                .call_inner(param(h, 0).as_ref(), hash(h, "format").as_ref())
                .map_err(render_error)
        })),
    );
    hbs.register_helper(
        "json_str_query",
        Box::new(ValueHelper(|h| {
            json_str_query_fct
                .call_inner(
                    param(h, 0).as_ref(),
                    param(h, 1).as_ref(),
                    hash(h, "format").as_ref(),
                )
                .map_err(render_error)
        })),
    );
    hbs.register_helper(
        "json_query",
        Box::new(ValueHelper(|h| {
            let expr = str_param(h, "json_query", 0)?;
            let data = param(h, 1)
                .ok_or_else(|| RenderErrorReason::ParamNotFoundForIndex("json_query", 1))?;
            json_query(&expr, &data).map_err(nested)
        })),
    );
    hbs.register_helper(
        "regex_captures",
        Box::new(ValueHelper(|h| {
            regex_captures_fct
                .call_inner(hash(h, "on").as_ref(), hash(h, "pattern").as_ref())
                .map_err(render_error)
        })),
    );
    hbs.register_helper(
        "regex_is_match",
        Box::new(ValueHelper(|h| {
            regex_is_match_fct
                .call_inner(hash(h, "on").as_ref(), hash(h, "pattern").as_ref())
                .map_err(render_error)
        })),
    );
    hbs.register_helper(
        "first_non_empty",
        Box::new(ValueHelper(|h| {
            let params: Vec<Json> = h.params().iter().map(|p| to_json(p.value())).collect();
            Ok(first_non_empty_fct
                .call_inner(&params)
                .unwrap_or(Json::String(String::new())))
        })),
    );
    hbs.register_helper(
        "trim",
        Box::new(ValueHelper(|h| {
            Ok(Json::String(trim(&str_param(h, "trim", 0)?).to_owned()))
        })),
    );
    hbs.register_helper(
        "trim_start",
        Box::new(ValueHelper(|h| {
            Ok(Json::String(trim_start(&str_param(h, "trim_start", 0)?).to_owned()))
        })),
    );
    hbs.register_helper(
        "trim_end",
        Box::new(ValueHelper(|h| {
            Ok(Json::String(trim_end(&str_param(h, "trim_end", 0)?).to_owned()))
        })),
    );
    hbs.register_helper(
        "replace",
        Box::new(ValueHelper(|h| {
            Ok(Json::String(replace(
                &str_param(h, "replace", 0)?,
                &str_param(h, "replace", 1)?,
                &str_param(h, "replace", 2)?,
            )))
        })),
    );
    hbs.register_helper(
        "quote",
        Box::new(ValueHelper(|h| {
            Ok(Json::String(quote(
                &str_param(h, "quote", 0)?,
                &str_param(h, "quote", 1)?,
            )))
        })),
    );
    hbs.register_helper(
        "unquote",
        Box::new(ValueHelper(|h| {
            Ok(Json::String(unquote(&str_param(h, "unquote", 0)?)))
        })),
    );
}

fn both(h: &Helper, helper: &'static str) -> Result<(Json, Json), RenderError> {
    let x = param(h, 0).ok_or_else(|| RenderErrorReason::ParamNotFoundForIndex(helper, 0))?;
    let y = param(h, 1).ok_or_else(|| RenderErrorReason::ParamNotFoundForIndex(helper, 1))?;
    Ok((x, y))
}

fn register_truth_and_uuid(hbs: &mut Handlebars) {
    hbs.register_helper(
        "eq",
        Box::new(ValueHelper(|h| {
            let (x, y) = both(h, "eq")?;
            Ok(Json::Bool(eq(&x, &y)))
        })),
    );
    hbs.register_helper(
        "ne",
        Box::new(ValueHelper(|h| {
            let (x, y) = both(h, "ne")?;
            Ok(Json::Bool(ne(&x, &y)))
        })),
    );
    hbs.register_helper(
        "uuid_new_v4",
        Box::new(ValueHelper(|_| Ok(Json::String(uuid_new_v4_fct())))),
    );
    hbs.register_helper(
        "uuid_new_v7",
        Box::new(ValueHelper(|_| Ok(Json::String(uuid_new_v7_fct())))),
    );
}

fn register_cases(hbs: &mut Handlebars) {
    hbs.register_helper(
        "to_lower_case",
        Box::new(ValueHelper(|h| {
            Ok(Json::String(to_lower_case(&str_param(h, "to_lower_case", 0)?)))
        })),
    );
    hbs.register_helper(
        "to_upper_case",
        Box::new(ValueHelper(|h| {
            Ok(Json::String(to_upper_case(&str_param(h, "to_upper_case", 0)?)))
        })),
    );
    hbs.register_helper(
        "to_camel_case",
        Box::new(ValueHelper(|h| {
            Ok(Json::String(to_camel_case(&str_param(h, "to_camel_case", 0)?)))
        })),
    );
    hbs.register_helper(
        "to_pascal_case",
        Box::new(ValueHelper(|h| {
            Ok(Json::String(to_pascal_case(&str_param(h, "to_pascal_case", 0)?)))
        })),
    );
    hbs.register_helper(
        "to_snake_case",
        Box::new(ValueHelper(|h| {
            Ok(Json::String(to_snake_case(&str_param(h, "to_snake_case", 0)?)))
        })),
    );
    hbs.register_helper(
        "to_screaming_snake_case",
        Box::new(ValueHelper(|h| {
            Ok(Json::String(to_screaming_snake_case(&str_param(h, "to_screaming_snake_case", 0)?)))
        })),
    );
    hbs.register_helper(
        "to_kebab_case",
        Box::new(ValueHelper(|h| {
            Ok(Json::String(to_kebab_case(&str_param(h, "to_kebab_case", 0)?)))
        })),
    );
    hbs.register_helper(
        "to_train_case",
        Box::new(ValueHelper(|h| {
            Ok(Json::String(to_train_case(&str_param(h, "to_train_case", 0)?)))
        })),
    );
    hbs.register_helper(
        "to_sentence_case",
        Box::new(ValueHelper(|h| {
            Ok(Json::String(to_sentence_case(&str_param(h, "to_sentence_case", 0)?)))
        })),
    );
    hbs.register_helper(
        "to_title_case",
        Box::new(ValueHelper(|h| {
            Ok(Json::String(to_title_case(&str_param(h, "to_title_case", 0)?)))
        })),
    );
    hbs.register_helper(
        "to_class_case",
        Box::new(ValueHelper(|h| {
            Ok(Json::String(to_class_case(&str_param(h, "to_class_case", 0)?)))
        })),
    );
    hbs.register_helper(
        "to_table_case",
        Box::new(ValueHelper(|h| {
            Ok(Json::String(to_table_case(&str_param(h, "to_table_case", 0)?)))
        })),
    );
    hbs.register_helper(
        "to_plural",
        Box::new(ValueHelper(|h| {
            Ok(Json::String(to_plural(&str_param(h, "to_plural", 0)?)))
        })),
    );
    hbs.register_helper(
        "to_singular",
        Box::new(ValueHelper(|h| {
            Ok(Json::String(to_singular(&str_param(h, "to_singular", 0)?)))
        })),
    );
}

fn new_hbs<'reg>() -> Handlebars<'reg> {
    let mut hbs = Handlebars::new();
    hbs.set_strict_mode(true);
    hbs.register_escape_fn(no_escape);
    register(&mut hbs);
    register_cases(&mut hbs);
    register_truth_and_uuid(&mut hbs);
    hbs
}

fn assert_renders(samples: Vec<(&str, &str)>) -> Result<(), Box<dyn Error>> {
    let vs: HashMap<String, String> = HashMap::new();
    let mut hbs = new_hbs();
    for sample in samples {
        hbs.register_template_string(sample.0, sample.0)?;
        assert_eq!(hbs.render(sample.0, &vs)?, sample.1.to_owned());
    }
    Ok(())
}

fn assert_helpers(input: &str, helper_expected: Vec<(&str, &str)>) -> Result<(), Box<dyn Error>> {
    let mut vs: HashMap<String, String> = HashMap::new();
    vs.insert("var".into(), input.into());
    let hbs = new_hbs();
    for sample in helper_expected {
        let tmpl = format!("{{{{ {} var}}}}", sample.0);
        assert_eq!(
            hbs.render_template(&tmpl, &vs)?,
            sample.1.to_owned(),
            "name: {}",
            sample.0
        );
    }
    Ok(())
}

fn normalize_nl(s: &str) -> String {
    unindent(s).replace("\r\n", "\n").replace('\r', "")
}

fn object(members: Vec<(&str, Value)>) -> Value {
    Value::Object(members.into_iter().map(|(k, v)| (k.to_string(), v)).collect())
}

#[test]
fn test_helper_assign() -> Result<(), Box<dyn Error>> {
    assert_renders(vec![
        (r##"{{ assign "foo" "{}" }}"##, r##""##),
        (r##"{{ assign "foo" "{}" }}{{ foo }}"##, r##"{}"##),
        (r##"{{ assign "foo" {} }}{{ foo }}"##, r##"[object]"##),
        (
            r##"{{ assign "foo" {"bar": 33} }}{{ foo }}"##,
            r##"[object]"##,
        ),
        (
            r##"{{ assign "foo" "hello world" }}{{ foo }}"##,
            r##"hello world"##,
        ),
        (
            r##"{{ assign "foo" "world" }}{{ assign "bar" "hello" }}>{{ bar }} {{ foo }}<"##,
            r##">hello world<"##,
        ),
    ])
}

#[test]
fn test_helper_set() -> Result<(), Box<dyn Error>> {
    assert_renders(vec![
        (r##"{{ set foo="{}" }}"##, r##""##),
        (r##"{{ set foo="{}" }}{{ foo }}"##, r##"{}"##),
        (r##"{{ set foo={} }}{{ foo }}"##, r##"[object]"##),
        (r##"{{ set foo={"bar": 33} }}{{ foo }}"##, r##"[object]"##),
        (
            r##"{{ set foo={"bar": 33} }}{{ json_to_str foo }}"##,
            r##"{"bar":33}"##,
        ),
        (r##"{{ set foo={"bar": 33} }}{{ foo.bar }}"##, r##"33"##),
        (
            r##"{{ set foo="hello world" }}{{ foo }}"##,
            r##"hello world"##,
        ),
        (
            r##"{{ set foo="world" bar="hello" }}>{{ bar }} {{ foo }}<"##,
            r##">hello world<"##,
        ),
        (
            r##"{{ set foo="world" }}{{ set bar="hello" }}>{{ bar }} {{ foo }}<"##,
            r##">hello world<"##,
        ),
        (r##"{{ set foo=(eq 12 12) }}{{ foo }}"##, r##"true"##),
    ])
}

#[test]
fn test_empty_input_return_empty() -> Result<(), Box<dyn Error>> {
    assert_renders(vec![
        (r##"{{ json_to_str "" }}"##, ""),
        (r##"{{ json_to_str "" format="json"}}"##, ""),
        (r##"{{ json_to_str "" format="yaml"}}"##, ""),
        (r##"{{ json_to_str "" format="toml"}}"##, ""),
        (r##"{{ str_to_json "" }}"##, ""),
        (r##"{{ str_to_json "" format="json"}}"##, ""),
        (r##"{{ str_to_json "" format="yaml"}}"##, ""),
        (r##"{{ str_to_json "" format="toml"}}"##, ""),
        (r##"{{ json_to_str (str_to_json "") }}"##, ""),
        (r##"{{ str_to_json (json_to_str "") }}"##, ""),
        (r##"{{ json_query "foo" "" }}"##, ""),
        (r##"{{ json_str_query "foo" "" }}"##, ""),
        (r##"{{ json_str_query "foo" "" format="json"}}"##, ""),
        (r##"{{ json_str_query "foo" "" format="yaml"}}"##, ""),
        (r##"{{ json_str_query "foo" "" format="toml"}}"##, ""),
    ])
}

#[test]
fn test_null_input_return_empty() -> Result<(), Box<dyn Error>> {
    assert_renders(vec![
        (r##"{{ json_to_str null }}"##, ""),
        (r##"{{ str_to_json null }}"##, ""),
        (r##"{{ json_to_str (str_to_json null) }}"##, ""),
        (r##"{{ str_to_json (json_to_str null) }}"##, ""),
        (r##"{{ json_query "foo" null }}"##, ""),
        (r##"{{ json_str_query "foo" null }}"##, ""),
    ])
}

#[test]
fn test_search_object_field() -> Result<(), Box<dyn Error>> {
    let json: Value = serde_json::from_str(r##"{"foo":{"bar":{"baz":true}}}"##)?;
    let result = json_query("foo.bar.baz", &to_json(&json)).map_err(nested)?;
    assert_eq!(to_value(&result), Value::Bool(true));
    Ok(())
}

#[test]
fn test_search_path_in_empty() -> Result<(), Box<dyn Error>> {
    for v in ["{}", "[]", "null", "\"\""] {
        let json: Value = serde_json::from_str(v)?;
        let result = json_query("foo.bar.baz", &to_json(&json)).map_err(nested)?;
        assert_eq!(to_value(&result), Value::Null);
    }
    Ok(())
}

fn assert_data_format_write_eq_read(f: DataFormat, data: &str) -> Result<(), Box<dyn Error>> {
    let data = normalize_nl(data);
    let read = f.read_string(&data).map_err(render_error)?;
    let actual = normalize_nl(&f.write_string(&read).map_err(render_error)?);
    assert_eq!(actual, data);
    Ok(())
}

#[test]
fn test_data_format_symmetry() -> Result<(), Box<dyn Error>> {
    assert_data_format_write_eq_read(DataFormat::Json, r##"{"foo":{"bar":{"baz":true}}}"##)?;
    assert_data_format_write_eq_read(
        DataFormat::JsonPretty,
        &normalize_nl(
            r##"{
                  "foo": {
                    "bar": {
                      "baz": true
                    }
                  }
                }"##,
        ),
    )?;
    assert_data_format_write_eq_read(
        DataFormat::Yaml,
        &normalize_nl(
            r##"
                    a: a
                    foo:
                      bar:
                        baz: true
                "##,
        ),
    )?;
    assert_data_format_write_eq_read(
        DataFormat::Toml,
        &normalize_nl(
            r##"
                [foo.bar]
                baz = true
                "##,
        ),
    )?;
    assert_data_format_write_eq_read(
        DataFormat::TomlPretty,
        &normalize_nl(
            r##"
                [foo.bar]
                baz = true
                "##,
        ),
    )?;
    Ok(())
}

#[test]
fn test_helper_json_to_str() -> Result<(), Box<dyn Error>> {
    assert_renders(vec![
        (r##"{{ json_to_str {} }}"##, r##"{}"##),
        (
            r##"{{ json_to_str {"foo":{"bar":{"baz":true}}} }}"##,
            r##"{"foo":{"bar":{"baz":true}}}"##,
        ),
        (
            r##"{{ json_to_str ( str_to_json "{\"foo\":{\"bar\":{\"baz\":true}}}" ) }}"##,
            r##"{"foo":{"bar":{"baz":true}}}"##,
        ),
        (
            r##"{{ json_to_str ( str_to_json "{\"foo\":{\"bar\":{\"baz\":true}}}" ) format="json_pretty"}}"##,
            &normalize_nl(
                r##"{
                  "foo": {
                    "bar": {
                      "baz": true
                    }
                  }
                }"##,
            ),
        ),
    ])
}

#[test]
fn test_helper_json_query() -> Result<(), Box<dyn Error>> {
    assert_renders(vec![
        (r##"{{ json_query "foo" {} }}"##, r##""##),
        (
            r##"{{ json_to_str ( json_query "foo" {"foo":{"bar":{"baz":true}}} ) }}"##,
            r##"{"bar":{"baz":true}}"##,
        ),
        (
            r##"{{ json_to_str ( json_query "foo" (str_to_json "{\"foo\":{\"bar\":{\"baz\":true}}}" ) ) }}"##,
            r##"{"bar":{"baz":true}}"##,
        ),
    ])
}

#[test]
fn test_helper_json_str_query() -> Result<(), Box<dyn Error>> {
    assert_renders(vec![
        (
            r##"{{ json_str_query "foo" "{\"foo\":{\"bar\":{\"baz\":true}}}" }}"##,
            r##"{"bar":{"baz":true}}"##,
        ),
        (
            r##"{{ json_str_query "foo" "{\"foo\":{\"bar\":{\"baz\":true}}}" format="json"}}"##,
            r##"{"bar":{"baz":true}}"##,
        ),
        (
            r##"{{ json_str_query "foo.bar.baz" "{\"foo\":{\"bar\":{\"baz\":true}}}" }}"##,
            "true",
        ),
    ])
}

#[test]
fn test_helper_json_str_query_on_yaml() -> Result<(), Box<dyn Error>> {
    assert_renders(vec![
        (
            r##"{{ json_str_query "foo" "{\"foo\":{\"bar\":{\"baz\":true}}}" format="yaml"}}"##,
            &normalize_nl(
                "
                    bar:
                      baz: true
                    ",
            ),
        ),
        (
            r##"{{ json_str_query "foo" "foo:\n bar:\n  baz: true\n" format="yaml"}}"##,
            &normalize_nl(
                "
                    bar:
                      baz: true
                    ",
            ),
        ),
        (
            r##"{{ json_str_query "foo.bar.baz" "foo:\n bar:\n  baz: true\n" format="yaml"}}"##,
            "true",
        ),
    ])
}

#[test]
fn test_helper_json_str_query_on_toml() -> Result<(), Box<dyn Error>> {
    assert_renders(vec![
        (
            r##"{{ json_str_query "foo" "[foo.bar]\nbaz=true\n" format="toml"}}"##,
            &normalize_nl(
                "[bar]
                    baz = true
                    ",
            ),
        ),
        (
            r##"{{ json_str_query "foo.bar.baz" "[foo.bar]\nbaz=true\n" format="toml"}}"##,
            "true",
        ),
    ])
}

#[test]
fn test_block_to_json() -> Result<(), Box<dyn Error>> {
    assert_renders(vec![
        (r##"{{#to_json}}{{/to_json}}"##, r##""##),
        (
            r##"{{#to_json}}{"foo":{"bar":{"baz":true}}}{{/to_json}}"##,
            &normalize_nl(
                r##"{
                      "foo": {
                        "bar": {
                          "baz": true
                        }
                      }
                    }"##,
            ),
        ),
        (
            &normalize_nl(
                r##"{{#to_json format="yaml"}}
                    foo:
                        bar:
                            baz: true
                    {{/to_json}}"##,
            ),
            &normalize_nl(
                r##"{
                      "foo": {
                        "bar": {
                          "baz": true
                        }
                      }
                    }"##,
            ),
        ),
        (
            &normalize_nl(
                r##"{{#to_json format="toml"}}
                    [foo]
                    bar = { baz = true }
                    hello = "1.2.3"
                    {{/to_json}}"##,
            ),
            &normalize_nl(
                r##"{
                      "foo": {
                        "bar": {
                          "baz": true
                        },
                        "hello": "1.2.3"
                      }
                    }"##,
            ),
        ),
    ])
}

#[test]
fn test_block_from_json() -> Result<(), Box<dyn Error>> {
    assert_renders(vec![
        (r##"{{#from_json}}{{/from_json}}"##, r##""##),
        (
            r##"{{#from_json}}{"foo":{"bar":{"baz":true}}}{{/from_json}}"##,
            r##"{"foo":{"bar":{"baz":true}}}"##,
        ),
        (
            r##"{{#from_json format="json_pretty"}}{"foo":{"bar":{"baz":true}}}{{/from_json}}"##,
            &normalize_nl(
                r##"{
                      "foo": {
                        "bar": {
                          "baz": true
                        }
                      }
                    }"##,
            ),
        ),
        (
            r##"{{#from_json format="yaml"}}{"foo":{"bar":{"baz":true}}}{{/from_json}}"##,
            &normalize_nl(
                r##"
                    foo:
                      bar:
                        baz: true
                    "##,
            ),
        ),
        (
            r##"{{#from_json format="toml"}}{"foo":{"bar":{"baz":true}}}{{/from_json}}"##,
            &normalize_nl(
                r##"
                    [foo.bar]
                    baz = true
                    "##,
            ),
        ),
        (
            r##"{{#from_json format="toml"}}{"foo":{"hello":"1.2.3", "bar":{"baz":true} }}{{/from_json}}"##,
            &normalize_nl(
                r##"
                    [foo]
                    hello = "1.2.3"

                    [foo.bar]
                    baz = true
                    "##,
            ),
        ),
        (
            r##"{{#from_json format="toml_pretty"}}{"foo":{"hello":"1.2.4", "bar":{"baz":true} }}{{/from_json}}"##,
            &normalize_nl(
                r##"
                    [foo]
                    hello = "1.2.4"

                    [foo.bar]
                    baz = true
                    "##,
            ),
        ),
    ])
}

#[test]
fn test_block_from_json_to_toml_with_tables_at_anyplace() -> Result<(), Box<dyn Error>> {
    assert_renders(vec![(
        r##"{{#from_json format="toml"}}
                {"foo":{
                    "f0": null,
                    "f1":"1.2.3",
                    "f2":{
                        "f20": true,
                        "f21": { "f210": false}
                    },
                    "f3": [1,2,3],
                    "f4":"1.2.3",
                    "f5":{
                        "f50": true,
                        "f51": { "f510": false}
                    }
                }}
                {{/from_json}}"##,
        &normalize_nl(
            r##"
                    [foo]
                    f1 = "1.2.3"
                    f4 = "1.2.3"
                    f3 = [1, 2, 3]
                    
                    [foo.f2]
                    f20 = true
                    
                    [foo.f2.f21]
                    f210 = false
                    
                    [foo.f5]
                    f50 = true
                    
                    [foo.f5.f51]
                    f510 = false
                    "##,
        ),
    )])
}

fn toml_outside(v: &TomlValue) -> toml::Value {
    match v {
        TomlValue::String(s) => toml::Value::String(s.clone()),
        TomlValue::Integer(i) => toml::Value::Integer(*i),
        TomlValue::Float(n) => toml::Value::Float(match to_value(&Json::Number(n.clone())) {
            Value::Number(x) => x.as_f64().unwrap_or_default(),
            _ => 0.0,
        }),
        TomlValue::Boolean(b) => toml::Value::Boolean(*b),
        TomlValue::Array(a) => toml::Value::Array(a.iter().map(toml_outside).collect()),
        TomlValue::Table(t) => {
            toml::Value::Table(t.iter().map(|(k, x)| (k.clone(), toml_outside(x))).collect())
        }
    }
}

#[test]
fn test_sort_toml_map() {
    let actual = vec![
        ("f1".to_string(), TomlValue::String("s1".to_owned())),
        ("f2".to_string(), TomlValue::Table(Vec::new())),
        ("f3".to_string(), TomlValue::Boolean(true)),
        ("f4".to_string(), TomlValue::Table(Vec::new())),
    ];
    let mut expected = toml::map::Map::new();
    expected.insert("f1".to_string(), toml::Value::String("s1".to_owned()));
    expected.insert("f3".to_string(), toml::Value::Boolean(true));
    expected.insert("f2".to_string(), toml::Value::Table(toml::map::Map::new()));
    expected.insert("f4".to_string(), toml::Value::Table(toml::map::Map::new()));
    let sorted = toml_outside(&TomlValue::Table(sort_toml_map(actual)));
    assert_eq!(sorted, toml::Value::Table(expected.clone()));
    let keys: Vec<String> = match sorted {
        toml::Value::Table(t) => t.keys().cloned().collect(),
        _ => Vec::new(),
    };
    assert_eq!(keys, vec!["f1", "f3", "f2", "f4"]);
}

#[test]
fn test_jsonnet_block() -> Result<(), Box<dyn Error>> {
    assert_renders(vec![
        (r##"{{#jsonnet}}{{/jsonnet}}"##, r##""##),
        (
            r##"{{#jsonnet}}{"foo":{"bar":{"baz":true}}}{{/jsonnet}}"##,
            &normalize_nl(
                r##"{
                       "foo": {
                          "bar": {
                             "baz": true
                          }
                       }
                    }
                    "##,
            ),
        ),
        (
            r##"{{#jsonnet}}
                local v = {"foo":{"bar":{"baz":false}}};
                v
                {{/jsonnet}}"##,
            &normalize_nl(
                r##"{
                       "foo": {
                          "bar": {
                             "baz": false
                          }
                       }
                    }
                    "##,
            ),
        ),
        (
            r##"{{#jsonnet}}
                local v = {"foo":{"bar":{"baz":false}}};
                v {
                  "v": 3,
                  "vv" +: {
                      "vvv": 333
                  }
                }
                {{/jsonnet}}"##,
            &normalize_nl(
                r##"{
                       "foo": {
                          "bar": {
                             "baz": false
                          }
                       },
                       "v": 3,
                       "vv": {
                          "vvv": 333
                       }
                    }
                    "##,
            ),
        ),
        (
            r##"{{#jsonnet}}
                local v = {"foo":{"bar":{"baz":false}}};
                v {
                  "foo" +: {
                      "bar" +: {
                          "baz": true
                      }
                  }
                }
                {{/jsonnet}}"##,
            &normalize_nl(
                r##"{
                       "foo": {
                          "bar": {
                             "baz": true
                          }
                       }
                    }
                    "##,
            ),
        ),
        (
            r##"{{#jsonnet}}
                local v = {"foo":{"bar":{"baz":false}}};
                v {
                  "foo" +: {
                      "bar" +: {
                          "baz2": true
                      }
                  }
                }
                {{/jsonnet}}"##,
            &normalize_nl(
                r##"{
                       "foo": {
                          "bar": {
                             "baz": false,
                             "baz2": true
                          }
                       }
                    }
                    "##,
            ),
        ),
    ])
}

#[test]
fn regex_helpers_test_regex_captures() -> Result<(), Box<dyn Error>> {
    assert_renders(vec![
        (r##"{{ regex_captures pattern="foo" on="" }}"##, r##""##),
        (
            r##"{{ regex_captures pattern="(?<first>\\w)(\\w)(?:\\w)\\w(?<last>\\w)" on="today" }}"##,
            r##"[object]"##,
        ),
        (
            r##"{{ json_to_str( regex_captures pattern="(?<first>\\w)(\\w)(?:\\w)\\w(?<last>\\w)" on="today" ) }}"##,
            r##"{"_0":"today","_1":"t","_2":"o","_3":"y","first":"t","last":"y"}"##,
        ),
        (
            r##"{{ set captures=( regex_captures pattern="(?<first>\\w)(\\w)(?:\\w)\\w(?<last>\\w)" on="today" ) }}{{ captures.last }}"##,
            r##"y"##,
        ),
    ])
}

#[test]
fn test_regex_is_match() -> Result<(), Box<dyn Error>> {
    assert_renders(vec![
        (
            r##"{{ regex_is_match pattern="foo" on="" }}"##,
            r##"false"##,
        ),
        (
            r##"{{ regex_is_match  pattern="(?<first>\\w)(\\w)(?:\\w)\\w(?<last>\\w)" on="today" }}"##,
            r##"true"##,
        ),
        (
            r##"{{#if (regex_is_match pattern="(?<first>\\w)(\\w)(?:\\w)\\w(?<last>\\w)" on="today" ) }}ok{{/if}}"##,
            r##"ok"##,
        ),
    ])
}

const INPUT: &str = r#"
<!DOCTYPE html>
<html lang="en">
    <head>
    <meta charset="UTF-8" />
    <meta http-equiv="X-UA-Compatible" content="IE=edge" />
    <meta name="viewport" content="width=device-width, initial-scale=1.0" />
    <title>Document</title>
    </head>
    <body>
    <!-- #region head-->
    Something by default
    <!-- #endregion head -->
    </body>
</html>
"#;

#[test]
fn test_helper_replace_section() -> Result<(), Box<dyn Error>> {
    let data = object(vec![("content", Value::String(INPUT.to_string()))]);
    let mut hbs = new_hbs();
    hbs.register_template_string(
        "test",
        r#"{{#replace_section  begin="<!-- #region head-->" end="<!-- #endregion head -->" content }}

    This is the new content of the block
    {{/replace_section}}"#,
    )?;

    let result = hbs.render("test", &data)?;

    assert_eq!(
        result,
        r#"
<!DOCTYPE html>
<html lang="en">
    <head>
    <meta charset="UTF-8" />
    <meta http-equiv="X-UA-Compatible" content="IE=edge" />
    <meta name="viewport" content="width=device-width, initial-scale=1.0" />
    <title>Document</title>
    </head>
    <body>
    <!-- #region head-->
    This is the new content of the block
    <!-- #endregion head -->
    </body>
</html>
"#,
    );

    Ok(())
}

#[test]
fn test_helper_replace_section_remove_remove_boundaries() -> Result<(), Box<dyn Error>> {
    let data = object(vec![("content", Value::String(INPUT.to_string()))]);
    let mut hbs = new_hbs();
    hbs.register_template_string(
        "test",
        r#"{{~#replace_section  begin="<!-- #region head-->" end="<!-- #endregion head -->" remove_boundaries=true content }}
This is the new content of the block
{{~/replace_section}}"#,
    )?;

    let result = hbs.render("test", &data)?;

    assert_eq!(
        result,
        r#"
<!DOCTYPE html>
<html lang="en">
    <head>
    <meta charset="UTF-8" />
    <meta http-equiv="X-UA-Compatible" content="IE=edge" />
    <meta name="viewport" content="width=device-width, initial-scale=1.0" />
    <title>Document</title>
    </head>
    <body>
    This is the new content of the block
    </body>
</html>
"#,
    );

    Ok(())
}

#[test]
fn test_helper_trim() -> Result<(), Box<dyn Error>> {
    assert_renders(vec![
        (r##"{{ trim "foo" }}"##, r##"foo"##),
        (r##"{{ trim "  foo" }}"##, r##"foo"##),
        (r##"{{ trim "foo  " }}"##, r##"foo"##),
        (r##"{{ trim " foo " }}"##, r##"foo"##),
    ])
}

#[test]
fn test_helper_trim_start() -> Result<(), Box<dyn Error>> {
    assert_renders(vec![
        (r##"{{ trim_start "foo" }}"##, r##"foo"##),
        (r##"{{ trim_start "  foo" }}"##, r##"foo"##),
        (r##"{{ trim_start "foo  " }}"##, r##"foo  "##),
        (r##"{{ trim_start " foo " }}"##, r##"foo "##),
    ])
}

#[test]
fn test_helper_trim_end() -> Result<(), Box<dyn Error>> {
    assert_renders(vec![
        (r##"{{ trim_end "foo" }}"##, r##"foo"##),
        (r##"{{ trim_end "  foo" }}"##, r##"  foo"##),
        (r##"{{ trim_end "foo  " }}"##, r##"foo"##),
        (r##"{{ trim_end " foo " }}"##, r##" foo"##),
    ])
}

#[test]
fn test_helper_quote() -> Result<(), Box<dyn Error>> {
    assert_renders(vec![
        (r##"{{ quote "'" "''" }}"##, r##"'\'\''"##),
        (r##"{{ quote "'" "foo" }}"##, r##"'foo'"##),
        (r##"{{ quote "\"" "foo" }}"##, r##""foo""##),
        (r##"{{ quote "" "foo" }}"##, r##""foo""##),
    ])
}

#[test]
fn test_helper_unquote() -> Result<(), Box<dyn Error>> {
    assert_renders(vec![
        (r##"{{ unquote "''" }}"##, r##""##),
        (r##"{{ unquote "'f'" }}"##, r##"f"##),
        (r##"{{ unquote "foo" }}"##, r##"foo"##),
        (r##"{{ unquote "'foo'" }}"##, r##"foo"##),
        (r##"{{ unquote "\"foo\"" }}"##, r##"foo"##),
        (r##"{{ unquote "foo'" }}"##, r##"foo'"##),
        (r##"{{ unquote "'foo" }}"##, r##"'foo"##),
    ])
}

#[test]
fn test_helper_replace() -> Result<(), Box<dyn Error>> {
    assert_renders(vec![(r##"{{ replace "foo" "oo" "aa"}}"##, r##"faa"##)])
}

#[test]
fn test_helper_first_non_empty() -> Result<(), Box<dyn Error>> {
    assert_renders(vec![
        (r##"{{ first_non_empty ""}}"##, r##""##),
        (r##"{{ first_non_empty "foo"}}"##, r##"foo"##),
        (r##"{{ first_non_empty "foo" "bar"}}"##, r##"foo"##),
        (r##"{{ first_non_empty "" "foo"}}"##, r##"foo"##),
        (r##"{{ first_non_empty "" "foo" "bar"}}"##, r##"foo"##),
        (r##"{{ first_non_empty "" null}}"##, r##""##),
        (r##"{{ first_non_empty "" null 33}}"##, r##""##),
        (r##"{{ first_non_empty "" null "foo" "bar"}}"##, r##"foo"##),
    ])
}

#[test]
fn test_register_string_helpers() -> Result<(), Box<dyn Error>> {
    assert_helpers(
        "Hello foo-bars",
        vec![
            ("to_lower_case", "hello foo-bars"),
            ("to_upper_case", "HELLO FOO-BARS"),
            ("to_camel_case", "helloFooBars"),
            ("to_pascal_case", "HelloFooBars"),
            ("to_snake_case", "hello_foo_bars"),
            ("to_screaming_snake_case", "HELLO_FOO_BARS"),
            ("to_kebab_case", "hello-foo-bars"),
            ("to_train_case", "Hello-Foo-Bars"),
            ("to_sentence_case", "Hello foo bars"),
            ("to_title_case", "Hello Foo Bars"),
            ("to_class_case", "HelloFooBar"),
            ("to_table_case", "hello_foo_bars"),
            ("to_plural", "bars"),
            ("to_singular", "bar"),
        ],
    )?;
    Ok(())
}

#[test]
fn test_chain_of_helpers_with_1_param() -> Result<(), Box<dyn Error>> {
    let vs: HashMap<String, String> = HashMap::new();
    let hbs = new_hbs();
    let tmpl = r#"{{ to_upper_case (to_singular "Hello foo-bars")}}"#.to_owned();
    let actual = hbs.render_template(&tmpl, &vs)?;
    assert_eq!(&actual, "BAR");
    Ok(())
}

#[test]
fn test_helper_eq() -> Result<(), Box<dyn Error>> {
    assert_renders(vec![
        (r##"{{ eq 2 3 }}"##, r##"false"##),
        (r##"{{ eq 42 42 }}"##, r##"true"##),
        (r##"{{ eq true false }}"##, r##"false"##),
        (r##"{{ eq false false }}"##, r##"true"##),
        (r##"{{ eq "foo" "bar" }}"##, r##"false"##),
        (r##"{{ eq "foo" "foo" }}"##, r##"true"##),
        (r##"{{ eq "foo" "FOO" }}"##, r##"false"##),
        (r##"{{ eq [ 2, 3] [ 2 ] }}"##, r##"false"##),
        (r##"{{ eq [ 2, 3] [ 2, 3 ] }}"##, r##"true"##),
    ])?;
    Ok(())
}

#[test]
fn test_helper_not() -> Result<(), Box<dyn Error>> {
    assert_renders(vec![
        (r##"{{ not false }}"##, r##"true"##),
        (r##"{{ not true }}"##, r##"false"##),
        (r##"{{ not (eq 2 3) }}"##, r##"true"##),
        (r##"{{ not (eq 42 42) }}"##, r##"false"##),
    ])?;
    Ok(())
}

#[test]
fn test_helper_ne() -> Result<(), Box<dyn Error>> {
    assert_renders(vec![
        (r##"{{ ne 2 3 }}"##, r##"true"##),
        (r##"{{ ne 42 42 }}"##, r##"false"##),
        (r##"{{ ne true false }}"##, r##"true"##),
        (r##"{{ ne false false }}"##, r##"false"##),
        (r##"{{ ne "foo" "bar" }}"##, r##"true"##),
        (r##"{{ ne "foo" "foo" }}"##, r##"false"##),
        (r##"{{ ne "foo" "FOO" }}"##, r##"true"##),
    ])?;
    Ok(())
}

#[test]
fn test_if_eq_string() -> Result<(), Box<dyn Error>> {
    assert_renders(vec![(
        r##"{{#if (eq "OK" "OK")}}OK{{ else }}KO{{/if}}"##,
        r##"OK"##,
    )])?;
    Ok(())
}

#[test]
fn uuid_helpers_test_regex_captures() -> Result<(), Box<dyn Error>> {
    assert_renders(vec![
        (r##"{{ len (uuid_new_v4) }}"##, r##"36"##),
        (r##"{{ len( uuid_new_v7 )}}"##, r##"36"##),
    ])
}
