//! YAML values, as far as service definitions read them.
use vstd::prelude::*;
use vstd::string::*;
use crate::text::trim;

verus! {

#[verifier::external_type_specification]
#[verifier::external_body]
pub struct ExYamlValue(serde_yaml::Value);

/// What a YAML value is. A number is known by its text; of a mapping only that
/// it is one.
pub enum YamlView {
    Null,
    Bool(bool),
    Number(Seq<char>),
    String(Seq<char>),
    Sequence(Seq<YamlView>),
    Mapping,
    Tagged(Box<YamlView>),
}

/// What a YAML value holds.
pub uninterp spec fn yaml_of(v: serde_yaml::Value) -> YamlView;

/// The YAML text of a value, where it has one.
pub uninterp spec fn yaml_text(v: serde_yaml::Value) -> Option<Seq<char>>;

/// What the values of a list hold.
pub open spec fn yaml_items(items: Seq<serde_yaml::Value>) -> Seq<YamlView> {
    items.map_values(|v: serde_yaml::Value| yaml_of(v))
}

/// A YAML value opened by one level.
pub enum Yaml<'a> {
    Null,
    Bool(bool),
    Number(String),
    String(&'a String),
    Sequence(&'a Vec<serde_yaml::Value>),
    Mapping,
    Tagged(&'a serde_yaml::Value),
}

/// Whether an opened value is what a YAML value holds.
pub open spec fn opens(y: Yaml, v: YamlView) -> bool {
    match y {
        Yaml::Null => v == YamlView::Null,
        Yaml::Bool(b) => v == YamlView::Bool(b),
        Yaml::Number(n) => v == YamlView::Number(n@),
        Yaml::String(s) => v == YamlView::String(s@),
        Yaml::Sequence(items) => v == YamlView::Sequence(yaml_items(items@)),
        Yaml::Mapping => v == YamlView::Mapping,
        Yaml::Tagged(inner) => v == YamlView::Tagged(Box::new(yaml_of(*inner))),
    }
}

/// Tells the variants of `serde_yaml::Value` apart. A number comes as its
/// `Display` text; the value under a tag comes without the tag.
#[verifier::external_body]
pub(crate) fn open(v: &serde_yaml::Value) -> (r: Yaml<'_>)
    ensures
        opens(r, yaml_of(*v)),
{
    match v {
        serde_yaml::Value::Null => Yaml::Null,
        serde_yaml::Value::Bool(b) => Yaml::Bool(*b),
        serde_yaml::Value::Number(n) => Yaml::Number(n.to_string()),
        serde_yaml::Value::String(s) => Yaml::String(s),
        serde_yaml::Value::Sequence(items) => Yaml::Sequence(items),
        serde_yaml::Value::Mapping(_) => Yaml::Mapping,
        serde_yaml::Value::Tagged(t) => Yaml::Tagged(&t.value),
    }
}

/// The YAML text of a value; calls `serde_yaml::to_string`. Which text that is
/// follows from the value alone.
#[verifier::external_body]
fn render(v: &serde_yaml::Value) -> (r: Option<String>)
    ensures
        match r {
            Some(s) => yaml_text(*v) == Some(s@),
            None => yaml_text(*v) is None,
        },
{
    serde_yaml::to_string(v).ok()
}

/// The value that a YAML text describes, or what is wrong with the text.
pub uninterp spec fn yaml_parsed(text: Seq<char>) -> Result<serde_yaml::Value, Seq<char>>;

/// Reads a text as YAML; calls `serde_yaml::from_str`. What comes out follows from
/// the text alone. An error is handed on as its `Display` text.
#[verifier::external_body]
pub(crate) fn parse(text: &str) -> (r: Result<serde_yaml::Value, String>)
    ensures
        match r {
            Ok(v) => yaml_parsed(text@) == Ok::<serde_yaml::Value, Seq<char>>(v),
            Err(e) => yaml_parsed(text@) == Err::<serde_yaml::Value, Seq<char>>(e@),
        },
{
    serde_yaml::from_str(text).map_err(|e: serde_yaml::Error| e.to_string())
}

/// The JSON text of a YAML value, over several lines, or why it has none.
pub uninterp spec fn json_form(v: serde_yaml::Value) -> Result<Seq<char>, Seq<char>>;

/// The JSON text of a YAML value; calls `serde_json::to_string_pretty`. Which text
/// that is follows from the value alone. An error is handed on as its `Display`
/// text.
#[verifier::external_body]
pub(crate) fn render_json(v: &serde_yaml::Value) -> (r: Result<String, String>)
    ensures
        match r {
            Ok(s) => json_form(*v) == Ok::<Seq<char>, Seq<char>>(s@),
            Err(e) => json_form(*v) == Err::<Seq<char>, Seq<char>>(e@),
        },
{
    serde_json::to_string_pretty(v).map_err(|e: serde_json::Error| e.to_string())
}

/// The text of a string, under any number of tags.
pub open spec fn string_under_tags(v: YamlView) -> Option<Seq<char>>
    decreases v,
{
    match v {
        YamlView::String(s) => Some(s),
        YamlView::Tagged(inner) => string_under_tags(*inner),
        _ => None,
    }
}

/// The string that a value is; calls `serde_yaml::Value::as_str`, which looks
/// through tags.
#[verifier::external_body]
pub(crate) fn as_str(v: &serde_yaml::Value) -> (r: Option<&str>)
    ensures
        match r {
            Some(s) => string_under_tags(yaml_of(*v)) == Some(s@),
            None => string_under_tags(yaml_of(*v)) is None,
        },
{
    v.as_str()
}

/// The text of a boolean.
pub open spec fn bool_text(b: bool) -> Seq<char> {
    if b {
        "true"@
    } else {
        "false"@
    }
}

pub fn bool_string(b: bool) -> (r: String)
    ensures
        r@ == bool_text(b),
{
    if b {
        "true".to_owned()
    } else {
        "false".to_owned()
    }
}

/// The text of a scalar: a string as it is, a number or boolean as its text,
/// null as nothing.
pub open spec fn scalar_text(v: YamlView) -> Option<Seq<char>> {
    match v {
        YamlView::String(s) => Some(s),
        YamlView::Number(n) => Some(n),
        YamlView::Bool(b) => Some(bool_text(b)),
        YamlView::Null => Some(Seq::empty()),
        _ => None,
    }
}

/// The text of a scalar value.
pub fn scalar_string(v: &serde_yaml::Value) -> (r: Option<String>)
    ensures
        match r {
            Some(s) => scalar_text(yaml_of(*v)) == Some(s@),
            None => scalar_text(yaml_of(*v)) is None,
        },
{
    match open(v) {
        Yaml::String(s) => Some(s.clone()),
        Yaml::Number(n) => Some(n),
        Yaml::Bool(b) => Some(bool_string(b)),
        Yaml::Null => Some(String::new()),
        _ => None,
    }
}

/// The text of a value: that of a scalar, or the YAML text without the white
/// space around it.
pub open spec fn value_text(v: serde_yaml::Value) -> Seq<char> {
    match scalar_text(yaml_of(v)) {
        Some(s) => s,
        None => match yaml_text(v) {
            Some(s) => crate::text::trimmed(s),
            None => Seq::empty(),
        },
    }
}

/// Writes a value as text.
pub fn yaml_value_to_str(v: &serde_yaml::Value) -> (r: String)
    ensures
        r@ == value_text(*v),
{
    match scalar_string(v) {
        Some(s) => s,
        None => match render(v) {
            Some(s) => trim(s.as_str()),
            None => String::new(),
        },
    }
}

/// The text of a map value: that of a scalar, or the YAML text as it is.
pub open spec fn entry_text(v: serde_yaml::Value) -> Seq<char> {
    match scalar_text(yaml_of(v)) {
        Some(s) => s,
        None => match yaml_text(v) {
            Some(s) => s,
            None => "{}"@,
        },
    }
}

/// Writes the value of a map entry as text.
pub fn entry_string(v: &serde_yaml::Value) -> (r: String)
    ensures
        r@ == entry_text(*v),
{
    match scalar_string(v) {
        Some(s) => s,
        None => match render(v) {
            Some(s) => s,
            None => "{}".to_owned(),
        },
    }
}

/// The text of a string or number, and of a string under tags; nothing for
/// anything else.
pub open spec fn plain_text(v: YamlView) -> Seq<char> {
    match v {
        YamlView::String(s) => s,
        YamlView::Number(n) => n,
        _ => match string_under_tags(v) {
            Some(s) => s,
            None => Seq::empty(),
        },
    }
}

/// Writes a string or number as text.
pub fn plain_string(v: &serde_yaml::Value) -> (r: String)
    ensures
        r@ == plain_text(yaml_of(*v)),
{
    match open(v) {
        Yaml::String(s) => s.clone(),
        Yaml::Number(n) => n,
        _ => str_or_empty(v),
    }
}

/// The text of a string under any number of tags, or nothing.
pub open spec fn str_text(v: YamlView) -> Seq<char> {
    match string_under_tags(v) {
        Some(s) => s,
        None => Seq::empty(),
    }
}

/// Writes a string as text, and anything else as nothing.
pub fn str_or_empty(v: &serde_yaml::Value) -> (r: String)
    ensures
        r@ == str_text(yaml_of(*v)),
{
    match as_str(v) {
        Some(s) => s.to_owned(),
        None => String::new(),
    }
}

} // verus!
