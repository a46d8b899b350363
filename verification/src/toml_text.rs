//! The boundary to the `toml` crate: parsing lockfile text into the document
//! model, and rendering primitives.  The emitter controls structure and
//! order; these calls control how a single value or the metadata table is
//! turned into text, and how text is parsed.

use vstd::prelude::*;

use crate::resolve::pairs_model;

verus! {

#[verifier::external_type_specification]
#[verifier::external_body]
pub struct ExTomlValue(toml::Value);

/// What the text codec's rendering returns for a string value: a quoted
/// string literal.  The result depends on the characters alone.
pub uninterp spec fn rendered_str(s: Seq<char>) -> Seq<char>;

/// What the text codec's document rendering returns for a table of string
/// key/value pairs.  The result depends on the pairs alone.
pub uninterp spec fn rendered_meta(m: Seq<(Seq<char>, Seq<char>)>) -> Seq<char>;

/// Relies on `toml::Value`'s `Display`: a string value is rendered as a TOML
/// string literal, a function of the characters alone.
#[verifier::external_body]
pub fn render_string(s: &String) -> (r: String)
    ensures
        r@ == rendered_str(s@),
{
    toml::Value::String(s.clone()).to_string()
}

/// Relies on `toml::Table`'s `Display`: a table is rendered in document form,
/// one `key = value` line per entry, a function of the key/value pairs alone.
/// A table whose values are strings is always representable.
#[verifier::external_body]
pub fn render_metadata(pairs: &Vec<(String, String)>) -> (r: String)
    ensures
        r@ == rendered_meta(pairs_model(pairs@)),
{
    let mut t = toml::Table::new();
    for (k, v) in pairs.iter() {
        t.insert(k.clone(), toml::Value::String(v.clone()));
    }
    t.to_string()
}

/// What the parser returns for a given text: the parsed document, or the
/// parser's message.  Parsing is a function of the text alone.
pub uninterp spec fn parsed_of(text: Seq<char>) -> Result<crate::document::ValueModel, Seq<char>>;

/// Relies on `toml`'s parser (`str::parse::<toml::Table>`): text is parsed
/// into a generic table, or refused with a message; either way the outcome is
/// `parsed_of` the text.  The parsed table is carried over into the document
/// model by `value_from_toml`.
#[verifier::external_body]
pub fn parse_document(text: &str) -> (r: Result<crate::document::DocValue, String>)
    ensures
        match r {
            Ok(v) => v is Table && parsed_of(text@) == Ok::<
                crate::document::ValueModel,
                Seq<char>,
            >(v.model()),
            Err(m) => parsed_of(text@) == Err::<crate::document::ValueModel, Seq<char>>(m@),
        },
{
    match text.parse::<toml::Table>() {
        Ok(t) => Ok(value_from_toml(toml::Value::Table(t))),
        Err(e) => Err(e.to_string()),
    }
}

/// Carries a parsed `toml::Value` over into the document model, one variant
/// at a time; primitives the lockfile schema has no use for become `Other`.
#[verifier::external_body]
fn value_from_toml(v: toml::Value) -> crate::document::DocValue {
    match v {
        toml::Value::String(s) => crate::document::DocValue::Str(s),
        toml::Value::Array(a) => crate::document::DocValue::Arr(
            a.into_iter().map(value_from_toml).collect(),
        ),
        toml::Value::Table(t) => crate::document::DocValue::Table(
            t.into_iter().map(|(k, x)| (k, value_from_toml(x))).collect(),
        ),
        _ => crate::document::DocValue::Other,
    }
}

} // verus!
