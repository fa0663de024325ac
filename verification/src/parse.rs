//! Parsing JSON text, through serde_json.
//!
//! The parser is outside code; its result is named, so every later stage is
//! verified for whatever value comes back, and two parses of one text are
//! one value.

use vstd::prelude::*;

use crate::json::{Json, JsonModel};

verus! {

#[verifier::external_type_specification]
#[verifier::external_body]
pub struct ExValue(serde_json::Value);

/// The model of the value that parsing yields, `None` where the text is
/// rejected.  Object keys come back sorted and unique, and number tokens in
/// the parser's rendering.
pub uninterp spec fn parse_of(s: Seq<char>) -> Option<JsonModel>;

/// The parser's message for a rejected text.
pub uninterp spec fn parse_err_of(s: Seq<char>) -> Seq<char>;

/// Relies on serde_json::Value: one arm per variant, moving the fields into
/// the library's own value type; numbers are rendered by serde_json.
#[verifier::external_body]
fn value_to_json(v: &serde_json::Value) -> Json {
    match v {
        serde_json::Value::Null => Json::Null,
        serde_json::Value::Bool(b) => Json::Bool(*b),
        serde_json::Value::Number(n) => Json::Num(n.to_string()),
        serde_json::Value::String(s) => Json::Str(s.clone()),
        serde_json::Value::Array(a) => Json::Arr(a.iter().map(|x| value_to_json(x)).collect()),
        serde_json::Value::Object(o) => Json::Obj(
            o.iter().map(|(k, x)| (k.clone(), value_to_json(x))).collect(),
        ),
    }
}

/// Relies on serde_json::from_str: parses JSON text; the result is a function
/// of the text alone.
#[verifier::external_body]
pub fn parse_json(s: &str) -> (r: Result<Json, String>)
    ensures
        r matches Ok(v) ==> parse_of(s@) == Some(v@),
        r matches Err(e) ==> parse_of(s@) is None && e@ == parse_err_of(s@),
{
    match serde_json::from_str::<serde_json::Value>(s) {
        Ok(v) => Ok(value_to_json(&v)),
        Err(e) => Err(e.to_string()),
    }
}

/// The decimal form of a number token read as a double-precision value,
/// `None` where the token is not a JSON number.
pub uninterp spec fn float_form_of(s: Seq<char>) -> Option<Seq<char>>;

/// Relies on serde_json::Number: parses a decimal token, takes its
/// double-precision value and renders it in Rust's default decimal form.
#[verifier::external_body]
pub fn float_render(s: &str) -> (r: Option<String>)
    ensures
        r matches Some(t) ==> float_form_of(s@) == Some(t@),
        r is None ==> float_form_of(s@) is None,
{
    match serde_json::from_str::<serde_json::Number>(s) {
        Ok(n) => n.as_f64().map(|x| x.to_string()),
        Err(_) => None,
    }
}

} // verus!
