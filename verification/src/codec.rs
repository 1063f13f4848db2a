//! The bridge to serde_json: rendering a JSON value as text and parsing
//! text back into a value.

use vstd::prelude::*;
use serde_json::Value as SerdeValue;
use serde_json::Number as SerdeNumber;
use crate::json::{JsonValue, JsonSpec, json_keys_unique, json_depth, json_nums_canonical};

verus! {

/// serde_json's own value type, declared so that the conversion helpers
/// below can name it. Verus sees nothing inside a value of it.
#[verifier::external_type_specification]
#[verifier::external_body]
pub struct ExSerdeValue(serde_json::Value);

/// serde_json's own number type, declared for the same reason.
#[verifier::external_type_specification]
#[verifier::external_body]
pub struct ExSerdeNumber(serde_json::Number);

/// The text that rendering a JSON value produces.
pub uninterp spec fn rendered_json(v: JsonSpec) -> Seq<char>;

/// The value that a piece of text parses to: `None` where the text is not
/// JSON the parser accepts (it refuses nesting deeper than its limit).
pub uninterp spec fn parsed_json(s: Seq<char>) -> Option<JsonSpec>;

/// The decimal texts serde_json itself writes for numbers: what `Num`
/// payloads made by the parser look like. With serde_json's
/// correctly-rounded float parsing turned on, such a text reads back as
/// the same number and is written out the same way again.
pub uninterp spec fn canonical_number_text(s: Seq<char>) -> bool;

/// Relies on serde_json::Value's constructors: rebuilds the value in
/// serde_json's own representation, field order kept. An opaque number is
/// read back from its text; text that is no number at all becomes null.
#[verifier::external_body]
fn to_serde(v: &JsonValue) -> SerdeValue {
    match v {
        JsonValue::Null => SerdeValue::Null,
        JsonValue::Bool(b) => SerdeValue::Bool(*b),
        JsonValue::Int(i) => SerdeValue::Number(SerdeNumber::from(*i)),
        JsonValue::Num(n) => serde_json::from_str::<SerdeNumber>(n)
            .map(SerdeValue::Number).unwrap_or(SerdeValue::Null),
        JsonValue::Str(s) => SerdeValue::String(s.clone()),
        JsonValue::Arr(items) => SerdeValue::Array(items.iter().map(to_serde).collect()),
        JsonValue::Obj(fields) => SerdeValue::Object(
            fields.iter().map(|f| (f.0.clone(), to_serde(&f.1))).collect(),
        ),
    }
}

/// Relies on serde_json::Number's accessors: an integer fitting `i64`
/// becomes one; any other number keeps its canonical text.
#[verifier::external_body]
fn from_serde_num(n: &SerdeNumber) -> JsonValue {
    match n.as_i64() {
        Some(i) => JsonValue::Int(i),
        None => JsonValue::Num(n.to_string()),
    }
}

/// Relies on serde_json::Value's accessors: rebuilds the value as the
/// library holds it.
#[verifier::external_body]
fn from_serde(v: &SerdeValue) -> Option<JsonValue> {
    match v {
        SerdeValue::Null => Some(JsonValue::Null),
        SerdeValue::Bool(b) => Some(JsonValue::Bool(*b)),
        SerdeValue::Number(n) => Some(from_serde_num(n)),
        SerdeValue::String(s) => Some(JsonValue::Str(s.clone())),
        SerdeValue::Array(a) => a.iter().map(from_serde).collect::<Option<Vec<JsonValue>>>().map(
            JsonValue::Arr,
        ),
        SerdeValue::Object(o) => o.iter().map(
            |f| from_serde(f.1).map(|w| (f.0.clone(), w)),
        ).collect::<Option<Vec<(String, JsonValue)>>>().map(JsonValue::Obj),
    }
}

/// Relies on serde_json::to_string: the text is a function of the value
/// alone. serde_json parses its own rendering back to the same value only
/// within limits its source sets: field order is kept but repeated keys
/// collapse (so keys must be unique), the parser refuses nesting beyond
/// 128 levels while the writer has no such bound, and an opaque number
/// must carry the parser's own canonical text — which reads back as the
/// same number only because the build turns on serde_json's
/// correctly-rounded float parsing (its `float_roundtrip` feature);
/// the default best-effort float parse does not round-trip the writer's
/// shortest texts.
#[verifier::external_body]
pub(crate) fn render_json(v: &JsonValue) -> (r: String)
    ensures
        r@ == rendered_json(v.deep_view()),
        (json_keys_unique(v.deep_view()) && json_depth(v.deep_view()) < 128
            && json_nums_canonical(v.deep_view())) ==> parsed_json(r@) == Some(v.deep_view()),
{
    to_serde(v).to_string()
}

/// Relies on serde_json::from_str: whether text parses, and to what value,
/// is a function of the text alone. Every opaque number it hands back
/// carries serde_json's own rendering of that number.
#[verifier::external_body]
pub(crate) fn parse_json(s: &str) -> (r: Option<JsonValue>)
    ensures
        match r {
            Some(v) => parsed_json(s@) == Some(v.deep_view()) && json_nums_canonical(
                v.deep_view(),
            ),
            None => parsed_json(s@) is None,
        },
        r matches Some(v) ==> (v.deep_view() matches JsonSpec::Num(t) ==> canonical_number_text(
            t,
        )),
{
    serde_json::from_str::<SerdeValue>(s).ok().and_then(|v| from_serde(&v))
}

} // verus!
