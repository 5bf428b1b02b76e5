//! The boundary to the JSON text format.
//!
//! Parsing and printing are done by serde_json behind the trusted items
//! of this module; everything else in the crate is verified against the
//! contracts stated here.

use vstd::prelude::*;

use crate::json::{entry_list_depth, view_of_entries, wf_entries, wf_value, Json, JsonV};

verus! {

/// The text that the pretty-printer produces for a document with the
/// given entries: `serde_json::to_string_pretty` of the corresponding
/// object.
pub uninterp spec fn rendered_doc(es: Seq<(Seq<char>, JsonV)>) -> Seq<char>;

/// The token the number scanner stores for a given token text: the same
/// digits, with the exponent respelled as a lower-case `e` and an
/// explicit sign; a token already in that form is kept verbatim.
pub uninterp spec fn norm_token_of(s: Seq<char>) -> Seq<char>;

/// The parser's recursion budget: it refuses to enter a nested array or
/// object once this many levels, the top-level document object included,
/// have been opened.
pub const PARSE_DEPTH_LIMIT: u8 = 128;

/// What `serde_json::from_str::<Value>` makes of a text: the parsed
/// value, converted to the model, or `None` when the text is rejected.
pub uninterp spec fn parsed_value_of(s: Seq<char>) -> Option<JsonV>;

#[verifier::external_type_specification]
#[verifier::external_body]
pub struct ExValue(serde_json::Value);

/// Conversion half of the parsing wrappers below. Relies on
/// `serde_json::Value` field access and `Number::as_i64`, which under the
/// `arbitrary_precision` feature parses the stored token as an `i64`, so
/// every number that fits an `i64` lands in `Json::Int` and any other
/// carries the token the scanner stored into `Json::Num`.
#[verifier::external_body]
fn value_to_json(v: &serde_json::Value) -> Json {
    match v {
        serde_json::Value::Null => Json::Null,
        serde_json::Value::Bool(b) => Json::Bool(*b),
        serde_json::Value::Number(n) => match n.as_i64() {
            Some(i) => Json::Int(i),
            None => Json::Num(n.to_string()),
        },
        serde_json::Value::String(s) => Json::Str(s.clone()),
        serde_json::Value::Array(a) => Json::Arr(a.iter().map(value_to_json).collect()),
        serde_json::Value::Object(o) => Json::Obj(
            o.iter().map(|(k, w)| (k.clone(), value_to_json(w))).collect(),
        ),
    }
}

/// Conversion half of the printing wrapper below. Relies on
/// `serde_json::Value` construction; a `Json::Num` token is turned back
/// into a `Number`, which under `arbitrary_precision` stores it as
/// scanned — unchanged for the normalized tokens the library holds.
#[verifier::external_body]
fn json_to_value(j: &Json) -> serde_json::Value {
    match j {
        Json::Null => serde_json::Value::Null,
        Json::Bool(b) => serde_json::Value::Bool(*b),
        Json::Int(n) => serde_json::Value::Number(serde_json::Number::from(*n)),
        Json::Num(s) => match serde_json::from_str::<serde_json::Number>(s) {
            Ok(n) => serde_json::Value::Number(n),
            Err(_) => serde_json::Value::Null,
        },
        Json::Str(s) => serde_json::Value::String(s.clone()),
        Json::Arr(items) => serde_json::Value::Array(items.iter().map(json_to_value).collect()),
        Json::Obj(es) => serde_json::Value::Object(
            es.iter().map(|(k, v)| (k.clone(), json_to_value(v))).collect(),
        ),
    }
}

/// Relies on `serde_json::from_str::<Map<String, Value>>`: a parsed
/// document comes back with its keys sorted and unique (the map is a
/// `BTreeMap`), numbers split into `Int` and normalized `Num` tokens, so
/// the result is well-formed; and parsing the rendering of a well-formed
/// document whose number tokens are already normalized, and which nests
/// within the parser's recursion limit, returns exactly that document.
#[verifier::external_body]
pub(crate) fn doc_from_text(s: &str) -> (r: Result<Vec<(String, Json)>, String>)
    ensures
        r matches Ok(es) ==> wf_entries(view_of_entries(es@)),
        forall|es: Seq<(Seq<char>, JsonV)>|
            wf_entries(es) && 1 + entry_list_depth(es) < PARSE_DEPTH_LIMIT && s@
                == rendered_doc(es).push('\n') ==> r is Ok && view_of_entries((r->Ok_0)@) == es,
{
    match serde_json::from_str::<serde_json::Map<String, serde_json::Value>>(s) {
        Ok(map) => Ok(map.iter().map(|(k, v)| (k.clone(), value_to_json(v))).collect()),
        Err(e) => Err(e.to_string()),
    }
}

/// Relies on `serde_json::to_string_pretty`: printing a `Value` object
/// never fails, and its output always opens with a brace.
#[verifier::external_body]
pub(crate) fn doc_to_text(entries: &Vec<(String, Json)>) -> (r: String)
    ensures
        wf_entries(view_of_entries(entries@)) ==> r@ == rendered_doc(view_of_entries(entries@)),
        r@.len() > 0 && r@[0] == '{',
{
    let map: serde_json::Map<String, serde_json::Value> = entries
        .iter()
        .map(|(k, v)| (k.clone(), json_to_value(v)))
        .collect();
    serde_json::to_string_pretty(&serde_json::Value::Object(map)).unwrap_or_default()
}

/// Relies on `serde_json::from_str::<Value>`: one JSON value parsed from
/// a text, in well-formed model shape, or the parser's message.
#[verifier::external_body]
pub(crate) fn value_from_text(s: &str) -> (r: Result<Json, String>)
    ensures
        r is Ok <==> parsed_value_of(s@) is Some,
        r matches Ok(v) ==> Some(v.deep_view()) == parsed_value_of(s@) && wf_value(v.deep_view()),
{
    match serde_json::from_str::<serde_json::Value>(s) {
        Ok(v) => Ok(value_to_json(&v)),
        Err(e) => Err(e.to_string()),
    }
}

/// Relies on `serde_json::from_str::<Number>`: it accepts exactly a JSON
/// number token, optionally surrounded by JSON whitespace. Under the
/// `arbitrary_precision` feature the scanner stores the token with its
/// integer and fraction parts verbatim and its exponent respelled as a
/// lower-case `e` with an explicit sign, and prints that stored token;
/// a token that `i64` parsing rejects stays rejected in that form, since
/// only exponent-carrying tokens are respelled.
#[verifier::external_body]
pub(crate) fn num_token(s: &str) -> (r: Option<String>)
    ensures
        match r {
            Some(t) => {
                &&& crate::json::json_num_token(crate::text::trim_spec(s@))
                &&& t@ == norm_token_of(crate::text::trim_spec(s@))
                &&& crate::json::norm_num_token(t@)
                &&& (crate::text::spec_parse_i64(crate::text::trim_spec(s@)) is None
                    ==> crate::text::spec_parse_i64(t@) is None)
            },
            None => !crate::json::json_num_token(crate::text::trim_spec(s@)),
        },
{
    match serde_json::from_str::<serde_json::Number>(s) {
        Ok(n) => Some(n.to_string()),
        Err(_) => None,
    }
}

/// Relies on `i64::to_string`: the decimal rendering of an integer.
#[verifier::external_body]
pub(crate) fn i64_token(n: i64) -> (r: String)
    ensures
        r@ == crate::text::dec_str(n as int),
{
    n.to_string()
}

} // verus!

verus! {

/// Relies on `usize::to_string`: the decimal rendering of an index.
#[verifier::external_body]
pub(crate) fn usize_token(n: usize) -> (r: String)
    ensures
        r@ == crate::text::dec_str(n as int),
{
    n.to_string()
}

} // verus!
