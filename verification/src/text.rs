//! The text boundary: raw document text in and out, through the outside
//! parser.  Everything past the tree is verified; the tree itself is obtained
//! from, and rendered by, `serde_json`.

use vstd::prelude::*;

use crate::data::DataMessage;
use crate::fields::ParseError;
use crate::codec::JsonForm;
use crate::json::{JVal, JsonValue, jview};
use crate::message::StructureMessage;
use crate::metadata::MetadataMessage;
use serde_json::Value;

verus! {

#[verifier::external_type_specification]
#[verifier::external_body]
pub struct ExValue(Value);

/// The document tree a piece of text denotes, if it is well formed: the
/// outside parser's result depends on the text alone.
pub uninterp spec fn json_tree_of(s: Seq<char>) -> Option<JsonValue>;

/// The text a document tree renders to: the outside renderer's result
/// depends on the tree alone.
pub uninterp spec fn json_text_of(v: JVal) -> Seq<char>;

/// Relies on `serde_json::from_str`: parses the text into a generic value,
/// deterministically in the text alone; ill-formed text is refused.
#[verifier::external_body]
fn decode_json(s: &str) -> (r: Option<JsonValue>)
    ensures
        r == json_tree_of(s@),
{
    match serde_json::from_str::<Value>(s) {
        Ok(v) => Some(value_to_tree(v)),
        Err(_) => None,
    }
}

/// Relies on `serde_json::Value`: converts the outside crate's generic value
/// into the library's document tree, variant for variant; a number that is
/// not an integer is carried as its decimal text.
#[verifier::external_body]
fn value_to_tree(v: Value) -> JsonValue {
    match v {
        Value::Null => JsonValue::Null,
        Value::Bool(b) => JsonValue::Bool(b),
        Value::Number(n) => match (n.as_i64(), n.as_u64()) {
            (Some(i), _) => JsonValue::Int(i),
            (None, Some(u)) => JsonValue::UInt(u),
            _ => JsonValue::Num(n.to_string()),
        },
        Value::String(s) => JsonValue::Str(s),
        Value::Array(a) => JsonValue::Arr(a.into_iter().map(value_to_tree).collect()),
        Value::Object(m) => JsonValue::Obj(m.into_iter().map(|(k, x)| (k, value_to_tree(x))).collect()),
    }
}

/// Relies on `serde_json::Value`: converts the library's document tree back
/// into the outside crate's generic value, variant for variant.  The outside
/// map holds one value per key, so an object carrying two fields of one name
/// collapses to the last when rendered as text.
#[verifier::external_body]
fn tree_to_value(v: &JsonValue) -> Value {
    match v {
        JsonValue::Null => Value::Null,
        JsonValue::Bool(b) => Value::Bool(*b),
        JsonValue::Int(i) => Value::from(*i),
        JsonValue::UInt(u) => Value::from(*u),
        JsonValue::Num(s) => serde_json::from_str::<Value>(s).unwrap_or(Value::String(s.clone())),
        JsonValue::Str(s) => Value::String(s.clone()),
        JsonValue::Arr(a) => Value::Array(a.iter().map(tree_to_value).collect()),
        JsonValue::Obj(o) => Value::Object(o.iter().map(|(k, x)| (k.clone(), tree_to_value(x))).collect()),
    }
}

/// Relies on `serde_json::to_string`: renders the tree as text,
/// deterministically in the tree alone; field order is kept as given.
#[verifier::external_body]
fn encode_json(v: &JsonValue) -> (r: String)
    ensures
        r@ == json_text_of(jview(*v)),
{
    match serde_json::to_string(&tree_to_value(v)) {
        Ok(t) => t,
        Err(_) => String::new(),
    }
}

/// Parses document text into a tree; ill-formed text is the one failure.
pub fn document_from_text(s: &str) -> (r: Result<JsonValue, ParseError>)
    ensures
        (r is Ok) == (json_tree_of(s@) is Some),
        r matches Ok(v) ==> json_tree_of(s@) == Some(v),
        r matches Err(e) ==> e is Syntax,
{
    match decode_json(s) {
        Some(v) => Ok(v),
        None => Err(ParseError::Syntax("the text is not a well-formed document".to_owned())),
    }
}

/// Renders a tree as document text.
pub fn document_to_text(v: &JsonValue) -> (r: String)
    ensures
        r@ == json_text_of(jview(*v)),
{
    encode_json(v)
}

/// Parses a data message from document text.
pub fn parse_data_message(s: &str) -> (r: Result<DataMessage, ParseError>)
    ensures
        (r is Ok) == (json_tree_of(s@) matches Some(v) && DataMessage::doc_ok(jview(v))),
        r matches Ok(m) ==> m.wf() && (json_tree_of(s@) matches Some(v) && m.ser()
            == DataMessage::doc_norm(jview(v))),
{
    match document_from_text(s) {
        Ok(v) => DataMessage::from_json(v),
        Err(e) => Err(e),
    }
}

/// Parses a metadata message from document text.
pub fn parse_metadata_message(s: &str) -> (r: Result<MetadataMessage, ParseError>)
    ensures
        (r is Ok) == (json_tree_of(s@) matches Some(v) && MetadataMessage::doc_ok(jview(v))),
        r matches Ok(m) ==> m.wf() && (json_tree_of(s@) matches Some(v) && m.ser()
            == MetadataMessage::doc_norm(jview(v))),
{
    match document_from_text(s) {
        Ok(v) => MetadataMessage::from_json(v),
        Err(e) => Err(e),
    }
}

/// Parses a structure message from document text.
pub fn parse_structure_message(s: &str) -> (r: Result<StructureMessage, ParseError>)
    ensures
        (r is Ok) == (json_tree_of(s@) matches Some(v) && StructureMessage::doc_ok(jview(v))),
        r matches Ok(m) ==> m.wf() && (json_tree_of(s@) matches Some(v) && m.ser()
            == StructureMessage::doc_norm(jview(v))),
{
    match document_from_text(s) {
        Ok(v) => StructureMessage::from_json(v),
        Err(e) => Err(e),
    }
}

/// Renders a data message as document text.
pub fn render_data_message(m: &DataMessage) -> (r: String)
    ensures
        r@ == json_text_of(m.ser()),
{
    let v = m.to_json();
    document_to_text(&v)
}

/// Renders a metadata message as document text.
pub fn render_metadata_message(m: &MetadataMessage) -> (r: String)
    ensures
        r@ == json_text_of(m.ser()),
{
    let v = m.to_json();
    document_to_text(&v)
}

/// Renders a structure message as document text.
pub fn render_structure_message(m: &StructureMessage) -> (r: String)
    ensures
        r@ == json_text_of(m.ser()),
{
    let v = m.to_json();
    document_to_text(&v)
}

} // verus!
