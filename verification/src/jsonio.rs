//! Trusted access to JSON values through serde_json, specified against a
//! mathematical model of JSON documents.
//!
//! `json_doc_of` names the document a reply text parses to, and
//! `json_view_of` names the document a parsed value represents; both are
//! functions of their argument alone.  Each accessor's contract says what
//! it hands out of that document, so the verified reply readers can state
//! exactly what they return for every reply text.

use vstd::prelude::*;

verus! {

#[verifier::external_type_specification]
#[verifier::external_body]
pub struct ExValue(serde_json::Value);

/// The mathematical shape of a JSON document.
pub enum JsonView {
    /// The null value.
    Null,
    /// A boolean.
    BoolValue(bool),
    /// A number that reads as a 64-bit signed integer.
    IntValue(int),
    /// A number that does not: an unsigned value above the signed range,
    /// or a floating-point value.
    OtherNumber,
    /// A string.
    StringValue(Seq<char>),
    /// An array.
    ArrayValue(Seq<JsonView>),
    /// An object, keyed by its member names.
    ObjectValue(Map<Seq<char>, JsonView>),
}

/// The document a parsed value represents.
pub uninterp spec fn json_view_of(v: serde_json::Value) -> JsonView;

/// The document a JSON text parses to, a function of the text alone;
/// nothing for malformed or over-deep input.
pub uninterp spec fn json_doc_of(s: Seq<char>) -> Option<JsonView>;

/// The JSON string literal (quotes and escapes included) that encodes `s`.
pub uninterp spec fn json_string_of(s: Seq<char>) -> Seq<char>;

/// The member of an object document under a key; nothing for a missing
/// key or a non-object document.
pub open spec fn doc_field(doc: JsonView, key: Seq<char>) -> Option<JsonView> {
    match doc {
        JsonView::ObjectValue(m) => if m.dom().contains(key) {
            Some(m[key])
        } else {
            None
        },
        _ => None,
    }
}

/// Whether a reply text carries a true boolean under a key; a malformed
/// reply, a missing key or a non-boolean member all read as false.
pub open spec fn doc_flag_of(body: Seq<char>, key: Seq<char>) -> bool {
    match json_doc_of(body) {
        Some(doc) => match doc_field(doc, key) {
            Some(JsonView::BoolValue(b)) => b,
            _ => false,
        },
        None => false,
    }
}

/// The integer a reply text carries under a key, when it carries one.
pub open spec fn doc_int_of(body: Seq<char>, key: Seq<char>) -> Option<int> {
    match json_doc_of(body) {
        Some(doc) => match doc_field(doc, key) {
            Some(JsonView::IntValue(n)) => Some(n),
            _ => None,
        },
        None => None,
    }
}

/// The string a reply text carries under a key, when it carries one.
pub open spec fn doc_string_of(body: Seq<char>, key: Seq<char>) -> Option<Seq<char>> {
    match json_doc_of(body) {
        Some(doc) => match doc_field(doc, key) {
            Some(JsonView::StringValue(t)) => Some(t),
            _ => None,
        },
        None => None,
    }
}

/// Relies on `serde_json::from_str::<Value>`: parses JSON text into a
/// value tree; success and result depend on the text alone, and malformed
/// or over-deep input fails instead of panicking.
#[verifier::external_body]
pub fn json_parse(s: &str) -> (r: Option<serde_json::Value>)
    ensures
        r is Some <==> json_doc_of(s@) is Some,
        r is Some ==> json_view_of(r->0) == json_doc_of(s@)->0,
{
    serde_json::from_str::<serde_json::Value>(s).ok()
}

/// Relies on `serde_json::Value::get` with a string index: the member of
/// a JSON object under that key, and nothing for a missing key or a
/// non-object value.
#[verifier::external_body]
pub fn json_get<'a>(v: &'a serde_json::Value, key: &str) -> (r: Option<&'a serde_json::Value>)
    ensures
        match json_view_of(*v) {
            JsonView::ObjectValue(m) => (r is Some <==> m.dom().contains(key@)) && (r is Some
                ==> json_view_of(*r->0) == m[key@]),
            _ => r is None,
        },
{
    v.get(key)
}

/// Relies on `serde_json::Value::get` with a numeric index: the element of
/// a JSON array, and nothing for an index out of range or a non-array
/// value.
#[verifier::external_body]
pub fn json_at<'a>(v: &'a serde_json::Value, i: usize) -> (r: Option<&'a serde_json::Value>)
    ensures
        match json_view_of(*v) {
            JsonView::ArrayValue(a) => (r is Some <==> i < a.len()) && (r is Some ==> json_view_of(
                *r->0,
            ) == a[i as int]),
            _ => r is None,
        },
{
    v.get(i)
}

/// Relies on `serde_json::Value::as_bool`: the value of a JSON boolean.
#[verifier::external_body]
pub fn json_as_bool(v: &serde_json::Value) -> (r: Option<bool>)
    ensures
        match json_view_of(*v) {
            JsonView::BoolValue(b) => r == Some(b),
            _ => r is None,
        },
{
    v.as_bool()
}

/// Relies on `serde_json::Value::as_i64`: the value of a JSON number that
/// fits in 64 signed bits; other numbers read as nothing.
#[verifier::external_body]
pub fn json_as_i64(v: &serde_json::Value) -> (r: Option<i64>)
    ensures
        match json_view_of(*v) {
            JsonView::IntValue(n) => r is Some && r->0 == n,
            _ => r is None,
        },
{
    v.as_i64()
}

/// Relies on `serde_json::Value::as_str`: the text of a JSON string.
#[verifier::external_body]
pub fn json_as_string(v: &serde_json::Value) -> (r: Option<String>)
    ensures
        match json_view_of(*v) {
            JsonView::StringValue(t) => r is Some && r->0@ == t,
            _ => r is None,
        },
{
    match v.as_str() {
        Some(s) => Some(s.to_owned()),
        None => None,
    }
}

/// Relies on `serde_json::Value::as_array`: the elements of a JSON array.
#[verifier::external_body]
pub fn json_as_array<'a>(v: &'a serde_json::Value) -> (r: Option<&'a Vec<serde_json::Value>>)
    ensures
        match json_view_of(*v) {
            JsonView::ArrayValue(a) => r is Some && r->0@.len() == a.len() && forall|i: int|
                0 <= i < a.len() ==> json_view_of(#[trigger] r->0@[i]) == a[i],
            _ => r is None,
        },
{
    v.as_array()
}

/// Relies on `serde_json::to_string` for `str`, which serialises a string
/// to its quoted, escaped JSON literal; the result depends on the
/// characters alone, and serialising a string does not fail.
#[verifier::external_body]
pub fn json_quote(s: &str) -> (r: String)
    ensures
        r@ == json_string_of(s@),
{
    match serde_json::to_string(s) {
        Ok(quoted) => quoted,
        Err(_) => String::new(),
    }
}

} // verus!
