use vstd::prelude::*;
use serde_json::Value;

verus! {

/// One JSON value as the reply parser reads it. The elements of an array and
/// the members of an object are kept as their compact JSON text, so that each
/// can be read again, one level at a time.
pub enum JsonNode {
    Null,
    Bool(bool),
    /// A number, with its value when it is a non-negative integer that fits a `u64`.
    Number(Option<u64>),
    Str(String),
    /// The compact JSON text of each element.
    Array(Vec<String>),
    /// Each member's name and the compact JSON text of its value.
    Object(Vec<(String, String)>),
}

/// The mathematical form of a [`JsonNode`].
pub enum JsonNodeView {
    Null,
    Bool(bool),
    Number(Option<u64>),
    Str(Seq<char>),
    Array(Seq<Seq<char>>),
    Object(Seq<(Seq<char>, Seq<char>)>),
}

impl View for JsonNode {
    type V = JsonNodeView;

    open spec fn view(&self) -> JsonNodeView {
        match self {
            JsonNode::Null => JsonNodeView::Null,
            JsonNode::Bool(b) => JsonNodeView::Bool(*b),
            JsonNode::Number(n) => JsonNodeView::Number(*n),
            JsonNode::Str(s) => JsonNodeView::Str(s@),
            JsonNode::Array(a) => JsonNodeView::Array(a@.map_values(|e: String| e@)),
            JsonNode::Object(o) => JsonNodeView::Object(o@.map_values(|p: (String, String)| (p.0@, p.1@))),
        }
    }
}

/// The view of an optional node.
pub open spec fn node_opt_view(r: Option<JsonNode>) -> Option<JsonNodeView> {
    match r {
        Some(n) => Some(n@),
        None => None,
    }
}

/// What `serde_json::from_str::<serde_json::Value>` makes of a text, read one
/// level deep: `None` where the text is not one JSON value.
pub uninterp spec fn json_parse(text: Seq<char>) -> Option<JsonNodeView>;

/// A lower-case hexadecimal digit.
pub open spec fn hex_digit(n: int) -> char {
    if n < 10 {
        (48 + n) as char
    } else {
        (97 + (n - 10)) as char
    }
}

/// How one character stands in a JSON string literal: the quote, the
/// backslash and the control characters are escaped (the short forms `\b`,
/// `\t`, `\n`, `\f`, `\r`, else `\u00` and two hex digits); every other
/// character stands as it is.
pub open spec fn json_escape_char(c: char) -> Seq<char> {
    if c == '"' {
        seq!['\\', '"']
    } else if c == '\\' {
        seq!['\\', '\\']
    } else if c == '\u{8}' {
        seq!['\\', 'b']
    } else if c == '\t' {
        seq!['\\', 't']
    } else if c == '\n' {
        seq!['\\', 'n']
    } else if c == '\u{c}' {
        seq!['\\', 'f']
    } else if c == '\r' {
        seq!['\\', 'r']
    } else if (c as int) < 32 {
        seq!['\\', 'u', '0', '0', hex_digit(c as int / 16), hex_digit(c as int % 16)]
    } else {
        seq![c]
    }
}

/// The characters of `s`, each as it stands in a JSON string literal.
pub open spec fn json_escaped(s: Seq<char>) -> Seq<char>
    decreases s.len(),
{
    if s.len() == 0 {
        seq![]
    } else {
        json_escaped(s.drop_last()) + json_escape_char(s.last())
    }
}

/// The JSON string literal that `serde_json::to_string` writes for a string:
/// the escaped characters between double quotes.
pub open spec fn json_string_literal(s: Seq<char>) -> Seq<char> {
    seq!['"'] + json_escaped(s) + seq!['"']
}

/// `serde_json::from_str` into a `serde_json::Value`, read one level deep: the
/// result is named `json_parse` of the text; which texts parse, and to what,
/// is serde_json's grammar and is not written out here.
#[verifier::external_body]
pub(crate) fn parse_json(text: &str) -> (r: Option<JsonNode>)
    ensures
        node_opt_view(r) == json_parse(text@),
{
    match serde_json::from_str::<Value>(text) {
        Ok(Value::Null) => Some(JsonNode::Null),
        Ok(Value::Bool(b)) => Some(JsonNode::Bool(b)),
        Ok(Value::Number(n)) => Some(JsonNode::Number(n.as_u64())),
        Ok(Value::String(s)) => Some(JsonNode::Str(s)),
        Ok(Value::Array(a)) => Some(JsonNode::Array(a.iter().map(|e| e.to_string()).collect())),
        Ok(Value::Object(m)) => Some(JsonNode::Object(m.iter().map(|(k, e)| (k.clone(), e.to_string())).collect())),
        Err(_) => None,
    }
}

/// `serde_json::to_string` of a string: its JSON string literal, as
/// `json_string_literal` spells it out. Writing a string into memory cannot
/// fail in serde_json, so the error arm is never taken.
#[verifier::external_body]
pub(crate) fn json_quote(s: &str) -> (r: String)
    ensures
        r@ == json_string_literal(s@),
{
    match serde_json::to_string(s) {
        Ok(t) => t,
        Err(_) => String::new(),
    }
}

} // verus!
