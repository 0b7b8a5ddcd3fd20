use vstd::prelude::*;

verus! {

/// A JSON value as a JSON parser read it, together with `text`, its compact
/// rendering by that same library (no whitespace, members in order).
pub struct JsonValue {
    pub node: JsonNode,
    pub text: String,
}

/// The shape of a JSON value.
pub enum JsonNode {
    Null,
    Bool(bool),
    /// A number; its digits are the value's `text`.
    Number,
    /// A string, unescaped.
    Str(String),
    Array(Vec<JsonValue>),
    Object(Vec<JsonMember>),
}

/// One `"key": value` member of a JSON object.
pub struct JsonMember {
    pub key: String,
    pub value: JsonValue,
}

/// A JSON document: its value and the library's indented rendering of it.
pub struct JsonDoc {
    pub value: JsonValue,
    pub pretty: String,
}

} // verus!
