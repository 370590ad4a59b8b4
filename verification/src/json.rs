//! Structured values as they come in requests and go out in answers.
use vstd::prelude::*;

verus! {

/// A structured value. A number is held in its written form.
#[derive(Debug, PartialEq, Eq)]
pub enum JsonValue {
    Null,
    Bool(bool),
    Number(String),
    Text(String),
    Array(Vec<JsonValue>),
    Object(Vec<(String, JsonValue)>),
}

/// The text of a value that is a string, a number or a truth value.
pub open spec fn scalar_text(v: JsonValue) -> Option<Seq<char>> {
    match v {
        JsonValue::Text(s) => Some(s@),
        JsonValue::Number(n) => Some(n@),
        JsonValue::Bool(b) => Some(
            if b {
                "true"@
            } else {
                "false"@
            },
        ),
        _ => None,
    }
}

impl JsonValue {
    /// The text of a value that is a string, a number or a truth value.
    pub fn scalar(&self) -> (r: Option<String>)
        ensures
            match r {
                Some(s) => scalar_text(*self) == Some(s@),
                None => scalar_text(*self) is None,
            },
    {
        match self {
            JsonValue::Text(s) => Some(s.clone()),
            JsonValue::Number(n) => Some(n.clone()),
            JsonValue::Bool(b) => Some(
                if *b {
                    "true".to_owned()
                } else {
                    "false".to_owned()
                },
            ),
            _ => None,
        }
    }

    /// Whether the value is the null value.
    pub fn is_null(&self) -> (r: bool)
        ensures
            r == (*self is Null),
    {
        match self {
            JsonValue::Null => true,
            _ => false,
        }
    }
}

/// A text value with the given content.
pub fn text_value(s: &str) -> (r: JsonValue)
    ensures
        r is Text,
        r->Text_0@ == s@,
{
    JsonValue::Text(s.to_owned())
}

/// Strings, numbers and truth values have a text, and nothing else has.
pub proof fn law_scalars_have_a_text(v: JsonValue)
    ensures
        scalar_text(v) is Some <==> v is Text || v is Number || v is Bool,
        v is Text ==> scalar_text(v) == Some(v->Text_0@),
        v is Number ==> scalar_text(v) == Some(v->Number_0@),
        v == JsonValue::Bool(true) ==> scalar_text(v) == Some("true"@),
        v == JsonValue::Bool(false) ==> scalar_text(v) == Some("false"@),
{
}

} // verus!
