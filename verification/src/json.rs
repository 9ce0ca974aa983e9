//! JSON values as the logic reads them.
//!
//! Numbers are held in their textual form.
use vstd::prelude::*;

verus! {

/// A JSON value; object members keep the order in which they were read.
#[derive(Debug, PartialEq, Eq)]
pub enum JsonValue {
    Null,
    Bool(bool),
    Number(String),
    String(String),
    Array(Vec<JsonValue>),
    Object(Vec<JsonMember>),
}

/// A member of a JSON object: its key and its value.
#[derive(Debug, PartialEq, Eq)]
pub struct JsonMember {
    pub key: String,
    pub value: JsonValue,
}

/// The abstract value of a [`JsonValue`].
pub enum JsonView {
    Null,
    Bool(bool),
    Number(Seq<char>),
    String(Seq<char>),
    Array(Seq<JsonView>),
    /// The keys of the members, then their values, in the same order.
    Object(Seq<Seq<char>>, Seq<JsonView>),
}

impl View for JsonValue {
    type V = JsonView;

    open spec fn view(&self) -> JsonView
        decreases self,
    {
        match self {
            JsonValue::Null => JsonView::Null,
            JsonValue::Bool(b) => JsonView::Bool(*b),
            JsonValue::Number(n) => JsonView::Number(n@),
            JsonValue::String(s) => JsonView::String(s@),
            JsonValue::Array(xs) => JsonView::Array(
                Seq::new(
                    xs@.len(),
                    |i: int|
                        if 0 <= i < xs@.len() {
                            xs@[i].view()
                        } else {
                            JsonView::Null
                        },
                ),
            ),
            JsonValue::Object(ms) => JsonView::Object(
                Seq::new(ms@.len(), |i: int| ms@[i].key@),
                Seq::new(
                    ms@.len(),
                    |i: int|
                        if 0 <= i < ms@.len() {
                            ms@[i].value.view()
                        } else {
                            JsonView::Null
                        },
                ),
            ),
        }
    }
}

impl Clone for JsonValue {
    #[verifier::loop_isolation(false)]
    fn clone(&self) -> (r: Self)
        ensures
            r@ == self@,
        decreases self,
    {
        match self {
            JsonValue::Null => JsonValue::Null,
            JsonValue::Bool(b) => JsonValue::Bool(*b),
            JsonValue::Number(n) => JsonValue::Number(n.clone()),
            JsonValue::String(s) => JsonValue::String(s.clone()),
            JsonValue::Array(xs) => {
                let mut out: Vec<JsonValue> = Vec::new();
                let mut i: usize = 0;
                while i < xs.len()
                    invariant
                        0 <= i <= xs@.len(),
                        out@.len() == i,
                        forall|j: int| 0 <= j < i ==> (#[trigger] out@[j])@ == xs@[j]@,
                    decreases xs.len() - i,
                {
                    proof {
                        assert(decreases_to!(self => xs@[i as int]));
                    }
                    out.push(xs[i].clone());
                    i = i + 1;
                }
                let r = JsonValue::Array(out);
                assert(r@ == self@) by {
                    if let JsonView::Array(a) = r@ {
                        if let JsonView::Array(b) = self@ {
                            assert(a =~= b);
                        }
                    }
                }
                r
            },
            JsonValue::Object(ms) => {
                let mut out: Vec<JsonMember> = Vec::new();
                let mut i: usize = 0;
                while i < ms.len()
                    invariant
                        0 <= i <= ms@.len(),
                        out@.len() == i,
                        forall|j: int|
                            0 <= j < i ==> (#[trigger] out@[j]).key@ == ms@[j].key@
                                && out@[j].value@ == ms@[j].value@,
                    decreases ms.len() - i,
                {
                    proof {
                        assert(decreases_to!(self => ms@[i as int].value));
                    }
                    let key = ms[i].key.clone();
                    let value = ms[i].value.clone();
                    out.push(JsonMember { key, value });
                    i = i + 1;
                }
                let r = JsonValue::Object(out);
                assert(r@ == self@) by {
                    if let JsonView::Object(ka, va) = r@ {
                        if let JsonView::Object(kb, vb) = self@ {
                            assert(ka =~= kb);
                            assert(va =~= vb);
                        }
                    }
                }
                r
            },
        }
    }
}

} // verus!

verus! {

/// The compact JSON text of the value that `text` holds, if `text` is JSON: the result of
/// `serde_json::from_str::<serde_json::Value>` rendered by the value's `Display`.
pub uninterp spec fn spec_json_compact(text: Seq<char>) -> Option<Seq<char>>;

/// The lowercase hexadecimal digit of `n` (below 16).
pub open spec fn hex_digit(n: int) -> char {
    if n < 10 {
        (48 + n) as char
    } else {
        (87 + n) as char
    }
}

/// How `serde_json` writes a character inside a string: `"` and `\` behind a backslash, the
/// control characters with a short escape as `\b`, `\t`, `\n`, `\f`, `\r`, the other
/// control characters below 0x20 as `\u00` and two lowercase hexadecimal digits, every other
/// character as itself.
pub open spec fn escaped_char(c: char) -> Seq<char> {
    if c == '"' {
        seq!['\\', '"']
    } else if c == '\\' {
        seq!['\\', '\\']
    } else if c == '\u{8}' {
        seq!['\\', 'b']
    } else if c == '\t' {
        seq!['\\', 't']
    } else if c == '\n' {
        seq!['\\', 'n']
    } else if c == '\u{c}' {
        seq!['\\', 'f']
    } else if c == '\r' {
        seq!['\\', 'r']
    } else if (c as int) < 0x20 {
        seq!['\\', 'u', '0', '0', hex_digit((c as int) / 16), hex_digit((c as int) % 16)]
    } else {
        seq![c]
    }
}

/// The characters of `s`, each written as inside a JSON string.
pub open spec fn escaped(s: Seq<char>) -> Seq<char>
    decreases s.len(),
{
    if s.len() == 0 {
        Seq::empty()
    } else {
        escaped_char(s[0]) + escaped(s.drop_first())
    }
}

/// The JSON string literal for `s`, as `serde_json` writes it: `s` escaped between quotes.
pub open spec fn spec_json_string(s: Seq<char>) -> Seq<char> {
    seq!['"'] + escaped(s) + seq!['"']
}

/// Parses `text` with `serde_json::from_str::<serde_json::Value>` and renders the value in
/// compact form with its `Display`. The contract claims that the outcome is a function of
/// `text`: the rendered text where parsing succeeds, parsing's error where it fails.
#[verifier::external_body]
pub(crate) fn json_compact(text: &str) -> (r: Result<String, serde_json::Error>)
    ensures
        match r {
            Ok(t) => spec_json_compact(text@) == Some(t@),
            Err(_) => spec_json_compact(text@) is None,
        },
{
    match serde_json::from_str::<serde_json::Value>(text) {
        Ok(v) => Ok(v.to_string()),
        Err(e) => Err(e),
    }
}

/// `serde_json`'s JSON value, carried from parsing to its conversion.
#[verifier::external_type_specification]
#[verifier::external_body]
pub struct ExSerdeJsonValue(serde_json::Value);

/// The value that the JSON text `text` holds, if it is JSON: the result of
/// `serde_json::from_str::<serde_json::Value>` converted to a [`JsonValue`] (object members in
/// the order of `serde_json`'s map, numbers in the text its `Display` writes).
pub uninterp spec fn spec_json_value(text: Seq<char>) -> Option<JsonView>;

/// The [`JsonValue`] of a `serde_json` value, variant by variant: objects keep the order of
/// `serde_json`'s map, and numbers the text its `Display` writes. Only [`parse_json`] calls it,
/// and its contract speaks for the pair.
#[verifier::external_body]
fn from_serde(v: serde_json::Value) -> JsonValue {
    match v {
        serde_json::Value::Null => JsonValue::Null,
        serde_json::Value::Bool(b) => JsonValue::Bool(b),
        serde_json::Value::Number(n) => JsonValue::Number(n.to_string()),
        serde_json::Value::String(s) => JsonValue::String(s),
        serde_json::Value::Array(xs) => JsonValue::Array(xs.into_iter().map(from_serde).collect()),
        serde_json::Value::Object(ms) => JsonValue::Object(
            ms.into_iter().map(|(key, value)| JsonMember { key, value: from_serde(value) }).collect(),
        ),
    }
}

/// Parses `text` with `serde_json::from_str::<serde_json::Value>` and converts the value (see
/// [`from_serde`]). The contract claims that the outcome is a function of `text`: the value
/// where parsing succeeds, parsing's error where it fails.
#[verifier::external_body]
pub fn parse_json(text: &str) -> (r: Result<JsonValue, serde_json::Error>)
    ensures
        match r {
            Ok(v) => spec_json_value(text@) == Some(v@),
            Err(_) => spec_json_value(text@) is None,
        },
{
    match serde_json::from_str::<serde_json::Value>(text) {
        Ok(v) => Ok(from_serde(v)),
        Err(e) => Err(e),
    }
}

/// Renders `s` as a JSON string (`serde_json::Value::String` with its `Display`, which writes
/// the string through `format_escaped_str`). The contract claims the escaping of
/// [`spec_json_string`].
#[verifier::external_body]
pub(crate) fn json_string(s: &str) -> (r: String)
    ensures
        r@ == spec_json_string(s@),
{
    serde_json::Value::String(s.to_owned()).to_string()
}

} // verus!
