//! The JSON that requests carry.
use crate::shape::shape_text;
use crate::text::digit_char;
use vstd::prelude::*;

verus! {

/// The lower-case hexadecimal digit of value `d`.
pub open spec fn hex_char(d: nat) -> char
    recommends
        d < 16,
{
    if d < 10 {
        digit_char(d)
    } else {
        (87 + d) as char
    }
}

/// How `c` is written inside a JSON string: quotes, backslashes and control characters are
/// escaped, everything else stands for itself.
pub open spec fn json_char(c: char) -> Seq<char> {
    let code = c as nat;
    if c == '"' || c == '\\' {
        seq!['\\', c]
    } else if code == 8 {
        seq!['\\', 'b']
    } else if code == 9 {
        seq!['\\', 't']
    } else if code == 10 {
        seq!['\\', 'n']
    } else if code == 12 {
        seq!['\\', 'f']
    } else if code == 13 {
        seq!['\\', 'r']
    } else if code < 32 {
        seq!['\\', 'u', '0', '0', hex_char(code / 16), hex_char(code % 16)]
    } else {
        seq![c]
    }
}

/// The characters of `text` as they stand inside a JSON string.
pub open spec fn json_chars(text: Seq<char>) -> Seq<char>
    decreases text.len(),
{
    if text.len() == 0 {
        Seq::empty()
    } else {
        json_chars(text.drop_last()) + json_char(text.last())
    }
}

/// The JSON string that holds `text`.
pub open spec fn json_string(text: Seq<char>) -> Seq<char> {
    seq!['"'] + json_chars(text) + seq!['"']
}

/// The JSON array that holds `numbers`.
pub open spec fn json_array(numbers: Seq<u32>) -> Seq<char> {
    seq!['['] + shape_text(numbers) + seq![']']
}

/// The JSON object whose one field is `key`, which needs no escapes, of the value that the
/// JSON in `value` stands for.
pub open spec fn json_object(key: Seq<char>, value: Seq<char>) -> Seq<char> {
    seq!['{', '"'] + key + seq!['"', ':'] + value + seq!['}']
}

/// Wraps the `Display` of a `serde_json::Value` made from a `&str`: the compact JSON string,
/// between quotes, with `"`, `\` and the characters below the space escaped.
#[verifier::external_body]
pub(crate) fn string_value(text: &str) -> (value: String)
    ensures
        value@ == json_string(text@),
{
    serde_json::Value::from(text).to_string()
}

/// Wraps the `Display` of a `serde_json::Value` made from a slice of `u32`: the compact JSON
/// array, its decimal numerals separated by commas without spaces.
#[verifier::external_body]
pub(crate) fn array_value(numbers: &[u32]) -> (value: String)
    ensures
        value@ == json_array(numbers@),
{
    serde_json::Value::from(numbers).to_string()
}

/// The JSON object whose one field is `key`, of the value that `value` stands for.
pub fn object_of(key: &str, value: &str) -> (object: String)
    ensures
        object@ == json_object(key@, value@),
{
    let mut object = String::new();
    object.push('{');
    object.push('"');
    object.append(key);
    object.push('"');
    object.push(':');
    object.append(value);
    object.push('}');
    assert(object@ =~= json_object(key@, value@));
    object
}

} // verus!
