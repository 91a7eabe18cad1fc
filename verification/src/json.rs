//! What the library takes from `serde_json`: its value and error types, and
//! the encoding of a list of strings.
use vstd::prelude::*;

use crate::text::{flat_map, join};

verus! {

/// `serde_json::Value`, carried through without being read.
#[verifier::external_type_specification]
#[verifier::external_body]
pub struct ExJsonValue(serde_json::Value);

/// `serde_json::Error`.
#[verifier::external_type_specification]
#[verifier::external_body]
pub struct ExJsonError(serde_json::Error);

/// A lowercase hexadecimal digit.
pub open spec fn hex_digit(n: u32) -> char {
    seq!['0', '1', '2', '3', '4', '5', '6', '7', '8', '9', 'a', 'b', 'c', 'd', 'e', 'f'][(n % 16) as int]
}

/// How one character is written inside a JSON string: the quote and the
/// backslash escaped, the short escapes for backspace, tab, line feed, form
/// feed and carriage return, `\u00XX` for the other control characters,
/// and every other character as it is.
pub open spec fn json_char(c: char) -> Seq<char> {
    let v = c as u32;
    if c == '"' {
        seq!['\\', '"']
    } else if c == '\\' {
        seq!['\\', '\\']
    } else if v == 0x08 {
        seq!['\\', 'b']
    } else if v == 0x09 {
        seq!['\\', 't']
    } else if v == 0x0A {
        seq!['\\', 'n']
    } else if v == 0x0C {
        seq!['\\', 'f']
    } else if v == 0x0D {
        seq!['\\', 'r']
    } else if v < 0x20 {
        seq!['\\', 'u', '0', '0', hex_digit(v / 16), hex_digit(v)]
    } else {
        seq![c]
    }
}

/// A string as a JSON string literal.
pub open spec fn json_string(s: Seq<char>) -> Seq<char> {
    seq!['"'] + flat_map(s, |c: char| json_char(c)) + seq!['"']
}

/// The compact JSON text of a list of strings: `[`, the string literals
/// separated by commas, `]`.
pub open spec fn json_string_array(items: Seq<Seq<char>>) -> Seq<char> {
    seq!['['] + join(items.map_values(|s: Seq<char>| json_string(s)), seq![',']) + seq![']']
}

/// Calls `serde_json::to_string` on a list of strings; claims that it
/// succeeds (strings always serialize, and the in-memory writer never fails)
/// with the compact JSON text of exactly that list, escaped as serde_json's
/// string escape table does.
#[verifier::external_body]
pub(crate) fn encode_json_string_array(items: &Vec<String>) -> (r: Result<String, serde_json::Error>)
    ensures
        r is Ok,
        r matches Ok(s) ==> s@ == json_string_array(items@.map_values(|i: String| i@)),
{
    serde_json::to_string(items)
}

} // verus!
