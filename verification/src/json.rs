//! The JSON text of plain values, as `serde_json` writes it.
//!
//! The audit log hashes and exports its records as compact JSON. The record
//! framing (braces, field names, commas) is built in this crate; the JSON
//! form of a string comes from `serde_json` and is stated here exactly.

use vstd::prelude::*;
use crate::hash::hex_digit;

verus! {

/// The escape sequence that `serde_json` writes for the character `c`
/// inside a JSON string: quote and backslash are escaped, the control
/// characters below U+0020 use their short form where JSON has one and
/// `\u00XX` (lowercase hexadecimal) otherwise; every other character,
/// including `/` and non-ASCII characters, is written as it is.
pub open spec fn json_escaped_char(c: char) -> Seq<char> {
    let u = c as u32;
    if c == '"' {
        seq!['\\', '"']
    } else if c == '\\' {
        seq!['\\', '\\']
    } else if u == 0x08 {
        seq!['\\', 'b']
    } else if u == 0x0c {
        seq!['\\', 'f']
    } else if c == '\n' {
        seq!['\\', 'n']
    } else if c == '\r' {
        seq!['\\', 'r']
    } else if c == '\t' {
        seq!['\\', 't']
    } else if u < 0x20 {
        seq!['\\', 'u', '0', '0', hex_digit(u as int / 16), hex_digit(u as int % 16)]
    } else {
        seq![c]
    }
}

/// The characters of `s` with each one escaped as in a JSON string.
pub open spec fn json_escaped(s: Seq<char>) -> Seq<char>
    decreases s.len(),
{
    if s.len() == 0 {
        Seq::empty()
    } else {
        json_escaped(s.drop_last()) + json_escaped_char(s.last())
    }
}

/// The JSON string literal for `s`: `"`, the escaped characters, `"`.
pub open spec fn json_quoted(s: Seq<char>) -> Seq<char> {
    seq!['"'] + json_escaped(s) + seq!['"']
}

/// The error type of `serde_json`.
#[verifier::external_type_specification]
#[verifier::external_body]
pub struct ExJsonError(serde_json::Error);

/// Calls `serde_json::to_string` on a string slice. The crate writes the
/// string into a `Vec<u8>` through `format_escaped_str`, with the escape
/// table stated by `json_escaped_char`; writing into a vector cannot fail,
/// so the call returns `Ok`.
#[verifier::external_body]
fn serde_json_string(s: &str) -> (r: Result<String, serde_json::Error>)
    ensures
        r is Ok,
        r matches Ok(t) ==> t@ == json_quoted(s@),
{
    serde_json::to_string(s)
}

/// The JSON string literal for `s`.
pub fn json_string(s: &str) -> (r: String)
    ensures
        r@ == json_quoted(s@),
{
    match serde_json_string(s) {
        Ok(t) => t,
        Err(_) => {
            proof {
                assert(false);
            }
            String::new()
        },
    }
}

} // verus!
