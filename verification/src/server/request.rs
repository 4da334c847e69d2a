//! What is read from a message.

use vstd::prelude::*;

use crate::text;

verus! {

/// Whether a text of bytes is JSON.
pub uninterp spec fn is_json(bytes: Seq<u8>) -> bool;

/// The string at a JSON pointer.
pub uninterp spec fn string_at(bytes: Seq<u8>, pointer: Seq<char>) -> Option<Seq<char>>;

/// The unsigned number at a JSON pointer.
pub uninterp spec fn number_at(bytes: Seq<u8>, pointer: Seq<char>) -> Option<u64>;

/// How many elements the array at a JSON pointer has.
pub uninterp spec fn count_at(bytes: Seq<u8>, pointer: Seq<char>) -> Option<u64>;

/// The JSON text of the value at a JSON pointer.
pub uninterp spec fn value_at(bytes: Seq<u8>, pointer: Seq<char>) -> Option<Seq<char>>;

/// A text that may be missing, by its view.
pub open spec fn shown(t: Option<String>) -> Option<Seq<char>> {
    match t {
        Some(s) => Some(s@),
        None => None,
    }
}

/// Calls `serde_json::from_slice` for a `serde_json::Value`. Claimed of it:
/// whether it succeeds depends on the bytes alone.
#[verifier::external_body]
fn parses(bytes: &[u8]) -> (r: bool)
    ensures
        r == is_json(bytes@),
{
    serde_json::from_slice::<serde_json::Value>(bytes).is_ok()
}

/// Calls `serde_json::Value::as_str` on what `serde_json::Value::pointer` finds in
/// the parsed bytes. Claimed of it: the result depends on the bytes and the
/// pointer alone.
#[verifier::external_body]
fn read_string(bytes: &[u8], pointer: &str) -> (r: Option<String>)
    ensures
        shown(r) == string_at(bytes@, pointer@),
{
    let value: serde_json::Value = serde_json::from_slice(bytes).ok()?;
    value.pointer(pointer)?.as_str().map(String::from)
}

/// Calls `serde_json::Value::as_u64` on what `serde_json::Value::pointer` finds in
/// the parsed bytes. Claimed of it: the result depends on the bytes and the
/// pointer alone.
#[verifier::external_body]
fn read_number(bytes: &[u8], pointer: &str) -> (r: Option<u64>)
    ensures
        r == number_at(bytes@, pointer@),
{
    let value: serde_json::Value = serde_json::from_slice(bytes).ok()?;
    value.pointer(pointer)?.as_u64()
}

/// Calls `serde_json::Value::as_array` on what `serde_json::Value::pointer` finds
/// in the parsed bytes. Claimed of it: the number of elements depends on the bytes
/// and the pointer alone.
#[verifier::external_body]
fn read_count(bytes: &[u8], pointer: &str) -> (r: Option<u64>)
    ensures
        r == count_at(bytes@, pointer@),
{
    let value: serde_json::Value = serde_json::from_slice(bytes).ok()?;
    value.pointer(pointer)?.as_array().map(|a| a.len() as u64)
}

/// Calls `<serde_json::Value as std::fmt::Display>::fmt`, through `to_string`, on
/// what `serde_json::Value::pointer` finds in the parsed bytes. Claimed of it: the
/// result depends on the bytes and the pointer alone.
#[verifier::external_body]
fn read_value(bytes: &[u8], pointer: &str) -> (r: Option<String>)
    ensures
        shown(r) == value_at(bytes@, pointer@),
{
    let value: serde_json::Value = serde_json::from_slice(bytes).ok()?;
    value.pointer(pointer).map(|v| v.to_string())
}

/// What a message says, with defaults for what it does not say.
#[derive(Debug)]
pub struct Request {
    /// The method, or nothing.
    pub method: String,
    /// The identifier as JSON, or `null`.
    pub id: String,
    /// The document.
    pub uri: String,
    /// The text of an opened document.
    pub text: String,
    /// The text that the last change gives a document.
    pub change: String,
    /// The line of a position, counted from one.
    pub line: u32,
    /// The column of a position, counted from one.
    pub column: u32,
}

/// The mathematical value of a `Request`.
#[verifier::ext_equal]
pub struct Asked {
    pub method: Seq<char>,
    pub id: Seq<char>,
    pub uri: Seq<char>,
    pub text: Seq<char>,
    pub change: Seq<char>,
    pub line: u32,
    pub column: u32,
}

impl View for Request {
    type V = Asked;

    open spec fn view(&self) -> Asked {
        Asked {
            method: self.method@,
            id: self.id@,
            uri: self.uri@,
            text: self.text@,
            change: self.change@,
            line: self.line,
            column: self.column,
        }
    }
}

/// What a message says, without defaults.
#[derive(Debug)]
pub struct Parts {
    pub method: Option<String>,
    pub id: Option<String>,
    pub uri: Option<String>,
    pub text: Option<String>,
    pub change: Option<String>,
    /// The line of a position, counted from zero.
    pub line: Option<u64>,
    /// The column of a position, counted from zero.
    pub character: Option<u64>,
}

/// A text, or another where it is missing.
pub open spec fn text_or(t: Option<Seq<char>>, default: Seq<char>) -> Seq<char> {
    match t {
        Some(s) => s,
        None => default,
    }
}

/// A coordinate counted from one, for one that is counted from zero: its lower
/// 32 bits and one more, around the end of the range.
pub open spec fn from_one(n: Option<u64>) -> u32 {
    match n {
        Some(k) => (#[verifier::truncate] (k as u32)).wrapping_add(1),
        None => 1,
    }
}

/// What is asked, from the parts of a message.
pub open spec fn asked_by(
    method: Option<Seq<char>>,
    id: Option<Seq<char>>,
    uri: Option<Seq<char>>,
    text: Option<Seq<char>>,
    change: Option<Seq<char>>,
    line: Option<u64>,
    character: Option<u64>,
) -> Asked {
    Asked {
        method: text_or(method, ""@),
        id: text_or(id, "null"@),
        uri: text_or(uri, ""@),
        text: text_or(text, ""@),
        change: text_or(change, ""@),
        line: from_one(line),
        column: from_one(character),
    }
}

/// Where the text of the last of `n` changes stands.
pub open spec fn change_pointer(n: u64) -> Seq<char> {
    "/params/contentChanges/"@ + text::dec((n - 1) as nat) + "/text"@
}

/// The text that the last change gives a document.
pub open spec fn last_change(bytes: Seq<u8>) -> Option<Seq<char>> {
    match count_at(bytes, "/params/contentChanges"@) {
        Some(n) => if n > 0 {
            string_at(bytes, change_pointer(n))
        } else {
            None
        },
        None => None,
    }
}

/// What a message asks.
pub open spec fn asked_in(bytes: Seq<u8>) -> Asked {
    asked_by(
        string_at(bytes, "/method"@),
        value_at(bytes, "/id"@),
        string_at(bytes, "/params/textDocument/uri"@),
        string_at(bytes, "/params/textDocument/text"@),
        last_change(bytes),
        number_at(bytes, "/params/position/line"@),
        number_at(bytes, "/params/position/character"@),
    )
}

/// A text, or another where it is missing.
fn or_default(t: Option<String>, default: &str) -> (r: String)
    ensures
        r@ == text_or(shown(t), default@),
{
    match t {
        Some(s) => s,
        None => default.to_string(),
    }
}

/// A coordinate counted from one, for one that is counted from zero.
fn one_based(n: Option<u64>) -> (r: u32)
    ensures
        r == from_one(n),
{
    match n {
        Some(k) => (#[verifier::truncate] (k as u32)).wrapping_add(1),
        None => 1,
    }
}

impl Parts {
    /// The request that these parts make.
    pub fn request(self) -> (r: Request)
        ensures
            r@ == asked_by(
                shown(self.method),
                shown(self.id),
                shown(self.uri),
                shown(self.text),
                shown(self.change),
                self.line,
                self.character,
            ),
    {
        Request {
            method: or_default(self.method, ""),
            id: or_default(self.id, "null"),
            uri: or_default(self.uri, ""),
            text: or_default(self.text, ""),
            change: or_default(self.change, ""),
            line: one_based(self.line),
            column: one_based(self.character),
        }
    }
}

/// The text that the last change gives a document.
fn read_change(bytes: &[u8]) -> (r: Option<String>)
    ensures
        shown(r) == last_change(bytes@),
{
    match read_count(bytes, "/params/contentChanges") {
        Some(n) => if n > 0 {
            let number = text::decimal(n - 1);
            let pointer = text::cat3("/params/contentChanges/", number.as_str(), "/text");
            read_string(bytes, pointer.as_str())
        } else {
            None
        },
        None => None,
    }
}

/// Read a message; nothing where it is not JSON.
pub fn read(bytes: &[u8]) -> (r: Option<Request>)
    ensures
        r is Some == is_json(bytes@),
        r is Some ==> r->0@ == asked_in(bytes@),
{
    if !parses(bytes) {
        return None;
    }
    let parts = Parts {
        method: read_string(bytes, "/method"),
        id: read_value(bytes, "/id"),
        uri: read_string(bytes, "/params/textDocument/uri"),
        text: read_string(bytes, "/params/textDocument/text"),
        change: read_change(bytes),
        line: read_number(bytes, "/params/position/line"),
        character: read_number(bytes, "/params/position/character"),
    };
    Some(parts.request())
}

} // verus!
