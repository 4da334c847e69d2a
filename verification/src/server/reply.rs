//! What is sent back, as JSON text without spaces and with the members of each
//! object in the order of their names.

use vstd::prelude::*;

use crate::json;
use crate::text;

verus! {

/// A stretch of a document, with lines and columns counted from one.
#[derive(Clone, Copy, PartialEq, Eq, Structural, Debug)]
pub struct Range {
    pub line: u32,
    pub col: u32,
    pub end_line: u32,
    pub end_col: u32,
}

/// A symbol of a document.
#[derive(Debug)]
pub struct Symbol {
    pub name: String,
    /// The kind of the symbol, as the protocol numbers it.
    pub kind: u64,
    pub range: Range,
}

/// Lines that can be folded, counted from zero.
#[derive(Clone, Copy, PartialEq, Eq, Structural, Debug)]
pub struct Fold {
    pub start: u64,
    pub end: u64,
}

/// An error in a document, with lines and columns counted from one.
#[derive(Debug)]
pub struct Diagnostic {
    pub line: usize,
    pub col: usize,
    pub end_line: usize,
    pub end_col: usize,
    pub message: String,
}

// ---------------------------------------------------------------------------
// What the texts are
// ---------------------------------------------------------------------------

/// A coordinate counted from zero, for one that is counted from one; one that is
/// zero already stays.
pub open spec fn from_zero(n: nat) -> nat {
    if n == 0 {
        0
    } else {
        (n - 1) as nat
    }
}

/// A position, counted from zero.
pub open spec fn position_text(line: nat, col: nat) -> Seq<char> {
    "{\"character\":"@ + text::dec(col) + ",\"line\":"@ + text::dec(line) + "}"@
}

/// A range, counted from zero.
pub open spec fn span_text(line: nat, col: nat, end_line: nat, end_col: nat) -> Seq<char> {
    "{\"end\":"@ + position_text(end_line, end_col) + ",\"start\":"@ + position_text(line, col)
        + "}"@
}

/// A range.
pub open spec fn range_text(r: Range) -> Seq<char> {
    span_text(
        from_zero(r.line as nat),
        from_zero(r.col as nat),
        from_zero(r.end_line as nat),
        from_zero(r.end_col as nat),
    )
}

/// An array.
pub open spec fn list_text(items: Seq<Seq<char>>) -> Seq<char> {
    "["@ + text::joined(items, ","@) + "]"@
}

/// The answer to the request with identifier `id`.
pub open spec fn answer_text(id: Seq<char>, result: Seq<char>) -> Seq<char> {
    "{\"id\":"@ + id + ",\"jsonrpc\":\"2.0\",\"result\":"@ + result + "}"@
}

/// What the server can do.
pub const CAPABILITIES: &'static str =
    r#"{"capabilities":{"completionProvider":{"triggerCharacters":["."]},"definitionProvider":true,"documentSymbolProvider":true,"foldingRangeProvider":true,"hoverProvider":true,"referencesProvider":true,"textDocumentSync":1}}"#;

/// What is shown for a symbol under the cursor, if there is one.
pub open spec fn hover_text(found: Option<Seq<char>>) -> Seq<char> {
    match found {
        Some(s) => "{\"contents\":{\"language\":\"xlang\",\"value\":"@ + json::string_text(s)
            + "}}"@,
        None => "null"@,
    }
}

/// A place in a document.
pub open spec fn location_text(uri: Seq<char>, r: Range) -> Seq<char> {
    "{\"range\":"@ + range_text(r) + ",\"uri\":"@ + json::string_text(uri) + "}"@
}

/// Where a symbol is defined, if that is known.
pub open spec fn definition_text(uri: Seq<char>, found: Option<Range>) -> Seq<char> {
    match found {
        Some(r) => location_text(uri, r),
        None => "null"@,
    }
}

/// A name that can be completed to.
pub open spec fn label_text(name: Seq<char>) -> Seq<char> {
    "{\"label\":"@ + json::string_text(name) + "}"@
}

/// A symbol of a document.
pub open spec fn symbol_text(s: Symbol) -> Seq<char> {
    "{\"kind\":"@ + text::dec(s.kind as nat) + ",\"name\":"@ + json::string_text(s.name@)
        + ",\"range\":"@ + range_text(s.range) + ",\"selectionRange\":"@ + range_text(s.range)
        + "}"@
}

/// Lines that can be folded.
pub open spec fn fold_text(f: Fold) -> Seq<char> {
    "{\"endLine\":"@ + text::dec(f.end as nat) + ",\"startLine\":"@ + text::dec(f.start as nat)
        + "}"@
}

/// The names that can be completed to.
pub open spec fn completion_text(names: Seq<String>) -> Seq<char> {
    list_text(names.map_values(|n: String| label_text(n@)))
}

/// The symbols of a document.
pub open spec fn symbols_text(found: Seq<Symbol>) -> Seq<char> {
    list_text(found.map_values(|s: Symbol| symbol_text(s)))
}

/// The stretches of lines that can be folded.
pub open spec fn folding_text(found: Seq<Fold>) -> Seq<char> {
    list_text(found.map_values(|f: Fold| fold_text(f)))
}

/// The places in a document where a symbol is used.
pub open spec fn references_text(uri: Seq<char>, found: Seq<Range>) -> Seq<char> {
    list_text(found.map_values(|r: Range| location_text(uri, r)))
}

/// A coordinate of a diagnostic: counted from zero, in 32 bits.
pub open spec fn narrow(n: usize) -> nat {
    (#[verifier::truncate] (from_zero(n as nat) as u32)) as nat
}

/// An error in a document.
pub open spec fn diagnostic_text(d: Diagnostic) -> Seq<char> {
    "{\"message\":"@ + json::string_text(d.message@) + ",\"range\":"@ + span_text(
        narrow(d.line),
        narrow(d.col),
        narrow(d.end_line),
        narrow(d.end_col),
    ) + ",\"severity\":1,\"source\":\"xlang\"}"@
}

/// The note that tells the errors of a document.
pub open spec fn diagnostics_text(uri: Seq<char>, found: Seq<Diagnostic>) -> Seq<char> {
    "{\"jsonrpc\":\"2.0\",\"method\":\"textDocument/publishDiagnostics\",\"params\":{\"diagnostics\":"@
        + list_text(found.map_values(|d: Diagnostic| diagnostic_text(d))) + ",\"uri\":"@
        + json::string_text(uri) + "}}"@
}

// ---------------------------------------------------------------------------
// Writing them
// ---------------------------------------------------------------------------

/// A coordinate counted from zero.
fn zero_based(n: u32) -> (r: u64)
    ensures
        r == from_zero(n as nat),
{
    n.saturating_sub(1) as u64
}

/// A coordinate of a diagnostic.
fn narrowed(n: usize) -> (r: u64)
    ensures
        r == narrow(n),
{
    let k: usize = n.saturating_sub(1);
    (#[verifier::truncate] (k as u32)) as u64
}

/// A position, counted from zero.
fn position(line: u64, col: u64) -> (r: String)
    ensures
        r@ == position_text(line as nat, col as nat),
{
    let l = text::decimal(line);
    let c = text::decimal(col);
    text::cat5("{\"character\":", c.as_str(), ",\"line\":", l.as_str(), "}")
}

/// A range, counted from zero.
fn span(line: u64, col: u64, end_line: u64, end_col: u64) -> (r: String)
    ensures
        r@ == span_text(line as nat, col as nat, end_line as nat, end_col as nat),
{
    let start = position(line, col);
    let end = position(end_line, end_col);
    text::cat5("{\"end\":", end.as_str(), ",\"start\":", start.as_str(), "}")
}

/// A range.
fn range(r: &Range) -> (t: String)
    ensures
        t@ == range_text(*r),
{
    span(zero_based(r.line), zero_based(r.col), zero_based(r.end_line), zero_based(r.end_col))
}

/// An array.
fn list(items: &Vec<String>) -> (r: String)
    ensures
        r@ == list_text(text::texts(items@)),
{
    let inside = text::join(items, ",");
    text::cat3("[", inside.as_str(), "]")
}

/// The answer to a request.
pub fn answer(id: &str, result: &str) -> (r: String)
    ensures
        r@ == answer_text(id@, result@),
{
    text::cat5("{\"id\":", id, ",\"jsonrpc\":\"2.0\",\"result\":", result, "}")
}

/// The answer to `textDocument/hover`.
pub fn hover(id: &str, found: Option<&str>) -> (r: String)
    ensures
        r@ == answer_text(
            id@,
            hover_text(
                match found {
                    Some(s) => Some(s@),
                    None => None,
                },
            ),
        ),
{
    match found {
        Some(s) => {
            let value = json::quoted(s);
            let result = text::cat3(
                "{\"contents\":{\"language\":\"xlang\",\"value\":",
                value.as_str(),
                "}}",
            );
            answer(id, result.as_str())
        },
        None => answer(id, "null"),
    }
}

/// A place in a document.
fn location(uri: &str, r: &Range) -> (t: String)
    ensures
        t@ == location_text(uri@, *r),
{
    let place = range(r);
    let name = json::quoted(uri);
    text::cat5("{\"range\":", place.as_str(), ",\"uri\":", name.as_str(), "}")
}

/// The answer to `textDocument/definition`.
pub fn definition(id: &str, uri: &str, found: Option<Range>) -> (r: String)
    ensures
        r@ == answer_text(id@, definition_text(uri@, found)),
{
    match found {
        Some(r) => {
            let result = location(uri, &r);
            answer(id, result.as_str())
        },
        None => answer(id, "null"),
    }
}

/// The answer to `textDocument/completion`.
pub fn completion(id: &str, names: &Vec<String>) -> (r: String)
    ensures
        r@ == answer_text(
            id@,
            list_text(names@.map_values(|n: String| label_text(n@))),
        ),
        r@ == answer_text(id@, completion_text(names@)),
{
    let mut items: Vec<String> = Vec::new();
    let mut i: usize = 0;
    while i < names.len()
        invariant
            i <= names@.len(),
            items@.len() == i,
            forall|k: int| 0 <= k < i ==> (#[trigger] items@[k])@ == label_text(names@[k]@),
        decreases names@.len() - i,
    {
        let name = json::quoted(names[i].as_str());
        items.push(text::cat3("{\"label\":", name.as_str(), "}"));
        i += 1;
    }
    assert(text::texts(items@) =~= names@.map_values(|n: String| label_text(n@)));
    let result = list(&items);
    answer(id, result.as_str())
}

/// The answer to `textDocument/documentSymbol`.
pub fn symbols(id: &str, found: &Vec<Symbol>) -> (r: String)
    ensures
        r@ == answer_text(
            id@,
            list_text(found@.map_values(|s: Symbol| symbol_text(s))),
        ),
        r@ == answer_text(id@, symbols_text(found@)),
{
    let mut items: Vec<String> = Vec::new();
    let mut i: usize = 0;
    while i < found.len()
        invariant
            i <= found@.len(),
            items@.len() == i,
            forall|k: int| 0 <= k < i ==> (#[trigger] items@[k])@ == symbol_text(found@[k]),
        decreases found@.len() - i,
    {
        let kind = text::decimal(found[i].kind);
        let name = json::quoted(found[i].name.as_str());
        let place = range(&found[i].range);
        let front = text::cat5(
            "{\"kind\":",
            kind.as_str(),
            ",\"name\":",
            name.as_str(),
            ",\"range\":",
        );
        items.push(
            text::cat5(
                front.as_str(),
                place.as_str(),
                ",\"selectionRange\":",
                place.as_str(),
                "}",
            ),
        );
        i += 1;
    }
    assert(text::texts(items@) =~= found@.map_values(|s: Symbol| symbol_text(s)));
    let result = list(&items);
    answer(id, result.as_str())
}

/// The answer to `textDocument/foldingRange`.
pub fn folding(id: &str, found: &Vec<Fold>) -> (r: String)
    ensures
        r@ == answer_text(id@, list_text(found@.map_values(|f: Fold| fold_text(f)))),
        r@ == answer_text(id@, folding_text(found@)),
{
    let mut items: Vec<String> = Vec::new();
    let mut i: usize = 0;
    while i < found.len()
        invariant
            i <= found@.len(),
            items@.len() == i,
            forall|k: int| 0 <= k < i ==> (#[trigger] items@[k])@ == fold_text(found@[k]),
        decreases found@.len() - i,
    {
        let start = text::decimal(found[i].start);
        let end = text::decimal(found[i].end);
        items.push(
            text::cat5("{\"endLine\":", end.as_str(), ",\"startLine\":", start.as_str(), "}"),
        );
        i += 1;
    }
    assert(text::texts(items@) =~= found@.map_values(|f: Fold| fold_text(f)));
    let result = list(&items);
    answer(id, result.as_str())
}

/// The answer to `textDocument/references`.
pub fn references(id: &str, uri: &str, found: &Vec<Range>) -> (r: String)
    ensures
        r@ == answer_text(
            id@,
            list_text(found@.map_values(|r: Range| location_text(uri@, r))),
        ),
        r@ == answer_text(id@, references_text(uri@, found@)),
{
    let mut items: Vec<String> = Vec::new();
    let mut i: usize = 0;
    while i < found.len()
        invariant
            i <= found@.len(),
            items@.len() == i,
            forall|k: int|
                0 <= k < i ==> (#[trigger] items@[k])@ == location_text(uri@, found@[k]),
        decreases found@.len() - i,
    {
        items.push(location(uri, &found[i]));
        i += 1;
    }
    assert(text::texts(items@) =~= found@.map_values(|r: Range| location_text(uri@, r)));
    let result = list(&items);
    answer(id, result.as_str())
}

/// The note that tells the errors of a document.
pub fn diagnostics(uri: &str, found: &Vec<Diagnostic>) -> (r: String)
    ensures
        r@ == diagnostics_text(uri@, found@),
{
    let mut items: Vec<String> = Vec::new();
    let mut i: usize = 0;
    while i < found.len()
        invariant
            i <= found@.len(),
            items@.len() == i,
            forall|k: int| 0 <= k < i ==> (#[trigger] items@[k])@ == diagnostic_text(found@[k]),
        decreases found@.len() - i,
    {
        let message = json::quoted(found[i].message.as_str());
        let place = span(
            narrowed(found[i].line),
            narrowed(found[i].col),
            narrowed(found[i].end_line),
            narrowed(found[i].end_col),
        );
        items.push(
            text::cat5(
                "{\"message\":",
                message.as_str(),
                ",\"range\":",
                place.as_str(),
                ",\"severity\":1,\"source\":\"xlang\"}",
            ),
        );
        i += 1;
    }
    assert(text::texts(items@) =~= found@.map_values(|d: Diagnostic| diagnostic_text(d)));
    let all = list(&items);
    let name = json::quoted(uri);
    text::cat5(
        "{\"jsonrpc\":\"2.0\",\"method\":\"textDocument/publishDiagnostics\",\"params\":{\"diagnostics\":",
        all.as_str(),
        ",\"uri\":",
        name.as_str(),
        "}}",
    )
}

} // verus!
