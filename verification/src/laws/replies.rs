//! The language server: what each answer says, member by member.

use vstd::prelude::*;

use crate::json;
use crate::server::reply;
use crate::server::request;
use crate::text;

verus! {

/// A position as the protocol has it.
pub open spec fn position(line: int, col: int) -> Seq<char> {
    "{\"character\":"@ + text::dec(col as nat) + ",\"line\":"@ + text::dec(line as nat) + "}"@
}

/// A stretch of a document as the protocol has it.
pub open spec fn stretch(line: int, col: int, end_line: int, end_col: int) -> Seq<char> {
    "{\"end\":"@ + position(end_line, end_col) + ",\"start\":"@ + position(line, col) + "}"@
}

/// Coordinates that are counted from one are told from zero.
pub proof fn law_told_from_zero(n: nat)
    ensures
        reply::from_zero(n + 1) == n,
        reply::from_zero(0) == 0,
{
}

/// A stretch of a document is told by its start and its end.
pub proof fn law_range_told(r: reply::Range)
    requires
        r.line > 0,
        r.col > 0,
        r.end_line > 0,
        r.end_col > 0,
    ensures
        reply::range_text(r) == stretch(r.line - 1, r.col - 1, r.end_line - 1, r.end_col - 1),
{
}

// ---------------------------------------------------------------------------
// Diagnostics
// ---------------------------------------------------------------------------

/// What is told of an error: its message, where it stands, that it is an error, and
/// who found it.
pub proof fn law_error_told(d: reply::Diagnostic)
    requires
        0 < d.line <= 0x1_0000_0000,
        0 < d.col <= 0x1_0000_0000,
        0 < d.end_line <= 0x1_0000_0000,
        0 < d.end_col <= 0x1_0000_0000,
    ensures
        reply::diagnostic_text(d) == "{\"message\":"@ + json::string_text(d.message@) + ",\"range\":"@
            + stretch(d.line - 1, d.col - 1, d.end_line - 1, d.end_col - 1)
            + ",\"severity\":1,\"source\":\"xlang\"}"@,
{
    lemma_narrow(d.line);
    lemma_narrow(d.col);
    lemma_narrow(d.end_line);
    lemma_narrow(d.end_col);
}

proof fn lemma_narrow(n: usize)
    requires
        0 < n <= 0x1_0000_0000,
    ensures
        reply::narrow(n) == n - 1,
{
    let k: u64 = (n - 1) as u64;
    assert(k <= 0xffff_ffffu64 ==> (k as u32) as u64 == k) by (bit_vector);
}

/// Errors are told one by one: the list in the note has exactly as many members as
/// errors were found, and its `k`-th member tells the `k`-th error.
pub proof fn law_every_error_is_told(uri: Seq<char>, found: Seq<reply::Diagnostic>) -> (members: Seq<
    Seq<char>,
>)
    ensures
        members.len() == found.len(),
        forall|k: int|
            0 <= k < found.len() ==> #[trigger] members[k] == reply::diagnostic_text(found[k]),
        reply::diagnostics_text(uri, found)
            == "{\"jsonrpc\":\"2.0\",\"method\":\"textDocument/publishDiagnostics\",\"params\":{\"diagnostics\":"@
            + "["@ + text::joined(members, ","@) + "]"@ + ",\"uri\":"@ + json::string_text(uri) + "}}"@,
{
    let members = Seq::new(found.len(), |k: int| reply::diagnostic_text(found[k]));
    assert(members =~= found.map_values(|d: reply::Diagnostic| reply::diagnostic_text(d)));
    let front = "{\"jsonrpc\":\"2.0\",\"method\":\"textDocument/publishDiagnostics\",\"params\":{\"diagnostics\":"@;
    let all = text::joined(members, ","@);
    let name = json::string_text(uri);
    assert(front + ("["@ + all + "]"@) + ",\"uri\":"@ + name + "}}"@ =~= front + "["@ + all + "]"@
        + ",\"uri\":"@ + name + "}}"@);
    members
}

/// Two lists of errors, one behind the other, are told one behind the other: each
/// error that is found adds its own member and takes none away.
pub proof fn law_more_errors_are_told(
    uri: Seq<char>,
    a: Seq<reply::Diagnostic>,
    b: Seq<reply::Diagnostic>,
) -> (inside: (Seq<char>, Seq<char>))
    requires
        a.len() > 0,
        b.len() > 0,
    ensures
        reply::diagnostics_text(uri, a)
            == "{\"jsonrpc\":\"2.0\",\"method\":\"textDocument/publishDiagnostics\",\"params\":{\"diagnostics\":"@
            + "["@ + inside.0 + "]"@ + ",\"uri\":"@ + json::string_text(uri) + "}}"@,
        reply::diagnostics_text(uri, b)
            == "{\"jsonrpc\":\"2.0\",\"method\":\"textDocument/publishDiagnostics\",\"params\":{\"diagnostics\":"@
            + "["@ + inside.1 + "]"@ + ",\"uri\":"@ + json::string_text(uri) + "}}"@,
        reply::diagnostics_text(uri, a + b)
            == "{\"jsonrpc\":\"2.0\",\"method\":\"textDocument/publishDiagnostics\",\"params\":{\"diagnostics\":"@
            + "["@ + (inside.0 + ","@ + inside.1) + "]"@ + ",\"uri\":"@ + json::string_text(uri) + "}}"@,
{
    let p = law_every_error_is_told(uri, a);
    let q = law_every_error_is_told(uri, b);
    let all = law_every_error_is_told(uri, a + b);
    assert(all =~= p + q);
    crate::laws::texts::law_joined_in_parts(p, q, ","@);
    (text::joined(p, ","@), text::joined(q, ","@))
}

// ---------------------------------------------------------------------------
// Answers
// ---------------------------------------------------------------------------

/// An answer carries the identifier of the request, the version of the protocol, and
/// the result.
pub proof fn law_answer(id: Seq<char>, result: Seq<char>)
    ensures
        reply::answer_text(id, result) == "{\"id\":"@ + id + ",\"jsonrpc\":\"2.0\",\"result\":"@ + result
            + "}"@,
{
}

/// A list is told between brackets with commas between its members.
pub proof fn law_list(items: Seq<Seq<char>>)
    ensures
        reply::list_text(items) == "["@ + text::joined(items, ","@) + "]"@,
{
}

/// A hover shows the symbol as code of the language, or nothing.
pub proof fn law_hover(s: Seq<char>)
    ensures
        reply::hover_text(Some(s)) == "{\"contents\":{\"language\":\"xlang\",\"value\":"@
            + json::string_text(s) + "}}"@,
        reply::hover_text(None) == "null"@,
{
}

/// A place is told by the document and the stretch; a definition that is not known is
/// `null`.
pub proof fn law_places(uri: Seq<char>, r: reply::Range)
    ensures
        reply::location_text(uri, r) == "{\"range\":"@ + reply::range_text(r) + ",\"uri\":"@
            + json::string_text(uri) + "}"@,
        reply::definition_text(uri, Some(r)) == reply::location_text(uri, r),
        reply::definition_text(uri, None) == "null"@,
{
}

/// A completion tells each name.
pub proof fn law_label(name: Seq<char>)
    ensures
        reply::label_text(name) == "{\"label\":"@ + json::string_text(name) + "}"@,
{
}

/// Whether a text is a list with these members, in order.
pub open spec fn is_list(t: Seq<char>, members: Seq<Seq<char>>) -> bool {
    t == "["@ + text::joined(members, ","@) + "]"@
}

/// Every name that can be completed to is told, in order.
pub proof fn law_every_name_is_told(names: Seq<String>) -> (members: Seq<Seq<char>>)
    ensures
        members.len() == names.len(),
        forall|k: int|
            0 <= k < names.len() ==> #[trigger] members[k] == "{\"label\":"@ + json::string_text(
                names[k]@,
            ) + "}"@,
        is_list(reply::completion_text(names), members),
{
    let members = Seq::new(names.len(), |k: int| reply::label_text(names[k]@));
    assert(members =~= names.map_values(|n: String| reply::label_text(n@)));
    members
}

/// Every symbol of a document is told, in order.
pub proof fn law_every_symbol_is_told(found: Seq<reply::Symbol>) -> (members: Seq<Seq<char>>)
    ensures
        members.len() == found.len(),
        forall|k: int|
            0 <= k < found.len() ==> #[trigger] members[k] == reply::symbol_text(found[k]),
        is_list(reply::symbols_text(found), members),
{
    let members = Seq::new(found.len(), |k: int| reply::symbol_text(found[k]));
    assert(members =~= found.map_values(|s: reply::Symbol| reply::symbol_text(s)));
    members
}

/// Every stretch of lines that can be folded is told, in order.
pub proof fn law_every_fold_is_told(found: Seq<reply::Fold>) -> (members: Seq<Seq<char>>)
    ensures
        members.len() == found.len(),
        forall|k: int| 0 <= k < found.len() ==> #[trigger] members[k] == reply::fold_text(found[k]),
        is_list(reply::folding_text(found), members),
{
    let members = Seq::new(found.len(), |k: int| reply::fold_text(found[k]));
    assert(members =~= found.map_values(|f: reply::Fold| reply::fold_text(f)));
    members
}

/// Every place where a symbol is used is told, in order.
pub proof fn law_every_reference_is_told(uri: Seq<char>, found: Seq<reply::Range>) -> (members: Seq<
    Seq<char>,
>)
    ensures
        members.len() == found.len(),
        forall|k: int|
            0 <= k < found.len() ==> #[trigger] members[k] == reply::location_text(uri, found[k]),
        is_list(reply::references_text(uri, found), members),
{
    let members = Seq::new(found.len(), |k: int| reply::location_text(uri, found[k]));
    assert(members =~= found.map_values(|r: reply::Range| reply::location_text(uri, r)));
    members
}

/// A symbol is told by its kind, its name and its place, which is also what is
/// selected.
pub proof fn law_symbol(s: reply::Symbol)
    ensures
        reply::symbol_text(s) == "{\"kind\":"@ + text::dec(s.kind as nat) + ",\"name\":"@
            + json::string_text(s.name@) + ",\"range\":"@ + reply::range_text(s.range)
            + ",\"selectionRange\":"@ + reply::range_text(s.range) + "}"@,
{
}

/// Lines that can be folded are told by the first and the last of them.
pub proof fn law_fold(f: reply::Fold)
    ensures
        reply::fold_text(f) == "{\"endLine\":"@ + text::dec(f.end as nat) + ",\"startLine\":"@
            + text::dec(f.start as nat) + "}"@,
{
}

// ---------------------------------------------------------------------------
// Requests
// ---------------------------------------------------------------------------

/// What a message says is read at the places that the protocol gives; what is missing
/// is empty, `null` for the identifier, and the first line and column.
pub proof fn law_request_read(bytes: Seq<u8>)
    ensures
        ({
            let asked = request::asked_in(bytes);
            &&& asked.method == match request::string_at(bytes, "/method"@) {
                Some(s) => s,
                None => ""@,
            }
            &&& asked.id == match request::value_at(bytes, "/id"@) {
                Some(s) => s,
                None => "null"@,
            }
            &&& asked.uri == match request::string_at(bytes, "/params/textDocument/uri"@) {
                Some(s) => s,
                None => ""@,
            }
            &&& asked.text == match request::string_at(bytes, "/params/textDocument/text"@) {
                Some(s) => s,
                None => ""@,
            }
            &&& request::number_at(bytes, "/params/position/line"@) is None ==> asked.line == 1
            &&& request::number_at(bytes, "/params/position/character"@) is None ==> asked.column == 1
        }),
{
}

/// Positions are counted from one where the protocol counts from zero.
pub proof fn law_position_read(bytes: Seq<u8>, k: u64)
    requires
        k < u32::MAX,
    ensures
        request::number_at(bytes, "/params/position/line"@) == Some(k) ==> request::asked_in(
            bytes,
        ).line == k + 1,
        request::number_at(bytes, "/params/position/character"@) == Some(k) ==> request::asked_in(
            bytes,
        ).column == k + 1,
{
    assert(k < 0xffff_ffffu64 ==> (k as u32) as u64 == k) by (bit_vector);
}

/// Of several changes the last one counts; without changes the text is empty.
pub proof fn law_last_change_counts(bytes: Seq<u8>, n: u64)
    ensures
        request::count_at(bytes, "/params/contentChanges"@) == Some(n) && n > 0
            ==> request::asked_in(bytes).change == match request::string_at(
            bytes,
            "/params/contentChanges/"@ + text::dec((n - 1) as nat) + "/text"@,
        ) {
            Some(s) => s,
            None => ""@,
        },
        request::count_at(bytes, "/params/contentChanges"@) == Some(0u64) ==> request::asked_in(
            bytes,
        ).change == ""@,
        request::count_at(bytes, "/params/contentChanges"@) is None ==> request::asked_in(bytes).change
            == ""@,
{
}

} // verus!
