//! The language server: what each message does, and how messages are framed.

use vstd::prelude::*;

use crate::server::dispatch;
use crate::server::reply;
use crate::server::request;
use crate::server::wire;
use crate::text;

verus! {

// ---------------------------------------------------------------------------
// What a message does
// ---------------------------------------------------------------------------

/// A question under the identifier of the one who asks, about a document as it is.
pub open spec fn asking(docs: dispatch::Docs, r: request::Asked) -> dispatch::About {
    dispatch::About {
        id: r.id,
        uri: r.uri,
        text: if docs.dom().contains(r.uri) {
            docs[r.uri]
        } else {
            ""@
        },
    }
}

proof fn lemma_names()
    ensures
        "initialize"@.len() == 10,
        "shutdown"@.len() == 8,
        "exit"@.len() == 4,
        "textDocument/didOpen"@.len() == 20,
        "textDocument/didChange"@.len() == 22,
        "textDocument/hover"@.len() == 18,
        "textDocument/documentSymbol"@.len() == 27,
        "textDocument/foldingRange"@.len() == 25,
        "textDocument/definition"@.len() == 23 && "textDocument/definition"@[13] == 'd',
        "textDocument/completion"@.len() == 23 && "textDocument/completion"@[13] == 'c',
        "textDocument/references"@.len() == 23 && "textDocument/references"@[13] == 'r',
{
    reveal_strlit("initialize");
    reveal_strlit("shutdown");
    reveal_strlit("exit");
    reveal_strlit("textDocument/didOpen");
    reveal_strlit("textDocument/didChange");
    reveal_strlit("textDocument/hover");
    reveal_strlit("textDocument/documentSymbol");
    reveal_strlit("textDocument/foldingRange");
    reveal_strlit("textDocument/definition");
    reveal_strlit("textDocument/completion");
    reveal_strlit("textDocument/references");
}

/// What is done about each message; any other is ignored.
pub proof fn law_actions(docs: dispatch::Docs, r: request::Asked)
    ensures
        r.method == "initialize"@ ==> dispatch::act_for(docs, r) == dispatch::Act::Send(
            reply::answer_text(r.id, reply::CAPABILITIES@),
        ),
        r.method == "shutdown"@ ==> dispatch::act_for(docs, r) == dispatch::Act::Send(
            reply::answer_text(r.id, "null"@),
        ),
        r.method == "exit"@ ==> dispatch::act_for(docs, r) == dispatch::Act::Stop,
        r.method == "textDocument/didOpen"@ ==> dispatch::act_for(docs, r) == (
        dispatch::Act::Diagnose { uri: r.uri, text: r.text }),
        r.method == "textDocument/didChange"@ ==> dispatch::act_for(docs, r) == (
        dispatch::Act::Diagnose { uri: r.uri, text: r.change }),
        r.method == "textDocument/hover"@ ==> dispatch::act_for(docs, r) == (dispatch::Act::Hover {
            about: asking(docs, r),
            line: r.line,
            column: r.column,
        }),
        r.method == "textDocument/definition"@ ==> dispatch::act_for(docs, r) == (
        dispatch::Act::Define { about: asking(docs, r), line: r.line, column: r.column }),
        r.method == "textDocument/completion"@ ==> dispatch::act_for(docs, r) == (
        dispatch::Act::Complete { about: asking(docs, r) }),
        r.method == "textDocument/documentSymbol"@ ==> dispatch::act_for(docs, r) == (
        dispatch::Act::Symbols { about: asking(docs, r) }),
        r.method == "textDocument/foldingRange"@ ==> dispatch::act_for(docs, r) == (
        dispatch::Act::Fold { about: asking(docs, r) }),
        r.method == "textDocument/references"@ ==> dispatch::act_for(docs, r) == (
        dispatch::Act::Refer { about: asking(docs, r), line: r.line, column: r.column }),
        ({
            ||| r.method == "initialize"@
            ||| r.method == "shutdown"@
            ||| r.method == "exit"@
            ||| r.method == "textDocument/didOpen"@
            ||| r.method == "textDocument/didChange"@
            ||| r.method == "textDocument/hover"@
            ||| r.method == "textDocument/definition"@
            ||| r.method == "textDocument/completion"@
            ||| r.method == "textDocument/documentSymbol"@
            ||| r.method == "textDocument/foldingRange"@
            ||| r.method == "textDocument/references"@
            ||| dispatch::act_for(docs, r) == dispatch::Act::Ignore
        }),
{
    lemma_names();
}

/// What the server says it can do.
pub proof fn law_capabilities()
    ensures
        reply::CAPABILITIES@
            == "{\"capabilities\":{\"completionProvider\":{\"triggerCharacters\":[\".\"]},\"definitionProvider\":true,\"documentSymbolProvider\":true,\"foldingRangeProvider\":true,\"hoverProvider\":true,\"referencesProvider\":true,\"textDocumentSync\":1}}"@,
{
}

/// A document that is opened has the text that comes with it, one that is changed that
/// of the change, and no other message changes a document.
pub proof fn law_documents(docs: dispatch::Docs, r: request::Asked)
    ensures
        r.method == "textDocument/didOpen"@ ==> dispatch::docs_after(docs, r) == docs.insert(
            r.uri,
            r.text,
        ),
        r.method == "textDocument/didChange"@ ==> dispatch::docs_after(docs, r) == docs.insert(
            r.uri,
            r.change,
        ),
        r.method != "textDocument/didOpen"@ && r.method != "textDocument/didChange"@
            ==> dispatch::docs_after(docs, r) == docs,
{
    lemma_names();
}

/// A message that is not JSON ends the server and changes no document; any other is
/// answered as what it asks is.
pub proof fn law_messages_in_bytes(docs: dispatch::Docs, bytes: Seq<u8>)
    ensures
        !request::is_json(bytes) ==> dispatch::act_on(docs, bytes) == dispatch::Act::Stop
            && dispatch::docs_on(docs, bytes) == docs,
        request::is_json(bytes) ==> dispatch::act_on(docs, bytes) == dispatch::act_for(
            docs,
            request::asked_in(bytes),
        ) && dispatch::docs_on(docs, bytes) == dispatch::docs_after(docs, request::asked_in(bytes)),
{
}

// ---------------------------------------------------------------------------
// Framing
// ---------------------------------------------------------------------------

/// A message is sent behind its length in bytes and an empty line.
pub proof fn law_framed(body: Seq<char>)
    ensures
        wire::framed(body) == "Content-Length: "@ + text::dec(vstd::utf8::encode_utf8(body).len())
            + "\r\n"@ + "\r\n"@ + body,
{
}

/// The line break at the end of a line is taken off, and nothing else.
pub proof fn law_unbroken(s: Seq<char>)
    ensures
        wire::unbroken(s).len() <= s.len(),
        wire::unbroken(s) == s.take(wire::unbroken(s).len() as int),
        forall|i: int|
            wire::unbroken(s).len() <= i < s.len() ==> #[trigger] s[i] == '\r' || s[i] == '\n',
        wire::unbroken(s).len() > 0 ==> wire::unbroken(s).last() != '\r' && wire::unbroken(s).last()
            != '\n',
    decreases s.len(),
{
    if s.len() > 0 && (s.last() == '\r' || s.last() == '\n') {
        let t = s.drop_last();
        law_unbroken(t);
        let n = wire::unbroken(t).len() as int;
        assert(t.take(n) =~= s.take(n));
        assert forall|i: int| n <= i < s.len() implies #[trigger] s[i] == '\r' || s[i] == '\n' by {
            if i < t.len() {
                assert(s[i] == t[i]);
            }
        }
    } else {
        assert(s.take(s.len() as int) =~= s);
    }
}

/// An empty header line ends the headers and keeps the length that was given; a line
/// with a length gives it anew; any other line says nothing.
pub proof fn law_header_line(h: wire::Headers, line: Seq<char>, rest: Seq<char>)
    ensures
        wire::unbroken(line).len() == 0 ==> wire::after_line(h, line) == (wire::Headers {
            length: h.length,
            done: true,
        }),
        wire::unbroken(line) == "Content-Length:"@ + rest ==> wire::after_line(h, line) == (
        wire::Headers {
            length: match text::number(text::trimmed(rest), usize::MAX as nat) {
                Some(n) => Some(n as usize),
                None => None,
            },
            done: h.done,
        }),
        wire::unbroken(line).len() > 0 && !text::begins_with(
            wire::unbroken(line),
            "Content-Length:"@,
        ) ==> wire::after_line(h, line) == h,
{
    reveal_strlit("Content-Length:");
    let prefix = "Content-Length:"@;
    assert(prefix.len() == 15);
    let t = prefix + rest;
    assert(t.subrange(0, 15) =~= prefix);
    assert(t.subrange(15, t.len() as int) =~= rest);
}

/// Header lines are read one by one until they end: each up to its line break. One that
/// has not come in whole is waited for, and one that is no text is no message.
pub proof fn law_next_header(bytes: Seq<u8>, i: int, length: Option<usize>, e: int)
    requires
        0 <= i < e <= bytes.len(),
        bytes[e - 1] == 10,
        forall|k: int| i <= k < e - 1 ==> #[trigger] bytes[k] != 10,
    ensures
        ({
            let h = wire::Headers { length, done: false };
            let line = bytes.subrange(i, e);
            if vstd::utf8::valid_utf8(line) {
                wire::message_from(bytes, i, h) == wire::message_from(
                    bytes,
                    e,
                    wire::after_line(h, vstd::utf8::decode_utf8(line)),
                )
            } else {
                wire::message_from(bytes, i, h) == wire::Message::Broken
            }
        }),
{
    lemma_first_break(bytes, i, e);
}

proof fn lemma_first_break(bytes: Seq<u8>, i: int, e: int)
    requires
        0 <= i < e <= bytes.len(),
        bytes[e - 1] == 10,
        forall|k: int| i <= k < e - 1 ==> #[trigger] bytes[k] != 10,
    ensures
        wire::line_end(bytes, i) == Some(e),
    decreases e - i,
{
    if i < e - 1 {
        assert(bytes[i] != 10);
        lemma_first_break(bytes, i + 1, e);
    }
}

/// Without a line break the headers go on, and more is waited for.
pub proof fn law_headers_wait(bytes: Seq<u8>, i: int, length: Option<usize>)
    requires
        0 <= i <= bytes.len(),
        forall|k: int| i <= k < bytes.len() ==> #[trigger] bytes[k] != 10,
    ensures
        wire::message_from(bytes, i, wire::Headers { length, done: false }) == wire::Message::Short,
{
    lemma_no_break(bytes, i);
}

proof fn lemma_no_break(bytes: Seq<u8>, i: int)
    requires
        0 <= i <= bytes.len(),
        forall|k: int| i <= k < bytes.len() ==> #[trigger] bytes[k] != 10,
    ensures
        wire::line_end(bytes, i) is None,
    decreases bytes.len() - i,
{
    if i < bytes.len() {
        assert(bytes[i] != 10);
        lemma_no_break(bytes, i + 1);
    }
}

/// Reading begins with nothing known of the message.
pub proof fn law_message_begins(bytes: Seq<u8>)
    ensures
        wire::message(bytes) == wire::message_from(
            bytes,
            0,
            wire::Headers { length: None, done: false },
        ),
{
}

/// Once the headers have ended, the body is as many bytes as they say; it is waited
/// for where they have not all come in.
pub proof fn law_body(bytes: Seq<u8>, i: int, n: usize)
    requires
        0 <= i <= bytes.len(),
    ensures
        ({
            let h = wire::Headers { length: Some(n), done: true };
            &&& i + n <= bytes.len() ==> wire::message_from(bytes, i, h) == (wire::Message::Whole {
                body: bytes.subrange(i, i + n),
                rest: bytes.skip(i + n),
            })
            &&& i + n > bytes.len() ==> wire::message_from(bytes, i, h) == wire::Message::Short
        }),
{
}

} // verus!
