//! What a message asks the server to do.

use vstd::prelude::*;

use crate::names::NameMap;
use crate::server::reply;
use crate::server::request;
use crate::server::request::Request;
use crate::text;

verus! {

/// A question about a document.
#[derive(Debug)]
pub struct Question {
    /// The identifier of the request, as JSON.
    pub id: String,
    pub uri: String,
    /// The text of the document.
    pub text: String,
}

/// What to do about a message.
#[derive(Debug)]
pub enum Action {
    /// Nothing.
    Ignore,
    /// End the server.
    Stop,
    /// Send this body.
    Send(String),
    /// Look for errors in a document and tell them.
    Diagnose { uri: String, text: String },
    /// Tell the signature of the symbol at a position.
    Hover { about: Question, line: u32, column: u32 },
    /// Tell where the symbol at a position is defined.
    Define { about: Question, line: u32, column: u32 },
    /// Tell the names that can be completed to.
    Complete { about: Question },
    /// Tell the symbols of a document.
    Symbols { about: Question },
    /// Tell which lines can be folded.
    Fold { about: Question },
    /// Tell where the symbol at a position is used.
    Refer { about: Question, line: u32, column: u32 },
}

/// The mathematical value of a `Question`.
#[verifier::ext_equal]
pub struct About {
    pub id: Seq<char>,
    pub uri: Seq<char>,
    pub text: Seq<char>,
}

/// The mathematical value of an `Action`.
#[verifier::ext_equal]
pub enum Act {
    Ignore,
    Stop,
    Send(Seq<char>),
    Diagnose { uri: Seq<char>, text: Seq<char> },
    Hover { about: About, line: u32, column: u32 },
    Define { about: About, line: u32, column: u32 },
    Complete { about: About },
    Symbols { about: About },
    Fold { about: About },
    Refer { about: About, line: u32, column: u32 },
}

impl View for Question {
    type V = About;

    open spec fn view(&self) -> About {
        About { id: self.id@, uri: self.uri@, text: self.text@ }
    }
}

impl View for Action {
    type V = Act;

    open spec fn view(&self) -> Act {
        match self {
            Action::Ignore => Act::Ignore,
            Action::Stop => Act::Stop,
            Action::Send(body) => Act::Send(body@),
            Action::Diagnose { uri, text } => Act::Diagnose { uri: uri@, text: text@ },
            Action::Hover { about, line, column } => Act::Hover {
                about: about@,
                line: *line,
                column: *column,
            },
            Action::Define { about, line, column } => Act::Define {
                about: about@,
                line: *line,
                column: *column,
            },
            Action::Complete { about } => Act::Complete { about: about@ },
            Action::Symbols { about } => Act::Symbols { about: about@ },
            Action::Fold { about } => Act::Fold { about: about@ },
            Action::Refer { about, line, column } => Act::Refer {
                about: about@,
                line: *line,
                column: *column,
            },
        }
    }
}

/// The open documents.
pub type Docs = Map<Seq<char>, Seq<char>>;

/// The text of a document; one that is not open has none.
pub open spec fn text_of(docs: Docs, uri: Seq<char>) -> Seq<char> {
    if docs.dom().contains(uri) {
        docs[uri]
    } else {
        ""@
    }
}

/// The open documents after a message: an opened document has the text that the
/// message gives, a changed one that of the last change.
pub open spec fn docs_after(docs: Docs, r: request::Asked) -> Docs {
    if r.method == "textDocument/didOpen"@ {
        docs.insert(r.uri, r.text)
    } else if r.method == "textDocument/didChange"@ {
        docs.insert(r.uri, r.change)
    } else {
        docs
    }
}

/// The question that a message asks.
pub open spec fn question(docs: Docs, r: request::Asked) -> About {
    About { id: r.id, uri: r.uri, text: text_of(docs, r.uri) }
}

/// What to do about a message.
pub open spec fn act_for(docs: Docs, r: request::Asked) -> Act {
    if r.method == "initialize"@ {
        Act::Send(reply::answer_text(r.id, reply::CAPABILITIES@))
    } else if r.method == "textDocument/didOpen"@ {
        Act::Diagnose { uri: r.uri, text: r.text }
    } else if r.method == "textDocument/didChange"@ {
        Act::Diagnose { uri: r.uri, text: r.change }
    } else if r.method == "shutdown"@ {
        Act::Send(reply::answer_text(r.id, "null"@))
    } else if r.method == "exit"@ {
        Act::Stop
    } else if r.method == "textDocument/hover"@ {
        Act::Hover { about: question(docs, r), line: r.line, column: r.column }
    } else if r.method == "textDocument/definition"@ {
        Act::Define { about: question(docs, r), line: r.line, column: r.column }
    } else if r.method == "textDocument/completion"@ {
        Act::Complete { about: question(docs, r) }
    } else if r.method == "textDocument/documentSymbol"@ {
        Act::Symbols { about: question(docs, r) }
    } else if r.method == "textDocument/foldingRange"@ {
        Act::Fold { about: question(docs, r) }
    } else if r.method == "textDocument/references"@ {
        Act::Refer { about: question(docs, r), line: r.line, column: r.column }
    } else {
        Act::Ignore
    }
}

/// The open documents after a message in bytes; one that is not JSON changes none.
pub open spec fn docs_on(docs: Docs, bytes: Seq<u8>) -> Docs {
    if request::is_json(bytes) {
        docs_after(docs, request::asked_in(bytes))
    } else {
        docs
    }
}

/// What to do about a message in bytes; one that is not JSON ends the server.
pub open spec fn act_on(docs: Docs, bytes: Seq<u8>) -> Act {
    if request::is_json(bytes) {
        act_for(docs, request::asked_in(bytes))
    } else {
        Act::Stop
    }
}

/// The text of a document.
fn uri_text(uri: &str, docs: &NameMap<String>) -> (r: String)
    ensures
        r@ == text_of(docs@, uri@),
{
    match docs.get(uri) {
        Some(t) => t.clone(),
        None => "".to_string(),
    }
}

/// Do what a request asks of the open documents, and tell what is left to do.
pub fn dispatch(r: &Request, docs: &mut NameMap<String>) -> (action: Action)
    ensures
        final(docs)@ == docs_after(old(docs)@, r@),
        action@ == act_for(old(docs)@, r@),
{
    proof {
        // The names of different methods are different texts.
        reveal_strlit("textDocument/didOpen");
        reveal_strlit("textDocument/didChange");
        reveal_strlit("initialize");
        assert("initialize"@.len() == 10);
    }
    let method = r.method.as_str();
    if text::same(method, "initialize") {
        return Action::Send(reply::answer(r.id.as_str(), reply::CAPABILITIES));
    }
    if text::same(method, "textDocument/didOpen") {
        docs.insert(r.uri.as_str(), r.text.clone());
        return Action::Diagnose { uri: r.uri.clone(), text: r.text.clone() };
    }
    if text::same(method, "textDocument/didChange") {
        docs.insert(r.uri.as_str(), r.change.clone());
        return Action::Diagnose { uri: r.uri.clone(), text: r.change.clone() };
    }
    if text::same(method, "shutdown") {
        return Action::Send(reply::answer(r.id.as_str(), "null"));
    }
    if text::same(method, "exit") {
        return Action::Stop;
    }
    let about = Question {
        id: r.id.clone(),
        uri: r.uri.clone(),
        text: uri_text(r.uri.as_str(), docs),
    };
    if text::same(method, "textDocument/hover") {
        Action::Hover { about, line: r.line, column: r.column }
    } else if text::same(method, "textDocument/definition") {
        Action::Define { about, line: r.line, column: r.column }
    } else if text::same(method, "textDocument/completion") {
        Action::Complete { about }
    } else if text::same(method, "textDocument/documentSymbol") {
        Action::Symbols { about }
    } else if text::same(method, "textDocument/foldingRange") {
        Action::Fold { about }
    } else if text::same(method, "textDocument/references") {
        Action::Refer { about, line: r.line, column: r.column }
    } else {
        Action::Ignore
    }
}

/// Do what a message asks of the open documents, and tell what is left to do; a
/// message that is not JSON ends the server.
pub fn handle(bytes: &[u8], docs: &mut NameMap<String>) -> (action: Action)
    ensures
        request::is_json(bytes@) ==> final(docs)@ == docs_after(
            old(docs)@,
            request::asked_in(bytes@),
        ) && action@ == act_for(old(docs)@, request::asked_in(bytes@)),
        !request::is_json(bytes@) ==> final(docs)@ == old(docs)@ && action@ == Act::Stop,
        final(docs)@ == docs_on(old(docs)@, bytes@),
        action@ == act_on(old(docs)@, bytes@),
{
    match request::read(bytes) {
        Some(r) => dispatch(&r, docs),
        None => Action::Stop,
    }
}

} // verus!
