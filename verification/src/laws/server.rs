//! The language server: documents, questions and answers.

use vstd::prelude::*;

use crate::server::dispatch;
use crate::server::reply;
use crate::server::request;

verus! {

/// Whether a message asks a question about a document.
pub open spec fn asks(method: Seq<char>) -> bool {
    ||| method == "textDocument/hover"@
    ||| method == "textDocument/definition"@
    ||| method == "textDocument/completion"@
    ||| method == "textDocument/documentSymbol"@
    ||| method == "textDocument/foldingRange"@
    ||| method == "textDocument/references"@
}

/// The question in what is to be done, if there is one.
pub open spec fn question_in(act: dispatch::Act) -> Option<dispatch::About> {
    match act {
        dispatch::Act::Hover { about, .. } => Some(about),
        dispatch::Act::Define { about, .. } => Some(about),
        dispatch::Act::Complete { about } => Some(about),
        dispatch::Act::Symbols { about } => Some(about),
        dispatch::Act::Fold { about } => Some(about),
        dispatch::Act::Refer { about, .. } => Some(about),
        _ => None,
    }
}

proof fn lemma_methods_differ(method: Seq<char>)
    ensures
        asks(method) ==> method != "initialize"@ && method != "textDocument/didOpen"@ && method
            != "textDocument/didChange"@ && method != "shutdown"@ && method != "exit"@,
        "exit"@ != "initialize"@ && "exit"@ != "textDocument/didOpen"@ && "exit"@
            != "textDocument/didChange"@ && "exit"@ != "shutdown"@,
        "textDocument/didOpen"@ != "initialize"@ && "textDocument/didChange"@ != "initialize"@
            && "textDocument/didOpen"@ != "textDocument/didChange"@,
{
    reveal_strlit("textDocument/hover");
    reveal_strlit("textDocument/definition");
    reveal_strlit("textDocument/completion");
    reveal_strlit("textDocument/documentSymbol");
    reveal_strlit("textDocument/foldingRange");
    reveal_strlit("textDocument/references");
    reveal_strlit("initialize");
    reveal_strlit("textDocument/didOpen");
    reveal_strlit("textDocument/didChange");
    reveal_strlit("shutdown");
    reveal_strlit("exit");
    let open = "textDocument/didOpen"@;
    let change = "textDocument/didChange"@;
    assert(open.len() == 20 && open[13] == 'd' && open[14] == 'i' && open[15] == 'd');
    assert(change.len() == 22 && change[13] == 'd' && change[14] == 'i' && change[15] == 'd');
    assert("initialize"@.len() == 10 && "shutdown"@.len() == 8 && "exit"@.len() == 4);
    assert("textDocument/hover"@.len() == 18);
    assert("textDocument/definition"@.len() == 23);
    assert("textDocument/completion"@.len() == 23);
    assert("textDocument/documentSymbol"@.len() == 27);
    assert("textDocument/foldingRange"@.len() == 25);
    assert("textDocument/references"@.len() == 23);
}

/// A question is asked of the text that the document was given last: after a
/// document is opened, or changed, a question about it is put to that text, under
/// the identifier of the one who asks.
pub proof fn law_question_sees_last_text(
    docs: dispatch::Docs,
    given: request::Asked,
    asked: request::Asked,
)
    requires
        given.method == "textDocument/didOpen"@ || given.method == "textDocument/didChange"@,
        asks(asked.method),
        asked.uri == given.uri,
    ensures
        question_in(dispatch::act_for(dispatch::docs_after(docs, given), asked)) == Some(
            dispatch::About {
                id: asked.id,
                uri: asked.uri,
                text: if given.method == "textDocument/didOpen"@ {
                    given.text
                } else {
                    given.change
                },
            },
        ),
{
    lemma_methods_differ(asked.method);
}

/// A message about one document leaves the others as they are.
pub proof fn law_documents_are_apart(docs: dispatch::Docs, r: request::Asked, other: Seq<char>)
    requires
        other != r.uri,
    ensures
        dispatch::text_of(dispatch::docs_after(docs, r), other) == dispatch::text_of(docs, other),
{
}

/// Only `exit` ends the server.
pub proof fn law_only_exit_stops(docs: dispatch::Docs, r: request::Asked)
    ensures
        dispatch::act_for(docs, r) == dispatch::Act::Stop <==> r.method == "exit"@,
{
    lemma_methods_differ(r.method);
}

/// Positions survive the way in and out: a coordinate from zero that is counted
/// from one, and told from zero again, is the same.
pub proof fn law_positions_round_trip(k: u64)
    requires
        k < u32::MAX,
    ensures
        reply::from_zero(request::from_one(Some(k)) as nat) == k,
{
    assert(k < 0xffff_ffffu64 ==> (k as u32) as u64 == k) by (bit_vector);
}

} // verus!
