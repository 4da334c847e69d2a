//! What values stand for: nothing is lost or swapped between a value and its model.

use vstd::prelude::*;

use crate::ast;
use crate::ast::TypeNode;
use crate::codegen::c;
use crate::codegen::exprs;
use crate::codegen::model;
use crate::codegen::stmts;
use crate::codegen::typedefs;
use crate::codegen::typedefs::Defs;
use crate::error;
use crate::error::{XError, XResult};
use crate::server::dispatch::{About, Act, Action, Question};
use crate::server::request::{Asked, Request};
use crate::server::wire;
use crate::text;
use crate::values;

verus! {

// ---------------------------------------------------------------------------
// Results
// ---------------------------------------------------------------------------

/// A result stands for its value, or for its error with the message.
pub proof fn law_outcomes<T: View>(r: XResult<T>)
    ensures
        r matches Ok(v) ==> error::outcome(r) == Ok::<T::V, error::Fault>(v@),
        r matches Err(XError::Type(m)) ==> error::outcome(r) == Err::<T::V, error::Fault>(
            error::Fault::Type(m@),
        ),
        r matches Err(XError::Codegen(m)) ==> error::outcome(r) == Err::<T::V, error::Fault>(
            error::Fault::Codegen(m@),
        ),
{
}

/// A step of the generator goes as it is wanted where it leaves the state that is
/// wanted, or tells the fault that is.
pub proof fn law_steps_go_as_wanted(
    r: XResult<()>,
    after: model::State,
    st: model::State,
    f: error::Fault,
)
    ensures
        stmts::went(r, after, Ok(st)) <==> r is Ok && after == st,
        stmts::went(r, after, Err(f)) <==> (r matches Err(e) && e@ == f),
{
}

/// And so does a step of the collection of definitions.
pub proof fn law_collecting_goes_as_wanted(r: XResult<()>, after: Defs, t: Defs, f: error::Fault)
    ensures
        typedefs::collected(r, after, Ok(t)) <==> r is Ok && after == t,
        typedefs::collected(r, after, Err(f)) <==> (r matches Err(e) && e@ == f),
{
}

// ---------------------------------------------------------------------------
// Types
// ---------------------------------------------------------------------------

/// A type stands for its name and its arguments, in order, or for its constant.
pub proof fn law_types(t: TypeNode, k: int)
    ensures
        t matches TypeNode::ConstTypeArg { value } ==> t@ == (ast::Type::Const { value: value@ }),
        t matches TypeNode::TypeExpr { name, args } ==> (t@ matches ast::Type::Named {
            name: n,
            args: a,
        } && n == name@ && a.len() == args@.len() && (0 <= k < args@.len() ==> a[k] == args@[k]@)),
{
}

/// Texts stand for themselves, in order.
pub proof fn law_text_lists(v: Seq<String>, k: int)
    requires
        0 <= k < v.len(),
    ensures
        text::texts(v).len() == v.len(),
        text::texts(v)[k] == v[k]@,
{
}

/// A variable stands for whether it is mutable and for its type.
pub proof fn law_variables(v: values::Var)
    ensures
        v@.mutable == v.mutable,
        v.ty is None ==> v@.ty is None,
        v.ty matches Some(t) ==> v@.ty == Some(t@),
{
}

/// Fields and payloads stand for their names and types, in order.
pub proof fn law_parts(f: c::Fields, p: c::Payloads, k: int)
    ensures
        f@.len() == f.list@.len(),
        0 <= k < f.list@.len() ==> f@[k] == (f.list@[k].0@, f.list@[k].1@),
        p@.len() == p.list@.len(),
        0 <= k < p.list@.len() ==> p@[k] == match p.list@[k] {
            Some(t) => Some(t@),
            None => None,
        },
{
}

/// Rendered code stands for its text and for whether a TLS builtin is called in it; where
/// there is none, for none.
pub proof fn law_rendered(c: exprs::Rendered, r: XResult<Option<exprs::Rendered>>)
    ensures
        c.code().text == c.text@,
        c.code().tls == c.tls,
        r matches Ok(Some(x)) ==> exprs::perhaps(r) == Ok::<Option<model::Code>, error::Fault>(
            Some(x.code()),
        ),
        r matches Ok(None) ==> exprs::perhaps(r) == Ok::<Option<model::Code>, error::Fault>(None),
        r matches Err(e) ==> exprs::perhaps(r) == Err::<Option<model::Code>, error::Fault>(e@),
{
}

/// And so does a result of rendering, or its error.
pub(crate) proof fn law_rendered_result(r: XResult<exprs::Rendered>)
    ensures
        r matches Ok(x) ==> exprs::rendered(r) == Ok::<model::Code, error::Fault>(x.code()),
        r matches Err(e) ==> exprs::rendered(r) == Err::<model::Code, error::Fault>(e@),
{
}

// ---------------------------------------------------------------------------
// The server
// ---------------------------------------------------------------------------

/// A request stands for its parts.
pub proof fn law_requests(r: Request)
    ensures
        r@ == (Asked {
            method: r.method@,
            id: r.id@,
            uri: r.uri@,
            text: r.text@,
            change: r.change@,
            line: r.line,
            column: r.column,
        }),
{
}

/// A question stands for its parts.
pub proof fn law_questions(q: Question)
    ensures
        q@ == (About { id: q.id@, uri: q.uri@, text: q.text@ }),
{
}

/// What is to be done stands for itself, with its parts.
pub proof fn law_actions_shown(a: Action)
    ensures
        a is Ignore ==> a@ == Act::Ignore,
        a is Stop ==> a@ == Act::Stop,
        a matches Action::Send(body) ==> a@ == Act::Send(body@),
        a matches Action::Diagnose { uri, text } ==> a@ == (Act::Diagnose { uri: uri@, text: text@ }),
        a matches Action::Hover { about, line, column } ==> a@ == (Act::Hover {
            about: about@,
            line,
            column,
        }),
        a matches Action::Define { about, line, column } ==> a@ == (Act::Define {
            about: about@,
            line,
            column,
        }),
        a matches Action::Complete { about } ==> a@ == (Act::Complete { about: about@ }),
        a matches Action::Symbols { about } ==> a@ == (Act::Symbols { about: about@ }),
        a matches Action::Fold { about } ==> a@ == (Act::Fold { about: about@ }),
        a matches Action::Refer { about, line, column } ==> a@ == (Act::Refer {
            about: about@,
            line,
            column,
        }),
{
}

/// What was received stands for the body and for what comes behind it.
pub proof fn law_received(r: wire::Received, bytes: Seq<u8>)
    ensures
        r is Short ==> r.of(bytes) == wire::Message::Short,
        r is Broken ==> r.of(bytes) == wire::Message::Broken,
        r matches wire::Received::Whole { body, used } ==> r.of(bytes) == (wire::Message::Whole {
            body: body@,
            rest: bytes.skip(used as int),
        }),
{
}

} // verus!
