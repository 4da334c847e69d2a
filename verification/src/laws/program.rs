//! The generator: how a program is laid out.

use vstd::prelude::*;

use crate::ast::Item;
use crate::codegen::c;
use crate::codegen::model;
use crate::codegen::runtime;
use crate::codegen::stmts;
use crate::codegen::typedefs;
use crate::laws::statements;
use crate::source::Spanned;

verus! {

/// Whether the prototype of a function stands among the lines.
pub open spec fn announced(lines: Seq<Seq<char>>, st: model::State, item: Item, name: Seq<char>) -> bool {
    item matches Item::FnDecl { params, return_type, .. } && {
        let sig = stmts::signature_c(st.ctx.decls, name, params@, return_type@);
        sig is Ok && lines.contains(st.pad + (sig->Ok_0 + ";"@))
    }
}

proof fn lemma_prototype(st: model::State, item: Item, name: Seq<char>)
    requires
        item is FnDecl,
    ensures
        stmts::prototype_c(st, item, name) is Ok ==> {
            let after = stmts::prototype_c(st, item, name)->Ok_0;
            statements::continued(st, after) && announced(after.lines, st, item, name)
        },
{
    if stmts::prototype_c(st, item, name) is Ok {
        let after = stmts::prototype_c(st, item, name)->Ok_0;
        assert(after.lines[st.lines.len() as int] == after.lines.last());
    }
}

proof fn lemma_still_announced(
    a: model::State,
    b: model::State,
    st: model::State,
    item: Item,
    name: Seq<char>,
)
    requires
        announced(a.lines, st, item, name),
        statements::grown(a, b),
    ensures
        announced(b.lines, st, item, name),
{
    if let Item::FnDecl { params, return_type, .. } = item {
        let sig = stmts::signature_c(st.ctx.decls, name, params@, return_type@);
        let line = st.pad + (sig->Ok_0 + ";"@);
        let i = choose|i: int| 0 <= i < a.lines.len() && a.lines[i] == line;
        assert(b.lines[i] == line);
    }
}

/// The name under which a method is called in C.
pub open spec fn called(target: Seq<char>, item: Item) -> Seq<char> {
    match item {
        Item::FnDecl { name, .. } => model::method_name(target, name@),
        _ => Seq::empty(),
    }
}

proof fn lemma_method_prototypes(
    st: model::State,
    target: Seq<char>,
    methods: Seq<Spanned<Item>>,
    i: int,
)
    requires
        0 <= i,
    ensures
        c::method_prototypes_c(st, target, methods, i) is Ok ==> {
            let after = c::method_prototypes_c(st, target, methods, i)->Ok_0;
            &&& statements::continued(st, after)
            &&& forall|j: int|
                i <= j < methods.len() && (#[trigger] methods[j]).node is FnDecl ==> announced(
                    after.lines,
                    st,
                    methods[j].node,
                    called(target, methods[j].node),
                )
        },
    decreases methods.len() - i,
{
    if i < methods.len() {
        let item = methods[i].node;
        let step = match item {
            Item::FnDecl { name, .. } => stmts::prototype_c(
                st,
                item,
                model::method_name(target, name@),
            ),
            _ => Ok(st),
        };
        if item is FnDecl {
            lemma_prototype(st, item, called(target, item));
        }
        if step is Ok {
            lemma_method_prototypes(step->Ok_0, target, methods, i + 1);
            let rest = c::method_prototypes_c(step->Ok_0, target, methods, i + 1);
            if rest is Ok && item is FnDecl {
                lemma_still_announced(step->Ok_0, rest->Ok_0, st, item, called(target, item));
            }
        }
    }
}

/// Whether the prototypes of an item stand among the lines: its own where it is a
/// function, those of its methods where it is an `impl` block.
pub open spec fn item_announced(lines: Seq<Seq<char>>, st: model::State, item: Item) -> bool {
    match item {
        Item::FnDecl { name, .. } => announced(lines, st, item, name@),
        Item::ImplDecl { target, methods } => forall|j: int|
            0 <= j < methods@.len() && (#[trigger] methods@[j]).node is FnDecl ==> announced(
                lines,
                st,
                methods@[j].node,
                called(model::owner_name(st.ctx.decls, target@), methods@[j].node),
            ),
        _ => true,
    }
}

proof fn lemma_item_still_announced(
    a: model::State,
    b: model::State,
    st: model::State,
    item: Item,
)
    requires
        item_announced(a.lines, st, item),
        statements::grown(a, b),
    ensures
        item_announced(b.lines, st, item),
{
    match item {
        Item::FnDecl { name, .. } => lemma_still_announced(a, b, st, item, name@),
        Item::ImplDecl { target, methods } => {
            assert forall|j: int|
                0 <= j < methods@.len() && (#[trigger] methods@[j]).node is FnDecl implies announced(
                b.lines,
                st,
                methods@[j].node,
                called(model::owner_name(st.ctx.decls, target@), methods@[j].node),
            ) by {
                lemma_still_announced(
                    a,
                    b,
                    st,
                    methods@[j].node,
                    called(model::owner_name(st.ctx.decls, target@), methods@[j].node),
                );
            }
        },
        _ => {},
    }
}

pub proof fn lemma_prototypes(st: model::State, items: Seq<Spanned<Item>>, i: int)
    requires
        0 <= i,
    ensures
        c::prototypes_c(st, items, i) is Ok ==> {
            let after = c::prototypes_c(st, items, i)->Ok_0;
            &&& statements::continued(st, after)
            &&& forall|j: int|
                i <= j < items.len() ==> item_announced(
                    after.lines,
                    st,
                    (#[trigger] items[j]).node,
                )
        },
    decreases items.len() - i,
{
    if i < items.len() {
        let item = items[i].node;
        let step = match item {
            Item::FnDecl { name, .. } => stmts::prototype_c(st, item, name@),
            Item::ImplDecl { target, methods } => c::method_prototypes_c(
                st,
                model::owner_name(st.ctx.decls, target@),
                methods@,
                0,
            ),
            _ => Ok(st),
        };
        match item {
            Item::FnDecl { name, .. } => lemma_prototype(st, item, name@),
            Item::ImplDecl { target, methods } => lemma_method_prototypes(
                st,
                model::owner_name(st.ctx.decls, target@),
                methods@,
                0,
            ),
            _ => {},
        }
        if step is Ok {
            lemma_prototypes(step->Ok_0, items, i + 1);
            let rest = c::prototypes_c(step->Ok_0, items, i + 1);
            if rest is Ok {
                lemma_item_still_announced(step->Ok_0, rest->Ok_0, st, item);
            }
        }
    }
}

proof fn lemma_methods(
    st: model::State,
    target: Seq<char>,
    methods: Seq<Spanned<Item>>,
    i: int,
)
    requires
        st.ret is None,
    ensures
        c::methods_c(st, target, methods, i) is Ok ==> statements::continued(
            st,
            c::methods_c(st, target, methods, i)->Ok_0,
        ),
    decreases methods.len() - i,
{
    if 0 <= i < methods.len() {
        match methods[i].node {
            Item::FnDecl { name, .. } => {
                let called = model::method_name(target, name@);
                statements::law_function_only_adds(st, methods[i].node, called);
                let step = stmts::then_line(stmts::fn_c(st, methods[i].node, called), ""@);
                if step is Ok {
                    lemma_methods(step->Ok_0, target, methods, i + 1);
                }
            },
            _ => lemma_methods(st, target, methods, i + 1),
        }
    }
}

pub proof fn lemma_functions(st: model::State, items: Seq<Spanned<Item>>, i: int)
    requires
        st.ret is None,
    ensures
        c::functions_c(st, items, i) is Ok ==> statements::continued(
            st,
            c::functions_c(st, items, i)->Ok_0,
        ),
    decreases items.len() - i,
{
    if 0 <= i < items.len() {
        match items[i].node {
            Item::FnDecl { name, .. } => {
                statements::law_function_only_adds(st, items[i].node, name@);
                let step = stmts::then_line(stmts::fn_c(st, items[i].node, name@), ""@);
                if step is Ok {
                    lemma_functions(step->Ok_0, items, i + 1);
                }
            },
            Item::ImplDecl { target, methods } => {
                let owner = model::owner_name(st.ctx.decls, target@);
                lemma_methods(st, owner, methods@, 0);
                let step = c::methods_c(st, owner, methods@, 0);
                if step is Ok {
                    lemma_functions(step->Ok_0, items, i + 1);
                }
            },
            _ => lemma_functions(st, items, i + 1),
        }
    }
}

/// What is written before the first function body: the runtime, the types and
/// the prototypes.
pub open spec fn head_of(st: model::State, items: Seq<Spanned<Item>>) -> model::Outcome<
    model::State,
> {
    let known = model::with_decls(st, model::with_program(st.ctx.decls, items));
    match typedefs::program_defs(known.ctx.decls, items) {
        Err(f) => Err(f),
        Ok(defs) => c::prototypes_c(
            c::spaced(
                model::with_lines(model::with_lines(known, runtime::preamble(), 0), defs, 0),
            ),
            items,
            0,
        ),
    }
}

/// Functions may stand in any order: before the first function body, every
/// function and every method of the program has its prototype.
pub proof fn law_prototypes_come_first(st: model::State, items: Seq<Spanned<Item>>, j: int)
    requires
        st.ret is None,
        c::written(st, items) is Ok,
        0 <= j < items.len(),
    ensures
        head_of(st, items) is Ok,
        item_announced(
            head_of(st, items)->Ok_0.lines,
            head_of(st, items)->Ok_0,
            items[j].node,
        ),
        statements::grown(head_of(st, items)->Ok_0, c::written(st, items)->Ok_0),
{
    let known = model::with_decls(st, model::with_program(st.ctx.decls, items));
    let defs = typedefs::program_defs(known.ctx.decls, items)->Ok_0;
    let a = model::with_lines(known, runtime::preamble(), 0);
    let b = model::with_lines(a, defs, 0);
    let begun = c::spaced(b);
    model::lemma_with_lines(known, runtime::preamble(), 0);
    model::lemma_with_lines(a, defs, 0);
    lemma_prototypes(begun, items, 0);
    let head = head_of(st, items)->Ok_0;
    assert(head.ctx == begun.ctx && head.pad == begun.pad);
    lemma_functions(model::emitted(head, ""@), items, 0);
    assert(item_announced(head.lines, begun, items[j].node));
    lemma_same_signatures(head.lines, begun, head, items[j].node);
    assert(statements::grown(head, model::emitted(head, ""@)));
}

proof fn lemma_same_signatures(
    lines: Seq<Seq<char>>,
    a: model::State,
    b: model::State,
    item: Item,
)
    requires
        a.ctx.decls == b.ctx.decls,
        a.pad == b.pad,
        item_announced(lines, a, item),
    ensures
        item_announced(lines, b, item),
{
}

} // verus!
