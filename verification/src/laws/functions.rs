//! The generator: what functions, methods and whole programs become.

use vstd::prelude::*;

use crate::ast;
use crate::ast::{Item, Param};
use crate::codegen::c;
use crate::codegen::model;
use crate::codegen::runtime;
use crate::codegen::stmts;
use crate::codegen::typedefs;
use crate::error;
use crate::laws::branches;
use crate::laws::lines;
use crate::source::Spanned;
use crate::text;

verus! {

// ---------------------------------------------------------------------------
// Heads
// ---------------------------------------------------------------------------

/// Whether a text declares a parameter with its C type: by pointer where it is the
/// receiver of a method with `mut self`.
pub open spec fn declares(d: model::Decls, p: Param, first: bool, c: Seq<char>) -> bool {
    model::type_c(d, p.ty@) matches Ok(t) && c == if first && p.mutable && p.name@ == "self"@ {
        t + " *"@ + p.name@
    } else {
        t + " "@ + p.name@
    }
}

/// The parameters of a function, one by one: the `k`-th text declares the `k`-th
/// parameter.
pub proof fn law_each_parameter(d: model::Decls, params: Seq<Param>, n: int)
    requires
        0 <= n <= params.len(),
    ensures
        match stmts::params_c(d, params, n) {
            Ok(cs) => cs.len() == n && forall|k: int|
                0 <= k < n ==> declares(d, params[k], k == 0, #[trigger] cs[k]),
            Err(f) => exists|k: int|
                0 <= k < n && model::type_c(d, (#[trigger] params[k]).ty@) == Err::<
                    Seq<char>,
                    error::Fault,
                >(f),
        },
    decreases n,
{
    if n > 0 {
        law_each_parameter(d, params, n - 1);
        if let Ok(cs) = stmts::params_c(d, params, n - 1) {
            match model::type_c(d, params[n - 1].ty@) {
                Ok(t) => {
                    let all = stmts::params_c(d, params, n)->Ok_0;
                    assert forall|k: int| 0 <= k < n implies declares(
                        d,
                        params[k],
                        k == 0,
                        #[trigger] all[k],
                    ) by {
                        if k < n - 1 {
                            assert(all[k] == cs[k]);
                        }
                    }
                },
                Err(f) => {
                    assert(model::type_c(d, params[n - 1].ty@) == Err::<Seq<char>, error::Fault>(f));
                },
            }
        } else {
            let f = stmts::params_c(d, params, n - 1)->Err_0;
            let k = choose|k: int|
                0 <= k < n - 1 && model::type_c(d, (#[trigger] params[k]).ty@) == Err::<
                    Seq<char>,
                    error::Fault,
                >(f);
            assert(model::type_c(d, params[k].ty@) == Err::<Seq<char>, error::Fault>(f));
        }
    }
}

/// A head.
pub open spec fn head(t: Seq<char>) -> model::Outcome<Seq<char>> {
    Ok(t)
}

/// The head of a function: the type that it gives back, its name, and its parameters;
/// `main` gets those of the command line, and no parameters are `void`.
pub proof fn law_signature(
    d: model::Decls,
    name: Seq<char>,
    params: Seq<Param>,
    return_type: ast::Type,
    t: Seq<char>,
)
    requires
        model::type_c(d, return_type) == head(t),
    ensures
        params.len() == 0 && name == "main"@ ==> stmts::signature_c(d, name, params, return_type)
            == head(t + " "@ + name + "("@ + "int argc, char** argv"@ + ")"@),
        params.len() == 0 && name != "main"@ ==> stmts::signature_c(d, name, params, return_type)
            == head(t + " "@ + name + "("@ + "void"@ + ")"@),
        params.len() > 0 ==> (match stmts::params_c(d, params, params.len() as int) {
            Ok(cs) => stmts::signature_c(d, name, params, return_type) == head(
                t + " "@ + name + "("@ + text::joined(cs, ", "@) + ")"@,
            ),
            Err(f) => stmts::signature_c(d, name, params, return_type) == Err::<
                Seq<char>,
                error::Fault,
            >(f),
        }),
{
}

/// Where the type that a function gives back has no C, that is told.
pub proof fn law_signature_fault(
    d: model::Decls,
    name: Seq<char>,
    params: Seq<Param>,
    return_type: ast::Type,
    f: error::Fault,
)
    requires
        model::type_c(d, return_type) == Err::<Seq<char>, error::Fault>(f),
    ensures
        stmts::signature_c(d, name, params, return_type) == Err::<Seq<char>, error::Fault>(f),
{
}

// ---------------------------------------------------------------------------
// Functions
// ---------------------------------------------------------------------------

/// The first `n` parameters as variables.
pub open spec fn with_first(st: model::State, params: Seq<Param>, n: int) -> model::State
    decreases n,
{
    if n <= 0 {
        st
    } else {
        lines::knows(with_first(st, params, n - 1), params[n - 1].name@, params[n - 1].ty@)
    }
}

proof fn lemma_with_first(st: model::State, params: Seq<Param>, i: int)
    requires
        0 <= i <= params.len(),
    ensures
        stmts::with_params(with_first(st, params, i), params, i) == with_first(
            st,
            params,
            params.len() as int,
        ),
    decreases params.len() - i,
{
    if i < params.len() {
        lines::law_steps(
            with_first(st, params, i),
            ""@,
            params[i].name@,
            params[i].ty@,
            ""@,
        );
        lemma_with_first(st, params, i + 1);
    }
}

/// A prototype is the head of the function with a semicolon behind it.
pub proof fn law_prototype_line(st: model::State, item: Item, name: Seq<char>)
    requires
        item is FnDecl,
    ensures
        item matches Item::FnDecl { params, return_type, .. } && (match stmts::signature_c(
            st.ctx.decls,
            name,
            params@,
            return_type@,
        ) {
            Ok(sig) => stmts::prototype_c(st, item, name) == branches::reached(
                lines::wrote(st, sig + ";"@, false),
            ),
            Err(f) => stmts::prototype_c(st, item, name) == lines::fault(f),
        }),
{
}

/// The state in which the body of a function is written: further in, in a scope of its
/// own with the parameters, in which `return` gives back the type of the function.
pub open spec fn in_body(st: model::State, item: Item, name: Seq<char>, sig: Seq<char>) -> model::State {
    match item {
        Item::FnDecl { params, return_type, .. } => {
            let inside = with_first(
                lines::scope_more(lines::deeper(lines::wrote(st, sig + " {"@, false))),
                params@,
                params@.len() as int,
            );
            let begun = if name == "main"@ && params@.len() == 0 {
                lines::wrote(
                    lines::wrote(inside, "__xlang_argc_g = argc;"@, false),
                    "__xlang_argv_g = argv;"@,
                    false,
                )
            } else {
                inside
            };
            model::State {
                ret: Some(return_type@),
                ctx: model::Ctx {
                    mut_self: params@.len() > 0 && params@[0].mutable && params@[0].name@ == "self"@,
                    ..begun.ctx
                },
                ..begun
            }
        },
        _ => st,
    }
}

/// A function: its head, its body inside, and the closing brace.
pub proof fn law_function_lines(st: model::State, item: Item, name: Seq<char>)
    requires
        item is FnDecl,
    ensures
        item matches Item::FnDecl { params, return_type, body, .. } && (match stmts::signature_c(
            st.ctx.decls,
            name,
            params@,
            return_type@,
        ) {
            Err(f) => stmts::fn_c(st, item, name) == lines::fault(f),
            Ok(sig) => match stmts::stmts_c(in_body(st, item, name, sig), body.statements@, 0) {
                Err(f) => stmts::fn_c(st, item, name) == lines::fault(f),
                Ok(after) => {
                    let out = lines::back(lines::scope_less(after), st.pad);
                    stmts::fn_c(st, item, name) == branches::reached(
                        lines::wrote(
                            model::State {
                                ret: None,
                                ctx: model::Ctx { mut_self: st.ctx.mut_self, ..out.ctx },
                                ..out
                            },
                            "}"@,
                            false,
                        ),
                    )
                },
            },
        }),
{
    if let Item::FnDecl { params, return_type, body, .. } = item {
        if let Ok(sig) = stmts::signature_c(st.ctx.decls, name, params@, return_type@) {
            let start = lines::scope_more(lines::deeper(lines::wrote(st, sig + " {"@, false)));
            lemma_with_first(start, params@, 0);
        }
    }
}

// ---------------------------------------------------------------------------
// Lists of items
// ---------------------------------------------------------------------------

/// Prototypes are written item by item: one for a function, one for each method of an
/// `impl` block, and none for any other item.
pub proof fn law_prototypes_in_order(st: model::State, items: Seq<Spanned<Item>>, i: int)
    requires
        0 <= i <= items.len(),
    ensures
        i == items.len() ==> c::prototypes_c(st, items, i) == branches::reached(st),
        i < items.len() ==> (match (match items[i].node {
            Item::FnDecl { name, .. } => stmts::prototype_c(st, items[i].node, name@),
            Item::ImplDecl { target, methods } => c::method_prototypes_c(
                st,
                model::owner_name(st.ctx.decls, target@),
                methods@,
                0,
            ),
            _ => branches::reached(st),
        }) {
            Ok(after) => c::prototypes_c(st, items, i) == c::prototypes_c(after, items, i + 1),
            Err(f) => c::prototypes_c(st, items, i) == lines::fault(f),
        }),
{
}

/// A method is announced, and written, under the name of its type and its own.
pub proof fn law_methods_in_order(
    st: model::State,
    owner: Seq<char>,
    methods: Seq<Spanned<Item>>,
    i: int,
)
    requires
        0 <= i <= methods.len(),
    ensures
        i == methods.len() ==> c::method_prototypes_c(st, owner, methods, i) == branches::reached(st),
        i == methods.len() ==> c::methods_c(st, owner, methods, i) == branches::reached(st),
        i < methods.len() ==> (methods[i].node matches Item::FnDecl { name, .. } ==> ({
            let called = "__xlang_method_"@ + owner + "_"@ + name@;
            &&& match stmts::prototype_c(st, methods[i].node, called) {
                Ok(after) => c::method_prototypes_c(st, owner, methods, i) == c::method_prototypes_c(
                    after,
                    owner,
                    methods,
                    i + 1,
                ),
                Err(f) => c::method_prototypes_c(st, owner, methods, i) == lines::fault(f),
            }
            &&& match stmts::fn_c(st, methods[i].node, called) {
                Ok(after) => c::methods_c(st, owner, methods, i) == c::methods_c(
                    lines::wrote(after, ""@, false),
                    owner,
                    methods,
                    i + 1,
                ),
                Err(f) => c::methods_c(st, owner, methods, i) == lines::fault(f),
            }
        })),
        i < methods.len() && !(methods[i].node is FnDecl) ==> c::method_prototypes_c(
            st,
            owner,
            methods,
            i,
        ) == c::method_prototypes_c(st, owner, methods, i + 1) && c::methods_c(st, owner, methods, i)
            == c::methods_c(st, owner, methods, i + 1),
{
}

/// Functions are written item by item, each with an empty line behind it.
pub proof fn law_functions_in_order(st: model::State, items: Seq<Spanned<Item>>, i: int)
    requires
        0 <= i <= items.len(),
    ensures
        i == items.len() ==> c::functions_c(st, items, i) == branches::reached(st),
        i < items.len() ==> (match items[i].node {
            Item::FnDecl { name, .. } => match stmts::fn_c(st, items[i].node, name@) {
                Ok(after) => c::functions_c(st, items, i) == c::functions_c(
                    lines::wrote(after, ""@, false),
                    items,
                    i + 1,
                ),
                Err(f) => c::functions_c(st, items, i) == lines::fault(f),
            },
            Item::ImplDecl { target, methods } => match c::methods_c(
                st,
                model::owner_name(st.ctx.decls, target@),
                methods@,
                0,
            ) {
                Ok(after) => c::functions_c(st, items, i) == c::functions_c(after, items, i + 1),
                Err(f) => c::functions_c(st, items, i) == lines::fault(f),
            },
            _ => c::functions_c(st, items, i) == c::functions_c(st, items, i + 1),
        }),
{
}

// ---------------------------------------------------------------------------
// Programs
// ---------------------------------------------------------------------------

/// A generator that knows what a program declares.
pub open spec fn knowing(st: model::State, d: model::Decls) -> model::State {
    model::State { ctx: model::Ctx { decls: d, ..st.ctx }, ..st }
}

/// A program is written in this order: the runtime, the definitions, the prototypes and
/// the functions, with an empty line before the prototypes and one before the functions.
pub proof fn law_program_in_order(
    types: Map<crate::source::Span, ast::Type>,
    items: Seq<Spanned<Item>>,
    d: model::Decls,
    defs: Seq<Seq<char>>,
)
    requires
        d == model::with_program(model::no_decls(types), items),
        typedefs::program_defs(d, items) == Ok::<Seq<Seq<char>>, error::Fault>(defs),
    ensures
        ({
            let begun = knowing(model::fresh(types), d);
            let above = runtime::preamble() + defs;
            let gap = if above.len() > 0 && above.last().len() == 0 {
                above
            } else {
                above.push(""@)
            };
            match c::prototypes_c(model::State { lines: gap, ..begun }, items, 0) {
                Err(f) => c::written(model::fresh(types), items) == lines::fault(f),
                Ok(after) => c::written(model::fresh(types), items) == c::functions_c(
                    lines::wrote(after, ""@, false),
                    items,
                    0,
                ),
            }
        }),
{
    let begun = knowing(model::fresh(types), d);
    let pre = runtime::preamble();
    reveal_strlit("");
    model::lemma_lines_appended(begun, pre, 0);
    let one = model::with_lines(begun, pre, 0);
    model::lemma_lines_appended(one, defs, 0);
    assert(pre.skip(0) =~= pre);
    assert(defs.skip(0) =~= defs);
    assert(model::padded(pre, ""@) =~= pre) by {
        assert forall|k: int| 0 <= k < pre.len() implies model::padded(pre, ""@)[k] == #[trigger] pre[k] by {
            assert(""@ + pre[k] =~= pre[k]);
        }
    }
    assert(model::padded(defs, ""@) =~= defs) by {
        assert forall|k: int| 0 <= k < defs.len() implies model::padded(defs, ""@)[k] == #[trigger] defs[k] by {
            assert(""@ + defs[k] =~= defs[k]);
        }
    }
    let above = pre + defs;
    assert(Seq::<Seq<char>>::empty() + pre + defs =~= above);
    let two = model::with_lines(one, defs, 0);
    assert(two.lines =~= above);
    assert(""@ + ""@ =~= ""@);
    assert(c::spaced(two).lines =~= if above.len() > 0 && above.last().len() == 0 {
        above
    } else {
        above.push(""@)
    });
}

/// A definition that cannot be written is told before anything else.
pub proof fn law_program_fault(
    types: Map<crate::source::Span, ast::Type>,
    items: Seq<Spanned<Item>>,
    f: error::Fault,
)
    requires
        typedefs::program_defs(model::with_program(model::no_decls(types), items), items) == Err::<
            Seq<Seq<char>>,
            error::Fault,
        >(f),
    ensures
        c::program_c(model::fresh(types), items) == Err::<Seq<char>, error::Fault>(f),
{
}

/// The C program is the lines that were written, one below the other, with no empty
/// space at the end but one line break. Where TLS is used, the macro for it stands on
/// top.
pub proof fn law_program_text(st: model::State, items: Seq<Spanned<Item>>)
    ensures
        match c::written(st, items) {
            Err(f) => c::program_c(st, items) == Err::<Seq<char>, error::Fault>(f),
            Ok(after) => c::program_c(st, items) == Ok::<Seq<char>, error::Fault>(
                text::trimmed_end(
                    text::joined(
                        if after.tls {
                            seq!["#define __XLANG_TLS__ 1"@] + after.lines
                        } else {
                            after.lines
                        },
                        "\n"@,
                    ),
                ) + "\n"@,
            ),
        },
{
}

/// A generator begins with nothing: no line, no variable, no temporary, and at the edge.
pub proof fn law_fresh(types: Map<crate::source::Span, ast::Type>)
    ensures
        ({
            let st = model::fresh(types);
            &&& st.lines.len() == 0
            &&& st.pad == ""@
            &&& st.temps == 0
            &&& st.ret is None
            &&& !st.tls
            &&& !st.ctx.mut_self
            &&& st.ctx.vars.len() == 0
            &&& st.ctx.decls.types == types
            &&& st.ctx.decls.structs == Set::<Seq<char>>::empty()
            &&& st.ctx.decls.enums == Set::<Seq<char>>::empty()
            &&& st.ctx.decls.values == Map::<Seq<char>, i32>::empty()
            &&& st.ctx.decls.methods == Set::<(Seq<char>, Seq<char>)>::empty()
        }),
{
}

/// The runtime is written piece by piece, from the first to the last.
pub proof fn law_runtime_in_order(n: int)
    requires
        0 <= n < runtime::PIECES@.len(),
    ensures
        runtime::lines_before(0) == Seq::<Seq<char>>::empty(),
        runtime::lines_before(n + 1) == runtime::lines_before(n) + text::lines_of(
            runtime::piece_text(runtime::PIECES@[n]),
        ),
        runtime::preamble() == runtime::lines_before(runtime::PIECES@.len() as int),
{
    reveal(runtime::preamble);
}

/// A piece of the runtime is a function, with its type, name and parameters before its
/// body, or text as it stands.
pub proof fn law_piece_of_runtime(n: int)
    requires
        0 <= n < runtime::PIECES@.len(),
    ensures
        ({
            let p = runtime::PIECES@[n];
            runtime::piece_text(p) == if p.1@ == ""@ {
                p.3@
            } else {
                p.0@ + " "@ + p.1@ + "("@ + p.2@ + ") {"@ + p.3@
            }
        }),
{
}

} // verus!
