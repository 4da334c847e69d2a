//! The generator: TLS is needed exactly where a TLS builtin is called in what is
//! written.

use vstd::prelude::*;

use crate::ast;
use crate::ast::{ElseBranch, Expr, Item, MatchArm, Stmt};
use crate::codegen::c;
use crate::codegen::exprs;
use crate::codegen::model;
use crate::codegen::runtime;
use crate::codegen::stmts;
use crate::codegen::typedefs;
use crate::laws::program;
use crate::laws::tls;
use crate::source::{Span, Spanned};

verus! {

// ---------------------------------------------------------------------------
// Where a TLS builtin is called in what is written
// ---------------------------------------------------------------------------
//
// Not every arm of a `match` is written: of two for the same case the later one is,
// and one that no value of the matched type can meet is left out. All else is.

/// Whether a TLS builtin is called in what is written for the statements from the
/// `i`-th on.
pub open spec fn in_stmts(st: model::State, ss: Seq<Spanned<Stmt>>, i: int) -> bool
    decreases ss, ss.len() - i,
{
    0 <= i < ss.len() && (in_stmt(st, ss[i]) || (stmts::stmt_c(st, ss[i]) is Ok && in_stmts(
        stmts::stmt_c(st, ss[i])->Ok_0,
        ss,
        i + 1,
    )))
}

/// Whether one is called in what is written for a statement.
pub open spec fn in_stmt(st: model::State, s: Spanned<Stmt>) -> bool
    decreases s, 3int,
{
    match s.node {
        Stmt::LetStmt { value, .. } => tls::in_expr(value),
        Stmt::IfStmt { .. } => in_if(st, s),
        Stmt::ForStmt { .. } => in_for(st, s),
        Stmt::WhileStmt { condition, body } => tls::in_expr(condition) || (match stmts::line_c(
            st,
            "while ("@,
            exprs::expr_c(st.ctx, condition),
            ") {"@,
        ) {
            Ok(head) => in_stmts(stmts::inside(head), body.statements@, 0),
            Err(_) => false,
        }),
        Stmt::MatchStmt { .. } => in_match(st, s),
        Stmt::ReturnStmt { value } => match value {
            Some(e) => tls::in_expr(e),
            None => false,
        },
        Stmt::ExprStmt { expr } => tls::in_expr(expr),
        Stmt::BreakStmt => false,
        Stmt::ContinueStmt => false,
    }
}

/// Whether one is called in what is written for an `if`.
pub open spec fn in_if(st: model::State, s: Spanned<Stmt>) -> bool
    decreases s, 1int,
{
    match s.node {
        Stmt::IfStmt { condition, then_block, else_branch } => tls::in_expr(condition) || (
        match stmts::line_c(st, "if ("@, exprs::expr_c(st.ctx, condition), ") {"@) {
            Err(_) => false,
            Ok(head) => in_stmts(model::indented(head), then_block.statements@, 0) || (
            match stmts::body_c(model::indented(head), then_block.statements@, head.pad) {
                Err(_) => false,
                Ok(done) => {
                    let other = model::indented(model::emitted(done, "} else {"@));
                    match else_branch {
                        Some(ElseBranch::Block(block)) => in_stmts(other, block.statements@, 0),
                        Some(ElseBranch::IfStmt(inner)) => in_stmt(other, *inner),
                        None => false,
                    }
                },
            }),
        }),
        _ => false,
    }
}

/// Where the body of a loop begins.
pub open spec fn loop_body(st: model::State, s: Spanned<Stmt>) -> model::Outcome<model::State> {
    match s.node {
        Stmt::ForStmt { iterator, iterable, .. } => match iterable.node {
            Expr::RangeExpr { start, end, inclusive } => match exprs::expr_c(st.ctx, *start) {
                Err(f) => Err(f),
                Ok(from) => match exprs::expr_c(st.ctx, *end) {
                    Err(f) => Err(f),
                    Ok(to) => {
                        let temp = model::temp_name("rg_end"@, st.temps);
                        let op = if inclusive {
                            "<="@
                        } else {
                            "<"@
                        };
                        let it = iterator@;
                        let begun = model::noted(model::noted(model::with_temp(st), from), to);
                        let block = model::indented(model::emitted(begun, "{"@));
                        let looped = model::emitted(
                            model::emitted(block, "int32_t "@ + temp + " = "@ + to.text + ";"@),
                            "for (int32_t "@ + it + " = "@ + from.text + "; "@ + it + " "@ + op
                                + " "@ + temp + "; "@ + it + "++) {"@,
                        );
                        Ok(model::with_var(stmts::inside(looped), it, model::i32_ty()))
                    },
                },
            },
            _ => match exprs::receiver_type(st.ctx, iterable) {
                Some(ast::Type::Named { name, args }) => match stmts::bound_c(
                    st,
                    iterable,
                    model::type_c(st.ctx.decls, ast::Type::Named { name, args }),
                    "it"@,
                ) {
                    Err(f) => Err(f),
                    Ok(bound) => match stmts::loop_over(name, args, bound.1) {
                        Err(f) => Err(f),
                        Ok(over) => match model::type_c(st.ctx.decls, over.0) {
                            Err(f) => Err(f),
                            Ok(t) => {
                                let index = model::temp_name("i"@, bound.0.temps);
                                let begun = model::with_temp(bound.0);
                                let limit = model::temp_name("n"@, begun.temps);
                                let head = stmts::loop_head_c(
                                    begun,
                                    index,
                                    limit,
                                    over.1,
                                    stmts::read_ahead(iterable, over.2),
                                );
                                Ok(
                                    model::emitted(
                                        model::with_var(stmts::inside(head), iterator@, over.0),
                                        t + " "@ + iterator@ + " = "@ + bound.1 + ".data["@ + index
                                            + "];"@,
                                    ),
                                )
                            },
                        },
                    },
                },
                _ => Ok(st),
            },
        },
        _ => Ok(st),
    }
}

/// Whether one is called in what is written for a loop over a range or a collection.
pub open spec fn in_for(st: model::State, s: Spanned<Stmt>) -> bool
    decreases s, 1int,
{
    match s.node {
        Stmt::ForStmt { iterable, body, .. } => tls::in_expr(iterable) || (loop_body(
            st,
            s,
        ) matches Ok(inner) && in_stmts(inner, body.statements@, 0)),
        _ => false,
    }
}

/// Whether one is called in the branches of a literal match, from the `i`-th arm on,
/// or in what the branches leave.
pub open spec fn in_literal_arms(
    ch: stmts::Chain,
    arms: Seq<MatchArm>,
    i: int,
    scrut: Seq<char>,
    is_string: bool,
    ty_name: Seq<char>,
) -> bool
    decreases arms, arms.len() - i,
{
    0 <= i < arms.len() && match stmts::cond_c(
        ch.st.ctx.decls,
        arms[i].pattern,
        scrut,
        is_string,
        ty_name,
    ) {
        Err(_) => false,
        Ok(None) => in_literal_arms(
            stmts::Chain { rest: Some(i), ..ch },
            arms,
            i + 1,
            scrut,
            is_string,
            ty_name,
        ),
        Ok(Some(cond)) => {
            let head = stmts::branch_head(ch, cond);
            let ss = arms[i].body.statements@;
            in_stmts(stmts::inside(head), ss, 0) || (match stmts::scoped_c(
                stmts::inside(head),
                ss,
                head.pad,
            ) {
                Err(_) => false,
                Ok(after) => in_literal_arms(
                    stmts::Chain { st: after, first: false, rest: ch.rest },
                    arms,
                    i + 1,
                    scrut,
                    is_string,
                    ty_name,
                ),
            })
        },
    }
}

/// Whether one is called in the branches of a match on a payload enum, from the
/// `i`-th arm on.
pub open spec fn in_tagged_arms(
    ch: stmts::Chain,
    arms: Seq<MatchArm>,
    i: int,
    scrut: Seq<char>,
    ty_name: Seq<char>,
) -> bool
    decreases arms, arms.len() - i,
{
    0 <= i < arms.len() && match stmts::tag_test(ch.st.ctx.decls, arms[i].pattern, scrut) {
        stmts::TagTest::Never => in_tagged_arms(ch, arms, i + 1, scrut, ty_name),
        stmts::TagTest::Always => in_tagged_arms(
            stmts::Chain { rest: Some(i), ..ch },
            arms,
            i + 1,
            scrut,
            ty_name,
        ),
        stmts::TagTest::When(cond) => {
            let head = stmts::branch_head(ch, cond);
            let ss = arms[i].body.statements@;
            match stmts::tag_bound_c(stmts::inside(head), arms[i].pattern, scrut, ty_name) {
                Err(_) => false,
                Ok(inner) => in_stmts(inner, ss, 0) || (match stmts::scoped_c(
                    inner,
                    ss,
                    head.pad,
                ) {
                    Err(_) => false,
                    Ok(after) => in_tagged_arms(
                        stmts::Chain { st: after, first: false, rest: ch.rest },
                        arms,
                        i + 1,
                        scrut,
                        ty_name,
                    ),
                }),
            }
        },
    }
}

/// Whether one is called in what the branches leave.
pub open spec fn in_chain_end(ch: stmts::Chain, arms: Seq<MatchArm>) -> bool
    decreases arms, arms.len() + 1,
{
    match ch.rest {
        Some(k) => 0 <= k < arms.len() && in_stmts(
            if ch.first {
                model::opened(ch.st)
            } else {
                stmts::inside(model::emitted(ch.st, "} else {"@))
            },
            arms[k].body.statements@,
            0,
        ),
        None => false,
    }
}

/// Whether one is called in the arm `k` of an option or result match.
pub open spec fn in_arm(
    st: model::State,
    arms: Seq<MatchArm>,
    k: Option<int>,
    ty: Option<ast::Type>,
    source: Seq<char>,
) -> bool
    decreases arms, arms.len() + 1,
{
    k is Some && 0 <= k->0 < arms.len() && match (if ty is Some && stmts::first_binding(
        arms[k->0].pattern,
    ) is Some {
        stmts::binding_c(st, stmts::first_binding(arms[k->0].pattern)->0, ty->0, source)
    } else {
        Ok(st)
    }) {
        Err(_) => false,
        Ok(inner) => in_stmts(inner, arms[k->0].body.statements@, 0),
    }
}

/// Whether one is called in what is written for a match on literals.
pub open spec fn in_literal_match(st: model::State, s: Spanned<Stmt>, ty_name: Seq<char>) -> bool
    decreases s, 1int,
{
    match s.node {
        Stmt::MatchStmt { value, arms } => tls::in_expr(value) || (match stmts::compared_c(
            st,
            value,
            ty_name,
        ) {
            Err(_) => false,
            Ok(scrut) => {
                let ch = stmts::Chain { st: scrut.0, first: true, rest: None };
                let is_string = ty_name == "String"@ || ty_name == "Str"@;
                in_literal_arms(ch, arms@, 0, scrut.1, is_string, ty_name) || (
                match stmts::literal_arms_c(ch, arms@, 0, scrut.1, is_string, ty_name) {
                    Err(_) => false,
                    Ok(end) => in_chain_end(end, arms@),
                })
            },
        }),
        _ => false,
    }
}

/// Whether one is called in what is written for a match on a payload enum.
pub open spec fn in_tagged_match(st: model::State, s: Spanned<Stmt>, ty_name: Seq<char>) -> bool
    decreases s, 1int,
{
    match s.node {
        Stmt::MatchStmt { value, arms } => tls::in_expr(value) || (match stmts::bound_c(
            st,
            value,
            model::type_c(st.ctx.decls, stmts::named_type(ty_name)),
            "e"@,
        ) {
            Err(_) => false,
            Ok(bound) => {
                let ch = stmts::Chain { st: bound.0, first: true, rest: None };
                in_tagged_arms(ch, arms@, 0, bound.1, ty_name) || (match stmts::tagged_arms_c(
                    ch,
                    arms@,
                    0,
                    bound.1,
                    ty_name,
                ) {
                    Err(_) => false,
                    Ok(end) => in_chain_end(end, arms@),
                })
            },
        }),
        _ => false,
    }
}

/// Whether one is called in what is written for a match on an option or result.
pub open spec fn in_option_match(
    st: model::State,
    s: Spanned<Stmt>,
    name: Seq<char>,
    args: Seq<ast::Type>,
) -> bool
    decreases s, 1int,
{
    match s.node {
        Stmt::MatchStmt { value, arms } => tls::in_expr(value) || (match (
            stmts::picks(arms@),
            stmts::bound_c(
                st,
                value,
                model::type_c(st.ctx.decls, ast::Type::Named { name, args }),
                "m"@,
            ),
        ) {
            (Ok(pick), Ok(bound)) => {
                let is_option = name == "Option"@;
                let head = model::emitted(
                    bound.0,
                    "if ("@ + bound.1 + "."@ + (if is_option {
                        "some"@
                    } else {
                        "ok"@
                    }) + ") {"@,
                );
                let value_at = bound.1 + ".value"@;
                in_arm(stmts::inside(head), arms@, pick.0, Some(args[0]), value_at) || (
                match stmts::arm_c(
                    stmts::inside(head),
                    arms@,
                    pick.0,
                    Some(args[0]),
                    value_at,
                    head.pad,
                ) {
                    Err(_) => false,
                    Ok(done) => in_arm(
                        stmts::inside(model::emitted(done, "} else {"@)),
                        arms@,
                        pick.1,
                        if is_option {
                            None
                        } else {
                            Some(args[1])
                        },
                        bound.1 + ".error"@,
                    ),
                })
            },
            _ => false,
        }),
        _ => false,
    }
}

/// Whether one is called in what is written for a match.
pub open spec fn in_match(st: model::State, s: Spanned<Stmt>) -> bool
    decreases s, 2int,
{
    match s.node {
        Stmt::MatchStmt { value, .. } => match exprs::receiver_type(st.ctx, value) {
            Some(ast::Type::Named { name, args }) => if name == "i32"@ || name == "String"@ || name
                == "Str"@ || (st.ctx.decls.enums.contains(name) && !model::has_payload(
                st.ctx.decls,
                name,
            )) {
                in_literal_match(st, s, name)
            } else if model::has_payload(st.ctx.decls, name) {
                in_tagged_match(st, s, name)
            } else {
                in_option_match(st, s, name, args)
            },
            _ => false,
        },
        _ => false,
    }
}

/// Where the body of a function begins.
pub open spec fn fn_body(st: model::State, item: Item, name: Seq<char>) -> model::Outcome<
    model::State,
> {
    match item {
        Item::FnDecl { params, return_type, .. } => match stmts::signature_c(
            st.ctx.decls,
            name,
            params@,
            return_type@,
        ) {
            Err(f) => Err(f),
            Ok(sig) => {
                let head = model::emitted(st, sig + " {"@);
                let known = stmts::with_params(stmts::inside(head), params@, 0);
                let begun = if stmts::is_main(name, params@) {
                    model::emitted(
                        model::emitted(known, "__xlang_argc_g = argc;"@),
                        "__xlang_argv_g = argv;"@,
                    )
                } else {
                    known
                };
                Ok(
                    stmts::in_function(
                        begun,
                        Some(return_type@),
                        model::takes_pointer(params@),
                    ),
                )
            },
        },
        _ => Ok(st),
    }
}

/// Whether one is called in what is written for a function.
pub open spec fn in_fn(st: model::State, item: Item, name: Seq<char>) -> bool {
    match item {
        Item::FnDecl { body, .. } => fn_body(st, item, name) matches Ok(inner) && in_stmts(
            inner,
            body.statements@,
            0,
        ),
        _ => false,
    }
}

/// Whether one is called in what is written for the methods from the `i`-th on.
pub open spec fn in_methods(
    st: model::State,
    target: Seq<char>,
    methods: Seq<Spanned<Item>>,
    i: int,
) -> bool
    decreases methods.len() - i,
{
    0 <= i < methods.len() && match methods[i].node {
        Item::FnDecl { name, .. } => {
            let called = model::method_name(target, name@);
            in_fn(st, methods[i].node, called) || (match stmts::then_line(
                stmts::fn_c(st, methods[i].node, called),
                ""@,
            ) {
                Ok(after) => in_methods(after, target, methods, i + 1),
                Err(_) => false,
            })
        },
        _ => in_methods(st, target, methods, i + 1),
    }
}

/// Whether one is called in what is written for the functions and methods of the
/// items from the `i`-th on.
pub open spec fn in_functions(st: model::State, items: Seq<Spanned<Item>>, i: int) -> bool
    decreases items.len() - i,
{
    0 <= i < items.len() && match items[i].node {
        Item::FnDecl { name, .. } => in_fn(st, items[i].node, name@) || (match stmts::then_line(
            stmts::fn_c(st, items[i].node, name@),
            ""@,
        ) {
            Ok(after) => in_functions(after, items, i + 1),
            Err(_) => false,
        }),
        Item::ImplDecl { target, methods } => {
            let owner = model::owner_name(st.ctx.decls, target@);
            in_methods(st, owner, methods@, 0) || (match c::methods_c(st, owner, methods@, 0) {
                Ok(after) => in_functions(after, items, i + 1),
                Err(_) => false,
            })
        },
        _ => in_functions(st, items, i + 1),
    }
}

// ---------------------------------------------------------------------------
// No builtin with surplus arguments
// ---------------------------------------------------------------------------

/// Whether no builtin in a statement has more arguments than it uses.
pub open spec fn exact_stmt(s: Spanned<Stmt>) -> bool
    decreases s, 0int,
{
    match s.node {
        Stmt::LetStmt { value, .. } => tls::exact(value),
        Stmt::IfStmt { condition, then_block, else_branch } => tls::exact(condition)
            && exact_stmts(then_block.statements@, 0) && match else_branch {
            Some(ElseBranch::Block(block)) => exact_stmts(block.statements@, 0),
            Some(ElseBranch::IfStmt(inner)) => exact_stmt(*inner),
            None => true,
        },
        Stmt::ForStmt { iterable, body, .. } => tls::exact(iterable) && exact_stmts(
            body.statements@,
            0,
        ),
        Stmt::WhileStmt { condition, body } => tls::exact(condition) && exact_stmts(
            body.statements@,
            0,
        ),
        Stmt::MatchStmt { value, arms } => tls::exact(value) && exact_arms(arms@, 0),
        Stmt::ReturnStmt { value } => match value {
            Some(e) => tls::exact(e),
            None => true,
        },
        Stmt::ExprStmt { expr } => tls::exact(expr),
        Stmt::BreakStmt => true,
        Stmt::ContinueStmt => true,
    }
}

/// Whether that holds of the statements from the `i`-th on.
pub open spec fn exact_stmts(ss: Seq<Spanned<Stmt>>, i: int) -> bool
    decreases ss, ss.len() - i,
{
    0 <= i < ss.len() ==> exact_stmt(ss[i]) && exact_stmts(ss, i + 1)
}

/// Whether that holds of the arms from the `i`-th on.
pub open spec fn exact_arms(arms: Seq<MatchArm>, i: int) -> bool
    decreases arms, arms.len() - i,
{
    0 <= i < arms.len() ==> exact_stmts(arms[i].body.statements@, 0) && exact_arms(arms, i + 1)
}

/// Whether that holds of a function.
pub open spec fn exact_fn(item: Item) -> bool {
    item matches Item::FnDecl { body, .. } ==> exact_stmts(body.statements@, 0)
}

/// Whether that holds of an item.
pub open spec fn exact_item(item: Item) -> bool {
    match item {
        Item::ImplDecl { methods, .. } => forall|k: int|
            0 <= k < methods@.len() ==> exact_fn((#[trigger] methods@[k]).node),
        _ => exact_fn(item),
    }
}

// ---------------------------------------------------------------------------
// What is noted
// ---------------------------------------------------------------------------

proof fn lemma_expr(ctx: model::Ctx, e: Spanned<Expr>)
    requires
        tls::exact(e),
        exprs::expr_c(ctx, e) is Ok,
    ensures
        exprs::expr_c(ctx, e)->Ok_0.tls == tls::in_expr(e),
{
    tls::law_expression_needs_tls_call(ctx, e);
    if tls::in_expr(e) {
        tls::law_tls_call_needs_tls(ctx, e);
    }
}

proof fn lemma_typed(ctx: model::Ctx, ty: Option<ast::Type>, e: Spanned<Expr>)
    requires
        tls::exact(e),
        exprs::typed_c(ctx, ty, e) is Ok,
    ensures
        exprs::typed_c(ctx, ty, e)->Ok_0.tls == tls::in_expr(e),
{
    if tls::in_expr(e) {
        tls::lemma_rendered_typed(ctx, ty, e);
    } else {
        tls::lemma_typed(ctx, ty, e);
    }
}

proof fn lemma_let(st: model::State, name: Seq<char>, ty: ast::Type, value: Spanned<Expr>)
    requires
        tls::exact(value),
        stmts::let_c(st, name, ty, value) is Ok,
    ensures
        stmts::let_c(st, name, ty, value)->Ok_0.tls == (st.tls || tls::in_expr(value)),
{
    match value.node {
        Expr::ArrayLiteral { elements } => {
            let es = elements@;
            reveal_with_fuel(tls::in_expr, 2);
            if tls::in_exprs(es, 0) {
                let k = tls::lemma_some_at(es, 0);
                tls::lemma_rendered_list(st.ctx, es, es.len() as int, k);
            } else {
                tls::lemma_exprs(st.ctx, es, es.len() as int);
            }
        },
        _ => {
            assert(exprs::typed_c(st.ctx, Some(ty), value) == exprs::first_of(
                exprs::constructor_c(st.ctx, ty, value),
                exprs::expr_c(st.ctx, value),
            ));
            lemma_typed(st.ctx, Some(ty), value);
        },
    }
}

proof fn lemma_bound(
    st: model::State,
    e: Spanned<Expr>,
    ty: model::Outcome<Seq<char>>,
    prefix: Seq<char>,
)
    requires
        tls::exact(e),
        stmts::bound_c(st, e, ty, prefix) is Ok,
    ensures
        stmts::bound_c(st, e, ty, prefix)->Ok_0.0.tls == (st.tls || tls::in_expr(e)),
{
    match e.node {
        Expr::Identifier { .. } => {
            reveal_with_fuel(tls::in_expr, 2);
        },
        _ => lemma_expr(st.ctx, e),
    }
}

proof fn lemma_stmts(st: model::State, ss: Seq<Spanned<Stmt>>, i: int)
    requires
        exact_stmts(ss, i),
        stmts::stmts_c(st, ss, i) is Ok,
    ensures
        stmts::stmts_c(st, ss, i)->Ok_0.tls == (st.tls || in_stmts(st, ss, i)),
    decreases ss, ss.len() - i,
{
    if 0 <= i < ss.len() {
        lemma_stmt(st, ss[i]);
        lemma_stmts(stmts::stmt_c(st, ss[i])->Ok_0, ss, i + 1);
    }
}

proof fn lemma_exact_arm(arms: Seq<MatchArm>, i: int, k: int)
    requires
        exact_arms(arms, i),
        0 <= i <= k < arms.len(),
    ensures
        exact_stmts(arms[k].body.statements@, 0),
    decreases k - i,
{
    if i < k {
        lemma_exact_arm(arms, i + 1, k);
    }
}

proof fn lemma_literal_arms(
    ch: stmts::Chain,
    arms: Seq<MatchArm>,
    i: int,
    scrut: Seq<char>,
    is_string: bool,
    ty_name: Seq<char>,
)
    requires
        exact_arms(arms, i),
        stmts::literal_arms_c(ch, arms, i, scrut, is_string, ty_name) is Ok,
    ensures
        stmts::literal_arms_c(ch, arms, i, scrut, is_string, ty_name)->Ok_0.st.tls == (ch.st.tls
            || in_literal_arms(ch, arms, i, scrut, is_string, ty_name)),
    decreases arms, arms.len() - i,
{
    if 0 <= i < arms.len() {
        match stmts::cond_c(ch.st.ctx.decls, arms[i].pattern, scrut, is_string, ty_name) {
            Err(_) => {},
            Ok(None) => {
                lemma_literal_arms(
                    stmts::Chain { rest: Some(i), ..ch },
                    arms,
                    i + 1,
                    scrut,
                    is_string,
                    ty_name,
                );
            },
            Ok(Some(cond)) => {
                let head = stmts::branch_head(ch, cond);
                let ss = arms[i].body.statements@;
                lemma_stmts(stmts::inside(head), ss, 0);
                let after = stmts::scoped_c(stmts::inside(head), ss, head.pad)->Ok_0;
                lemma_literal_arms(
                    stmts::Chain { st: after, first: false, rest: ch.rest },
                    arms,
                    i + 1,
                    scrut,
                    is_string,
                    ty_name,
                );
            },
        }
    }
}

proof fn lemma_tag_bound(
    st: model::State,
    p: ast::Pattern,
    scrut: Seq<char>,
    ty_name: Seq<char>,
)
    ensures
        stmts::tag_bound_c(st, p, scrut, ty_name) is Ok ==> stmts::tag_bound_c(
            st,
            p,
            scrut,
            ty_name,
        )->Ok_0.tls == st.tls,
{
}

proof fn lemma_tagged_arms(
    ch: stmts::Chain,
    arms: Seq<MatchArm>,
    i: int,
    scrut: Seq<char>,
    ty_name: Seq<char>,
)
    requires
        exact_arms(arms, i),
        stmts::tagged_arms_c(ch, arms, i, scrut, ty_name) is Ok,
    ensures
        stmts::tagged_arms_c(ch, arms, i, scrut, ty_name)->Ok_0.st.tls == (ch.st.tls
            || in_tagged_arms(ch, arms, i, scrut, ty_name)),
    decreases arms, arms.len() - i,
{
    if 0 <= i < arms.len() {
        let p = arms[i].pattern;
        match stmts::tag_test(ch.st.ctx.decls, p, scrut) {
            stmts::TagTest::Never => lemma_tagged_arms(ch, arms, i + 1, scrut, ty_name),
            stmts::TagTest::Always => {
                lemma_tagged_arms(
                    stmts::Chain { rest: Some(i), ..ch },
                    arms,
                    i + 1,
                    scrut,
                    ty_name,
                );
            },
            stmts::TagTest::When(cond) => {
                let head = stmts::branch_head(ch, cond);
                let ss = arms[i].body.statements@;
                lemma_tag_bound(stmts::inside(head), p, scrut, ty_name);
                let inner = stmts::tag_bound_c(stmts::inside(head), p, scrut, ty_name)->Ok_0;
                lemma_stmts(inner, ss, 0);
                let after = stmts::scoped_c(inner, ss, head.pad)->Ok_0;
                lemma_tagged_arms(
                    stmts::Chain { st: after, first: false, rest: ch.rest },
                    arms,
                    i + 1,
                    scrut,
                    ty_name,
                );
            },
        }
    }
}

proof fn lemma_chain_end(ch: stmts::Chain, arms: Seq<MatchArm>)
    requires
        exact_arms(arms, 0),
        stmts::chain_end_c(ch, arms) is Ok,
    ensures
        stmts::chain_end_c(ch, arms)->Ok_0.tls == (ch.st.tls || in_chain_end(ch, arms)),
    decreases arms, arms.len() + 1,
{
    if let Some(k) = ch.rest {
        if 0 <= k < arms.len() {
            let ss = arms[k].body.statements@;
            lemma_exact_arm(arms, 0, k);
            if ch.first {
                lemma_stmts(model::opened(ch.st), ss, 0);
            } else {
                lemma_stmts(stmts::inside(model::emitted(ch.st, "} else {"@)), ss, 0);
            }
        }
    }
}

proof fn lemma_arm(
    st: model::State,
    arms: Seq<MatchArm>,
    k: Option<int>,
    ty: Option<ast::Type>,
    source: Seq<char>,
    pad: Seq<char>,
)
    requires
        exact_arms(arms, 0),
        stmts::arm_c(st, arms, k, ty, source, pad) is Ok,
    ensures
        stmts::arm_c(st, arms, k, ty, source, pad)->Ok_0.tls == (st.tls || in_arm(
            st,
            arms,
            k,
            ty,
            source,
        )),
    decreases arms, arms.len() + 1,
{
    if k is Some && 0 <= k->0 < arms.len() {
        let arm = arms[k->0];
        lemma_exact_arm(arms, 0, k->0);
        let begun = if ty is Some && stmts::first_binding(arm.pattern) is Some {
            stmts::binding_c(st, stmts::first_binding(arm.pattern)->0, ty->0, source)
        } else {
            Ok(st)
        };
        lemma_stmts(begun->Ok_0, arm.body.statements@, 0);
    }
}

proof fn lemma_literal_match(st: model::State, s: Spanned<Stmt>, ty_name: Seq<char>)
    requires
        s.node is MatchStmt,
        exact_stmt(s),
        stmts::literal_match_c(st, s, ty_name) is Ok,
    ensures
        stmts::literal_match_c(st, s, ty_name)->Ok_0.tls == (st.tls || in_literal_match(
            st,
            s,
            ty_name,
        )),
    decreases s, 1int,
{
    if let Stmt::MatchStmt { value, arms } = s.node {
        let scrut = stmts::compared_c(st, value, ty_name)->Ok_0;
        if stmts::steady(value) {
            lemma_expr(st.ctx, value);
        } else {
            let ty = model::type_c(st.ctx.decls, stmts::named_type(ty_name));
            lemma_bound(st, value, ty, "m"@);
        }
        assert(scrut.0.tls == (st.tls || tls::in_expr(value)));
        let ch = stmts::Chain { st: scrut.0, first: true, rest: None };
        let is_string = ty_name == "String"@ || ty_name == "Str"@;
        lemma_literal_arms(ch, arms@, 0, scrut.1, is_string, ty_name);
        lemma_chain_end(
            stmts::literal_arms_c(ch, arms@, 0, scrut.1, is_string, ty_name)->Ok_0,
            arms@,
        );
    }
}

proof fn lemma_tagged_match(st: model::State, s: Spanned<Stmt>, ty_name: Seq<char>)
    requires
        s.node is MatchStmt,
        exact_stmt(s),
        stmts::tagged_match_c(st, s, ty_name) is Ok,
    ensures
        stmts::tagged_match_c(st, s, ty_name)->Ok_0.tls == (st.tls || in_tagged_match(
            st,
            s,
            ty_name,
        )),
    decreases s, 1int,
{
    if let Stmt::MatchStmt { value, arms } = s.node {
        let ty = model::type_c(st.ctx.decls, stmts::named_type(ty_name));
        lemma_bound(st, value, ty, "e"@);
        let bound = stmts::bound_c(st, value, ty, "e"@)->Ok_0;
        let ch = stmts::Chain { st: bound.0, first: true, rest: None };
        lemma_tagged_arms(ch, arms@, 0, bound.1, ty_name);
        lemma_chain_end(stmts::tagged_arms_c(ch, arms@, 0, bound.1, ty_name)->Ok_0, arms@);
    }
}

proof fn lemma_option_match(
    st: model::State,
    s: Spanned<Stmt>,
    name: Seq<char>,
    args: Seq<ast::Type>,
)
    requires
        s.node is MatchStmt,
        exact_stmt(s),
        stmts::option_match_c(st, s, name, args) is Ok,
    ensures
        stmts::option_match_c(st, s, name, args)->Ok_0.tls == (st.tls || in_option_match(
            st,
            s,
            name,
            args,
        )),
    decreases s, 1int,
{
    if let Stmt::MatchStmt { value, arms } = s.node {
        let is_option = name == "Option"@;
        let ty = model::type_c(st.ctx.decls, ast::Type::Named { name, args });
        let pick = stmts::picks(arms@)->Ok_0;
        lemma_bound(st, value, ty, "m"@);
        let (begun, scrut) = stmts::bound_c(st, value, ty, "m"@)->Ok_0;
        let head = model::emitted(
            begun,
            "if ("@ + scrut + "."@ + (if is_option {
                "some"@
            } else {
                "ok"@
            }) + ") {"@,
        );
        let value_at = scrut + ".value"@;
        lemma_arm(stmts::inside(head), arms@, pick.0, Some(args[0]), value_at, head.pad);
        if pick.1 is Some {
            let done = stmts::arm_c(
                stmts::inside(head),
                arms@,
                pick.0,
                Some(args[0]),
                value_at,
                head.pad,
            )->Ok_0;
            let other = model::emitted(done, "} else {"@);
            lemma_arm(
                stmts::inside(other),
                arms@,
                pick.1,
                if is_option {
                    None
                } else {
                    Some(args[1])
                },
                scrut + ".error"@,
                other.pad,
            );
        }
    }
}

proof fn lemma_match(st: model::State, s: Spanned<Stmt>)
    requires
        s.node is MatchStmt,
        exact_stmt(s),
        stmts::match_c(st, s) is Ok,
    ensures
        stmts::match_c(st, s)->Ok_0.tls == (st.tls || in_match(st, s)),
    decreases s, 2int,
{
    if let Stmt::MatchStmt { value, .. } = s.node {
        if let Some(ast::Type::Named { name, args }) = exprs::receiver_type(st.ctx, value) {
            if name == "i32"@ || name == "String"@ || name == "Str"@ || (
            st.ctx.decls.enums.contains(name) && !model::has_payload(st.ctx.decls, name)) {
                lemma_literal_match(st, s, name);
            } else if model::has_payload(st.ctx.decls, name) {
                lemma_tagged_match(st, s, name);
            } else {
                lemma_option_match(st, s, name, args);
            }
        }
    }
}

proof fn lemma_for(st: model::State, s: Spanned<Stmt>)
    requires
        s.node is ForStmt,
        exact_stmt(s),
        stmts::stmt_c(st, s) is Ok,
    ensures
        stmts::stmt_c(st, s)->Ok_0.tls == (st.tls || in_for(st, s)),
    decreases s, 1int,
{
    if let Stmt::ForStmt { iterable, body, .. } = s.node {
        match iterable.node {
            Expr::RangeExpr { start, end, .. } => {
                assert(stmts::stmt_c(st, s) == stmts::range_for_c(st, s));
                reveal_with_fuel(tls::in_expr, 2);
                reveal_with_fuel(tls::exact, 2);
                lemma_expr(st.ctx, *start);
                lemma_expr(st.ctx, *end);
            },
            _ => {
                assert(stmts::stmt_c(st, s) == stmts::for_each_c(st, s));
                if let Some(ast::Type::Named { name, args }) = exprs::receiver_type(
                    st.ctx,
                    iterable,
                ) {
                    lemma_bound(
                        st,
                        iterable,
                        model::type_c(st.ctx.decls, ast::Type::Named { name, args }),
                        "it"@,
                    );
                }
            },
        }
        let inner = loop_body(st, s)->Ok_0;
        assert(inner.tls == (st.tls || tls::in_expr(iterable)));
        lemma_stmts(inner, body.statements@, 0);
    }
}

proof fn lemma_if(st: model::State, s: Spanned<Stmt>)
    requires
        s.node is IfStmt,
        exact_stmt(s),
        stmts::if_c(st, s) is Ok,
    ensures
        stmts::if_c(st, s)->Ok_0.tls == (st.tls || in_if(st, s)),
    decreases s, 1int,
{
    if let Stmt::IfStmt { condition, then_block, else_branch } = s.node {
        lemma_expr(st.ctx, condition);
        let head = stmts::line_c(
            st,
            "if ("@,
            exprs::expr_c(st.ctx, condition),
            ") {"@,
        )->Ok_0;
        lemma_stmts(model::indented(head), then_block.statements@, 0);
        let done = stmts::body_c(
            model::indented(head),
            then_block.statements@,
            head.pad,
        )->Ok_0;
        let other = model::emitted(done, "} else {"@);
        match else_branch {
            Some(ElseBranch::Block(block)) => {
                lemma_stmts(model::indented(other), block.statements@, 0);
            },
            Some(ElseBranch::IfStmt(inner)) => lemma_stmt(model::indented(other), *inner),
            None => {},
        }
    }
}

proof fn lemma_stmt(st: model::State, s: Spanned<Stmt>)
    requires
        exact_stmt(s),
        stmts::stmt_c(st, s) is Ok,
    ensures
        stmts::stmt_c(st, s)->Ok_0.tls == (st.tls || in_stmt(st, s)),
    decreases s, 3int,
{
    match s.node {
        Stmt::LetStmt { name, ty, value, .. } => lemma_let(st, name@, ty@, value),
        Stmt::ReturnStmt { value } => {
            if let Some(e) = value {
                lemma_typed(st.ctx, st.ret, e);
            }
        },
        Stmt::IfStmt { .. } => lemma_if(st, s),
        Stmt::WhileStmt { condition, body } => {
            lemma_expr(st.ctx, condition);
            let head = stmts::line_c(
                st,
                "while ("@,
                exprs::expr_c(st.ctx, condition),
                ") {"@,
            )->Ok_0;
            lemma_stmts(stmts::inside(head), body.statements@, 0);
        },
        Stmt::ForStmt { .. } => lemma_for(st, s),
        Stmt::ExprStmt { expr } => lemma_expr(st.ctx, expr),
        Stmt::MatchStmt { .. } => lemma_match(st, s),
        _ => {},
    }
}

proof fn lemma_fn(st: model::State, item: Item, name: Seq<char>)
    requires
        exact_fn(item),
        stmts::fn_c(st, item, name) is Ok,
    ensures
        stmts::fn_c(st, item, name)->Ok_0.tls == (st.tls || in_fn(st, item, name)),
{
    if let Item::FnDecl { params, return_type, body, .. } = item {
        let sig = stmts::signature_c(st.ctx.decls, name, params@, return_type@)->Ok_0;
        let head = model::emitted(st, sig + " {"@);
        tls::lemma_params(stmts::inside(head), params@, 0);
        lemma_stmts(fn_body(st, item, name)->Ok_0, body.statements@, 0);
    }
}

proof fn lemma_methods(
    st: model::State,
    target: Seq<char>,
    methods: Seq<Spanned<Item>>,
    i: int,
)
    requires
        0 <= i,
        forall|k: int| i <= k < methods.len() ==> exact_fn((#[trigger] methods[k]).node),
        c::methods_c(st, target, methods, i) is Ok,
    ensures
        c::methods_c(st, target, methods, i)->Ok_0.tls == (st.tls || in_methods(
            st,
            target,
            methods,
            i,
        )),
    decreases methods.len() - i,
{
    if i < methods.len() {
        match methods[i].node {
            Item::FnDecl { name, .. } => {
                let called = model::method_name(target, name@);
                lemma_fn(st, methods[i].node, called);
                let step = stmts::then_line(stmts::fn_c(st, methods[i].node, called), ""@)->Ok_0;
                lemma_methods(step, target, methods, i + 1);
            },
            _ => lemma_methods(st, target, methods, i + 1),
        }
    }
}

proof fn lemma_functions(st: model::State, items: Seq<Spanned<Item>>, i: int)
    requires
        0 <= i,
        forall|k: int| i <= k < items.len() ==> exact_item((#[trigger] items[k]).node),
        c::functions_c(st, items, i) is Ok,
    ensures
        c::functions_c(st, items, i)->Ok_0.tls == (st.tls || in_functions(st, items, i)),
    decreases items.len() - i,
{
    if i < items.len() {
        match items[i].node {
            Item::FnDecl { name, .. } => {
                lemma_fn(st, items[i].node, name@);
                let step = stmts::then_line(stmts::fn_c(st, items[i].node, name@), ""@)->Ok_0;
                lemma_functions(step, items, i + 1);
            },
            Item::ImplDecl { target, methods } => {
                let owner = model::owner_name(st.ctx.decls, target@);
                lemma_methods(st, owner, methods@, 0);
                lemma_functions(c::methods_c(st, owner, methods@, 0)->Ok_0, items, i + 1);
            },
            _ => lemma_functions(st, items, i + 1),
        }
    }
}

/// What is written before the functions of a program.
pub open spec fn before_functions(st: model::State, items: Seq<Spanned<Item>>) -> model::Outcome<
    model::State,
> {
    stmts::then_line(program::head_of(st, items), ""@)
}

/// TLS is switched on exactly where a TLS builtin is called in what is written for a
/// program. Arguments that a builtin does not use are not written, so they must not
/// be there.
pub proof fn law_tls_exactly_where_called(types: Map<Span, ast::Type>, items: Seq<Spanned<Item>>)
    requires
        forall|k: int| 0 <= k < items.len() ==> exact_item((#[trigger] items[k]).node),
        c::written(model::fresh(types), items) is Ok,
    ensures
        before_functions(model::fresh(types), items) is Ok,
        c::written(model::fresh(types), items)->Ok_0.tls == in_functions(
            before_functions(model::fresh(types), items)->Ok_0,
            items,
            0,
        ),
{
    let st = model::fresh(types);
    let known = model::with_decls(st, model::with_program(st.ctx.decls, items));
    let defs = typedefs::program_defs(known.ctx.decls, items)->Ok_0;
    let a = model::with_lines(known, runtime::preamble(), 0);
    let b = model::with_lines(a, defs, 0);
    model::lemma_with_lines(known, runtime::preamble(), 0);
    model::lemma_with_lines(a, defs, 0);
    tls::lemma_prototypes(c::spaced(b), items, 0);
    let head = c::prototypes_c(c::spaced(b), items, 0)->Ok_0;
    lemma_functions(model::emitted(head, ""@), items, 0);
}

// ---------------------------------------------------------------------------
// Programs of which every arm is written
// ---------------------------------------------------------------------------

/// Whether every arm of every `match` in the statements from the `i`-th on is
/// written.
pub open spec fn whole_stmts(st: model::State, ss: Seq<Spanned<Stmt>>, i: int) -> bool
    decreases ss, ss.len() - i,
{
    0 <= i < ss.len() ==> whole_stmt(st, ss[i]) && (stmts::stmt_c(st, ss[i]) is Ok ==> whole_stmts(
        stmts::stmt_c(st, ss[i])->Ok_0,
        ss,
        i + 1,
    ))
}

/// Whether every arm of every `match` in a statement is written.
pub open spec fn whole_stmt(st: model::State, s: Spanned<Stmt>) -> bool
    decreases s, 3int,
{
    match s.node {
        Stmt::IfStmt { .. } => whole_if(st, s),
        Stmt::ForStmt { body, .. } => loop_body(st, s) matches Ok(inner) ==> whole_stmts(
            inner,
            body.statements@,
            0,
        ),
        Stmt::WhileStmt { condition, body } => stmts::line_c(
            st,
            "while ("@,
            exprs::expr_c(st.ctx, condition),
            ") {"@,
        ) matches Ok(head) ==> whole_stmts(stmts::inside(head), body.statements@, 0),
        Stmt::MatchStmt { .. } => whole_match(st, s),
        _ => true,
    }
}

/// Whether every arm of every `match` in an `if` is written.
pub open spec fn whole_if(st: model::State, s: Spanned<Stmt>) -> bool
    decreases s, 1int,
{
    match s.node {
        Stmt::IfStmt { condition, then_block, else_branch } => stmts::line_c(
            st,
            "if ("@,
            exprs::expr_c(st.ctx, condition),
            ") {"@,
        ) matches Ok(head) ==> whole_stmts(model::indented(head), then_block.statements@, 0) && (
        stmts::body_c(model::indented(head), then_block.statements@, head.pad) matches Ok(done)
            ==> {
            let other = model::indented(model::emitted(done, "} else {"@));
            match else_branch {
                Some(ElseBranch::Block(block)) => whole_stmts(other, block.statements@, 0),
                Some(ElseBranch::IfStmt(inner)) => whole_stmt(other, *inner),
                None => true,
            }
        }),
        _ => true,
    }
}

/// Whether the arms of a literal match from the `i`-th on are written: there is one
/// at most for what the branches leave.
pub open spec fn whole_literal_arms(
    ch: stmts::Chain,
    arms: Seq<MatchArm>,
    i: int,
    scrut: Seq<char>,
    is_string: bool,
    ty_name: Seq<char>,
) -> bool
    decreases arms, arms.len() - i,
{
    0 <= i < arms.len() ==> match stmts::cond_c(
        ch.st.ctx.decls,
        arms[i].pattern,
        scrut,
        is_string,
        ty_name,
    ) {
        Err(_) => true,
        Ok(None) => ch.rest is None && whole_literal_arms(
            stmts::Chain { rest: Some(i), ..ch },
            arms,
            i + 1,
            scrut,
            is_string,
            ty_name,
        ),
        Ok(Some(cond)) => {
            let head = stmts::branch_head(ch, cond);
            let ss = arms[i].body.statements@;
            whole_stmts(stmts::inside(head), ss, 0) && (stmts::scoped_c(
                stmts::inside(head),
                ss,
                head.pad,
            ) matches Ok(after) ==> whole_literal_arms(
                stmts::Chain { st: after, first: false, rest: ch.rest },
                arms,
                i + 1,
                scrut,
                is_string,
                ty_name,
            ))
        },
    }
}

/// Whether the arms of a match on a payload enum from the `i`-th on are written:
/// there is one at most for what the branches leave, and each of the others is for
/// a variant.
pub open spec fn whole_tagged_arms(
    ch: stmts::Chain,
    arms: Seq<MatchArm>,
    i: int,
    scrut: Seq<char>,
    ty_name: Seq<char>,
) -> bool
    decreases arms, arms.len() - i,
{
    0 <= i < arms.len() ==> match stmts::tag_test(ch.st.ctx.decls, arms[i].pattern, scrut) {
        stmts::TagTest::Never => false,
        stmts::TagTest::Always => ch.rest is None && whole_tagged_arms(
            stmts::Chain { rest: Some(i), ..ch },
            arms,
            i + 1,
            scrut,
            ty_name,
        ),
        stmts::TagTest::When(cond) => {
            let head = stmts::branch_head(ch, cond);
            let ss = arms[i].body.statements@;
            stmts::tag_bound_c(stmts::inside(head), arms[i].pattern, scrut, ty_name) matches Ok(
                inner,
            ) ==> whole_stmts(inner, ss, 0) && (stmts::scoped_c(inner, ss, head.pad) matches Ok(
                after,
            ) ==> whole_tagged_arms(
                stmts::Chain { st: after, first: false, rest: ch.rest },
                arms,
                i + 1,
                scrut,
                ty_name,
            ))
        },
    }
}

/// Whether the arm for what the branches leave is written whole.
pub open spec fn whole_chain_end(ch: stmts::Chain, arms: Seq<MatchArm>) -> bool
    decreases arms, arms.len() + 1,
{
    match ch.rest {
        Some(k) => 0 <= k < arms.len() ==> whole_stmts(
            if ch.first {
                model::opened(ch.st)
            } else {
                stmts::inside(model::emitted(ch.st, "} else {"@))
            },
            arms[k].body.statements@,
            0,
        ),
        None => true,
    }
}

/// Whether an arm of an option or result match is written whole.
pub open spec fn whole_arm(
    st: model::State,
    arms: Seq<MatchArm>,
    k: Option<int>,
    ty: Option<ast::Type>,
    source: Seq<char>,
) -> bool
    decreases arms, arms.len() + 1,
{
    k is Some && 0 <= k->0 < arms.len() ==> match (if ty is Some && stmts::first_binding(
        arms[k->0].pattern,
    ) is Some {
        stmts::binding_c(st, stmts::first_binding(arms[k->0].pattern)->0, ty->0, source)
    } else {
        Ok(st)
    }) {
        Err(_) => true,
        Ok(inner) => whole_stmts(inner, arms[k->0].body.statements@, 0),
    }
}

/// Whether every arm of a match on literals is written.
pub open spec fn whole_literal_match(st: model::State, s: Spanned<Stmt>, ty_name: Seq<char>) -> bool
    decreases s, 1int,
{
    match s.node {
        Stmt::MatchStmt { value, arms } => stmts::compared_c(st, value, ty_name) matches Ok(scrut)
            ==> {
            let ch = stmts::Chain { st: scrut.0, first: true, rest: None };
            let is_string = ty_name == "String"@ || ty_name == "Str"@;
            whole_literal_arms(ch, arms@, 0, scrut.1, is_string, ty_name) && (
            stmts::literal_arms_c(ch, arms@, 0, scrut.1, is_string, ty_name) matches Ok(end)
                ==> whole_chain_end(end, arms@))
        },
        _ => true,
    }
}

/// Whether every arm of a match on a payload enum is written.
pub open spec fn whole_tagged_match(st: model::State, s: Spanned<Stmt>, ty_name: Seq<char>) -> bool
    decreases s, 1int,
{
    match s.node {
        Stmt::MatchStmt { value, arms } => stmts::bound_c(
            st,
            value,
            model::type_c(st.ctx.decls, stmts::named_type(ty_name)),
            "e"@,
        ) matches Ok(bound) ==> {
            let ch = stmts::Chain { st: bound.0, first: true, rest: None };
            whole_tagged_arms(ch, arms@, 0, bound.1, ty_name) && (stmts::tagged_arms_c(
                ch,
                arms@,
                0,
                bound.1,
                ty_name,
            ) matches Ok(end) ==> whole_chain_end(end, arms@))
        },
        _ => true,
    }
}

/// Whether an arm is the one for `Some`/`Ok` or the one for `None`/`Err`.
pub open spec fn is_picked(pick: (Option<int>, Option<int>), k: int) -> bool {
    pick.0 == Some(k) || pick.1 == Some(k)
}

/// Whether every arm of a match on an option or result is written: each is the one
/// for `Some`/`Ok` or the one for `None`/`Err`.
pub open spec fn whole_option_match(
    st: model::State,
    s: Spanned<Stmt>,
    name: Seq<char>,
    args: Seq<ast::Type>,
) -> bool
    decreases s, 1int,
{
    match s.node {
        Stmt::MatchStmt { value, arms } => match (
            stmts::picks(arms@),
            stmts::bound_c(
                st,
                value,
                model::type_c(st.ctx.decls, ast::Type::Named { name, args }),
                "m"@,
            ),
        ) {
            (Ok(pick), Ok(bound)) => {
                let is_option = name == "Option"@;
                let head = model::emitted(
                    bound.0,
                    "if ("@ + bound.1 + "."@ + (if is_option {
                        "some"@
                    } else {
                        "ok"@
                    }) + ") {"@,
                );
                let value_at = bound.1 + ".value"@;
                &&& forall|k: int| 0 <= k < arms@.len() ==> #[trigger] is_picked(pick, k)
                &&& whole_arm(stmts::inside(head), arms@, pick.0, Some(args[0]), value_at)
                &&& stmts::arm_c(
                    stmts::inside(head),
                    arms@,
                    pick.0,
                    Some(args[0]),
                    value_at,
                    head.pad,
                ) matches Ok(done) ==> whole_arm(
                    stmts::inside(model::emitted(done, "} else {"@)),
                    arms@,
                    pick.1,
                    if is_option {
                        None
                    } else {
                        Some(args[1])
                    },
                    bound.1 + ".error"@,
                )
            },
            _ => true,
        },
        _ => true,
    }
}

/// Whether every arm of a `match` is written.
pub open spec fn whole_match(st: model::State, s: Spanned<Stmt>) -> bool
    decreases s, 2int,
{
    match s.node {
        Stmt::MatchStmt { value, .. } => match exprs::receiver_type(st.ctx, value) {
            Some(ast::Type::Named { name, args }) => if name == "i32"@ || name == "String"@ || name
                == "Str"@ || (st.ctx.decls.enums.contains(name) && !model::has_payload(
                st.ctx.decls,
                name,
            )) {
                whole_literal_match(st, s, name)
            } else if model::has_payload(st.ctx.decls, name) {
                whole_tagged_match(st, s, name)
            } else {
                whole_option_match(st, s, name, args)
            },
            _ => true,
        },
        _ => true,
    }
}

/// Whether every arm of every `match` in a function is written.
pub open spec fn whole_fn(st: model::State, item: Item, name: Seq<char>) -> bool {
    item matches Item::FnDecl { body, .. } ==> (fn_body(st, item, name) matches Ok(inner)
        ==> whole_stmts(inner, body.statements@, 0))
}

/// Whether every arm in the methods from the `i`-th on is written.
pub open spec fn whole_methods(
    st: model::State,
    target: Seq<char>,
    methods: Seq<Spanned<Item>>,
    i: int,
) -> bool
    decreases methods.len() - i,
{
    0 <= i < methods.len() ==> match methods[i].node {
        Item::FnDecl { name, .. } => {
            let called = model::method_name(target, name@);
            whole_fn(st, methods[i].node, called) && (stmts::then_line(
                stmts::fn_c(st, methods[i].node, called),
                ""@,
            ) matches Ok(after) ==> whole_methods(after, target, methods, i + 1))
        },
        _ => whole_methods(st, target, methods, i + 1),
    }
}

/// Whether every arm in the functions and methods of the items from the `i`-th on is
/// written.
pub open spec fn whole_functions(st: model::State, items: Seq<Spanned<Item>>, i: int) -> bool
    decreases items.len() - i,
{
    0 <= i < items.len() ==> match items[i].node {
        Item::FnDecl { name, .. } => whole_fn(st, items[i].node, name@) && (stmts::then_line(
            stmts::fn_c(st, items[i].node, name@),
            ""@,
        ) matches Ok(after) ==> whole_functions(after, items, i + 1)),
        Item::ImplDecl { target, methods } => {
            let owner = model::owner_name(st.ctx.decls, target@);
            whole_methods(st, owner, methods@, 0) && (c::methods_c(
                st,
                owner,
                methods@,
                0,
            ) matches Ok(after) ==> whole_functions(after, items, i + 1))
        },
        _ => whole_functions(st, items, i + 1),
    }
}

proof fn lemma_whole_stmts(st: model::State, ss: Seq<Spanned<Stmt>>, i: int)
    requires
        whole_stmts(st, ss, i),
        stmts::stmts_c(st, ss, i) is Ok,
    ensures
        in_stmts(st, ss, i) == tls::in_stmts(ss, i),
    decreases ss, ss.len() - i,
{
    if 0 <= i < ss.len() {
        law_whole_is_written(st, ss[i]);
        lemma_whole_stmts(stmts::stmt_c(st, ss[i])->Ok_0, ss, i + 1);
    }
}

/// Whether a TLS builtin is called in an arm that was put aside.
spec fn in_aside(rest: Option<int>, arms: Seq<MatchArm>) -> bool {
    rest matches Some(k) && 0 <= k < arms.len() && tls::in_stmts(arms[k].body.statements@, 0)
}

proof fn lemma_whole_literal_arms(
    ch: stmts::Chain,
    arms: Seq<MatchArm>,
    i: int,
    scrut: Seq<char>,
    is_string: bool,
    ty_name: Seq<char>,
)
    requires
        0 <= i,
        whole_literal_arms(ch, arms, i, scrut, is_string, ty_name),
        stmts::literal_arms_c(ch, arms, i, scrut, is_string, ty_name) is Ok,
    ensures
        ({
            let end = stmts::literal_arms_c(ch, arms, i, scrut, is_string, ty_name)->Ok_0;
            (in_literal_arms(ch, arms, i, scrut, is_string, ty_name) || in_aside(end.rest, arms))
                == (tls::in_arms(arms, i) || in_aside(ch.rest, arms))
        }),
    decreases arms, arms.len() - i,
{
    if i < arms.len() {
        match stmts::cond_c(ch.st.ctx.decls, arms[i].pattern, scrut, is_string, ty_name) {
            Err(_) => {},
            Ok(None) => {
                lemma_whole_literal_arms(
                    stmts::Chain { rest: Some(i), ..ch },
                    arms,
                    i + 1,
                    scrut,
                    is_string,
                    ty_name,
                );
            },
            Ok(Some(cond)) => {
                let head = stmts::branch_head(ch, cond);
                let ss = arms[i].body.statements@;
                lemma_whole_stmts(stmts::inside(head), ss, 0);
                let after = stmts::scoped_c(stmts::inside(head), ss, head.pad)->Ok_0;
                lemma_whole_literal_arms(
                    stmts::Chain { st: after, first: false, rest: ch.rest },
                    arms,
                    i + 1,
                    scrut,
                    is_string,
                    ty_name,
                );
            },
        }
    }
}

proof fn lemma_whole_tagged_arms(
    ch: stmts::Chain,
    arms: Seq<MatchArm>,
    i: int,
    scrut: Seq<char>,
    ty_name: Seq<char>,
)
    requires
        0 <= i,
        whole_tagged_arms(ch, arms, i, scrut, ty_name),
        stmts::tagged_arms_c(ch, arms, i, scrut, ty_name) is Ok,
    ensures
        ({
            let end = stmts::tagged_arms_c(ch, arms, i, scrut, ty_name)->Ok_0;
            (in_tagged_arms(ch, arms, i, scrut, ty_name) || in_aside(end.rest, arms)) == (
            tls::in_arms(arms, i) || in_aside(ch.rest, arms))
        }),
    decreases arms, arms.len() - i,
{
    if i < arms.len() {
        match stmts::tag_test(ch.st.ctx.decls, arms[i].pattern, scrut) {
            stmts::TagTest::Never => {},
            stmts::TagTest::Always => {
                lemma_whole_tagged_arms(
                    stmts::Chain { rest: Some(i), ..ch },
                    arms,
                    i + 1,
                    scrut,
                    ty_name,
                );
            },
            stmts::TagTest::When(cond) => {
                let head = stmts::branch_head(ch, cond);
                let ss = arms[i].body.statements@;
                let inner = stmts::tag_bound_c(
                    stmts::inside(head),
                    arms[i].pattern,
                    scrut,
                    ty_name,
                )->Ok_0;
                lemma_whole_stmts(inner, ss, 0);
                let after = stmts::scoped_c(inner, ss, head.pad)->Ok_0;
                lemma_whole_tagged_arms(
                    stmts::Chain { st: after, first: false, rest: ch.rest },
                    arms,
                    i + 1,
                    scrut,
                    ty_name,
                );
            },
        }
    }
}

proof fn lemma_whole_chain_end(ch: stmts::Chain, arms: Seq<MatchArm>)
    requires
        whole_chain_end(ch, arms),
        stmts::chain_end_c(ch, arms) is Ok,
    ensures
        in_chain_end(ch, arms) == in_aside(ch.rest, arms),
    decreases arms, arms.len() + 1,
{
    if let Some(k) = ch.rest {
        if 0 <= k < arms.len() {
            let ss = arms[k].body.statements@;
            if ch.first {
                lemma_whole_stmts(model::opened(ch.st), ss, 0);
            } else {
                lemma_whole_stmts(stmts::inside(model::emitted(ch.st, "} else {"@)), ss, 0);
            }
        }
    }
}

proof fn lemma_whole_arm(
    st: model::State,
    arms: Seq<MatchArm>,
    k: Option<int>,
    ty: Option<ast::Type>,
    source: Seq<char>,
    pad: Seq<char>,
)
    requires
        whole_arm(st, arms, k, ty, source),
        stmts::arm_c(st, arms, k, ty, source, pad) is Ok,
    ensures
        in_arm(st, arms, k, ty, source) == in_aside(k, arms),
    decreases arms, arms.len() + 1,
{
    if k is Some && 0 <= k->0 < arms.len() {
        let arm = arms[k->0];
        let begun = if ty is Some && stmts::first_binding(arm.pattern) is Some {
            stmts::binding_c(st, stmts::first_binding(arm.pattern)->0, ty->0, source)
        } else {
            Ok(st)
        };
        lemma_whole_stmts(begun->Ok_0, arm.body.statements@, 0);
    }
}

/// A TLS builtin is called in an arm exactly where it is called in one of them.
proof fn lemma_arms_called(arms: Seq<MatchArm>, i: int)
    requires
        0 <= i,
    ensures
        tls::in_arms(arms, i) <==> exists|k: int|
            i <= k < arms.len() && tls::in_stmts((#[trigger] arms[k]).body.statements@, 0),
    decreases arms.len() - i,
{
    if i < arms.len() {
        lemma_arms_called(arms, i + 1);
        if tls::in_stmts(arms[i].body.statements@, 0) {
            assert(arms[i] == arms[i]);
        }
    }
}

proof fn lemma_whole_literal_match(st: model::State, s: Spanned<Stmt>, ty_name: Seq<char>)
    requires
        s.node is MatchStmt,
        whole_literal_match(st, s, ty_name),
        stmts::literal_match_c(st, s, ty_name) is Ok,
    ensures
        in_literal_match(st, s, ty_name) == tls::in_stmt(s),
    decreases s, 1int,
{
    if let Stmt::MatchStmt { value, arms } = s.node {
        let scrut = stmts::compared_c(st, value, ty_name)->Ok_0;
        let ch = stmts::Chain { st: scrut.0, first: true, rest: None };
        let is_string = ty_name == "String"@ || ty_name == "Str"@;
        lemma_whole_literal_arms(ch, arms@, 0, scrut.1, is_string, ty_name);
        lemma_whole_chain_end(
            stmts::literal_arms_c(ch, arms@, 0, scrut.1, is_string, ty_name)->Ok_0,
            arms@,
        );
    }
}

proof fn lemma_whole_tagged_match(st: model::State, s: Spanned<Stmt>, ty_name: Seq<char>)
    requires
        s.node is MatchStmt,
        whole_tagged_match(st, s, ty_name),
        stmts::tagged_match_c(st, s, ty_name) is Ok,
    ensures
        in_tagged_match(st, s, ty_name) == tls::in_stmt(s),
    decreases s, 1int,
{
    if let Stmt::MatchStmt { value, arms } = s.node {
        let ty = model::type_c(st.ctx.decls, stmts::named_type(ty_name));
        let bound = stmts::bound_c(st, value, ty, "e"@)->Ok_0;
        let ch = stmts::Chain { st: bound.0, first: true, rest: None };
        lemma_whole_tagged_arms(ch, arms@, 0, bound.1, ty_name);
        lemma_whole_chain_end(stmts::tagged_arms_c(ch, arms@, 0, bound.1, ty_name)->Ok_0, arms@);
    }
}

proof fn lemma_whole_option_match(
    st: model::State,
    s: Spanned<Stmt>,
    name: Seq<char>,
    args: Seq<ast::Type>,
)
    requires
        s.node is MatchStmt,
        whole_option_match(st, s, name, args),
        stmts::option_match_c(st, s, name, args) is Ok,
    ensures
        in_option_match(st, s, name, args) == tls::in_stmt(s),
    decreases s, 1int,
{
    if let Stmt::MatchStmt { value, arms } = s.node {
        let is_option = name == "Option"@;
        let ty = model::type_c(st.ctx.decls, ast::Type::Named { name, args });
        let pick = stmts::picks(arms@)->Ok_0;
        let (begun, scrut) = stmts::bound_c(st, value, ty, "m"@)->Ok_0;
        let head = model::emitted(
            begun,
            "if ("@ + scrut + "."@ + (if is_option {
                "some"@
            } else {
                "ok"@
            }) + ") {"@,
        );
        let value_at = scrut + ".value"@;
        lemma_whole_arm(stmts::inside(head), arms@, pick.0, Some(args[0]), value_at, head.pad);
        let done = stmts::arm_c(
            stmts::inside(head),
            arms@,
            pick.0,
            Some(args[0]),
            value_at,
            head.pad,
        )->Ok_0;
        let other = model::emitted(done, "} else {"@);
        if pick.1 is Some {
            lemma_whole_arm(
                stmts::inside(other),
                arms@,
                pick.1,
                if is_option {
                    None
                } else {
                    Some(args[1])
                },
                scrut + ".error"@,
                other.pad,
            );
        }
        lemma_arms_called(arms@, 0);
        if tls::in_arms(arms@, 0) {
            let k = choose|k: int|
                0 <= k < arms@.len() && tls::in_stmts(
                    (#[trigger] arms@[k]).body.statements@,
                    0,
                );
            assert(is_picked(pick, k));
        }
        if in_aside(pick.0, arms@) {
            assert(tls::in_stmts(arms@[pick.0->0].body.statements@, 0));
        }
        if in_aside(pick.1, arms@) {
            assert(tls::in_stmts(arms@[pick.1->0].body.statements@, 0));
        }
    }
}

/// Where every arm is written, all is: a TLS builtin is called in what is written
/// for a statement exactly where it is called in the statement.
pub proof fn law_whole_is_written(st: model::State, s: Spanned<Stmt>)
    requires
        whole_stmt(st, s),
        stmts::stmt_c(st, s) is Ok,
    ensures
        in_stmt(st, s) == tls::in_stmt(s),
    decreases s, 3int,
{
    match s.node {
        Stmt::IfStmt { condition, then_block, else_branch } => {
            let head = stmts::line_c(
                st,
                "if ("@,
                exprs::expr_c(st.ctx, condition),
                ") {"@,
            )->Ok_0;
            assert(stmts::stmt_c(st, s) == stmts::if_c(st, s));
            lemma_whole_stmts(model::indented(head), then_block.statements@, 0);
            let done = stmts::body_c(
                model::indented(head),
                then_block.statements@,
                head.pad,
            )->Ok_0;
            let other = model::indented(model::emitted(done, "} else {"@));
            match else_branch {
                Some(ElseBranch::Block(block)) => lemma_whole_stmts(other, block.statements@, 0),
                Some(ElseBranch::IfStmt(inner)) => law_whole_is_written(other, *inner),
                None => {},
            }
        },
        Stmt::WhileStmt { condition, body } => {
            let head = stmts::line_c(
                st,
                "while ("@,
                exprs::expr_c(st.ctx, condition),
                ") {"@,
            )->Ok_0;
            lemma_whole_stmts(stmts::inside(head), body.statements@, 0);
        },
        Stmt::ForStmt { iterable, body, .. } => {
            match iterable.node {
                Expr::RangeExpr { .. } => {
                    assert(stmts::stmt_c(st, s) == stmts::range_for_c(st, s));
                },
                _ => {
                    assert(stmts::stmt_c(st, s) == stmts::for_each_c(st, s));
                },
            }
            assert(loop_body(st, s) is Ok);
            lemma_whole_stmts(loop_body(st, s)->Ok_0, body.statements@, 0);
        },
        Stmt::MatchStmt { value, .. } => {
            assert(stmts::stmt_c(st, s) == stmts::match_c(st, s));
            if let Some(ast::Type::Named { name, args }) = exprs::receiver_type(st.ctx, value) {
                if name == "i32"@ || name == "String"@ || name == "Str"@ || (
                st.ctx.decls.enums.contains(name) && !model::has_payload(st.ctx.decls, name)) {
                    lemma_whole_literal_match(st, s, name);
                } else if model::has_payload(st.ctx.decls, name) {
                    lemma_whole_tagged_match(st, s, name);
                } else {
                    lemma_whole_option_match(st, s, name, args);
                }
            }
        },
        _ => {},
    }
}

proof fn lemma_fn_written(st: model::State, item: Item, name: Seq<char>)
    requires
        whole_fn(st, item, name),
        stmts::fn_c(st, item, name) is Ok,
    ensures
        in_fn(st, item, name) == tls::in_fn(item),
{
    if let Item::FnDecl { body, .. } = item {
        lemma_whole_stmts(fn_body(st, item, name)->Ok_0, body.statements@, 0);
    }
}

proof fn lemma_methods_written(
    st: model::State,
    target: Seq<char>,
    methods: Seq<Spanned<Item>>,
    i: int,
)
    requires
        whole_methods(st, target, methods, i),
        c::methods_c(st, target, methods, i) is Ok,
    ensures
        in_methods(st, target, methods, i) == tls::in_methods(methods, i),
    decreases methods.len() - i,
{
    if 0 <= i < methods.len() {
        match methods[i].node {
            Item::FnDecl { name, .. } => {
                let called = model::method_name(target, name@);
                lemma_fn_written(st, methods[i].node, called);
                let step = stmts::then_line(stmts::fn_c(st, methods[i].node, called), ""@)->Ok_0;
                lemma_methods_written(step, target, methods, i + 1);
            },
            _ => lemma_methods_written(st, target, methods, i + 1),
        }
    }
}

proof fn lemma_functions_written(st: model::State, items: Seq<Spanned<Item>>, i: int)
    requires
        whole_functions(st, items, i),
        c::functions_c(st, items, i) is Ok,
    ensures
        in_functions(st, items, i) == tls::in_items(items, i),
    decreases items.len() - i,
{
    if 0 <= i < items.len() {
        match items[i].node {
            Item::FnDecl { name, .. } => {
                lemma_fn_written(st, items[i].node, name@);
                let step = stmts::then_line(stmts::fn_c(st, items[i].node, name@), ""@)->Ok_0;
                lemma_functions_written(step, items, i + 1);
            },
            Item::ImplDecl { target, methods } => {
                let owner = model::owner_name(st.ctx.decls, target@);
                lemma_methods_written(st, owner, methods@, 0);
                lemma_functions_written(c::methods_c(st, owner, methods@, 0)->Ok_0, items, i + 1);
            },
            _ => lemma_functions_written(st, items, i + 1),
        }
    }
}

/// TLS is switched on exactly where a TLS builtin is called in a program, if no
/// builtin has arguments that it does not use and every arm of every `match` is
/// written: what is not written cannot need TLS.
pub proof fn law_tls_call_switches_tls_on(types: Map<Span, ast::Type>, items: Seq<Spanned<Item>>)
    requires
        c::written(model::fresh(types), items) is Ok,
        forall|k: int| 0 <= k < items.len() ==> exact_item((#[trigger] items[k]).node),
        before_functions(model::fresh(types), items) matches Ok(st) ==> whole_functions(
            st,
            items,
            0,
        ),
    ensures
        c::written(model::fresh(types), items)->Ok_0.tls == tls::in_items(items, 0),
{
    law_tls_exactly_where_called(types, items);
    lemma_functions_written(before_functions(model::fresh(types), items)->Ok_0, items, 0);
}

} // verus!
