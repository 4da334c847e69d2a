//! The generator: which programs need TLS.

use vstd::prelude::*;

use crate::ast;
use crate::ast::{ElseBranch, Expr, FieldInit, Item, MatchArm, Param, Pattern, Stmt};
use crate::codegen::builtins;
use crate::codegen::c;
use crate::codegen::exprs;
use crate::codegen::model;
use crate::codegen::runtime;
use crate::codegen::stmts;
use crate::codegen::typedefs;
use crate::source::{Span, Spanned};
use crate::text;

verus! {

// ---------------------------------------------------------------------------
// Where a TLS builtin is called
// ---------------------------------------------------------------------------

/// Whether a TLS builtin is called in an expression.
pub open spec fn in_expr(e: Spanned<Expr>) -> bool
    decreases e, 0int,
{
    exprs::calls_tls(e) || match e.node {
        Expr::ArrayLiteral { elements } => in_exprs(elements@, 0),
        Expr::BinaryExpr { left, right, .. } => in_expr(*left) || in_expr(*right),
        Expr::UnaryExpr { value, .. } => in_expr(*value),
        Expr::AssignmentExpr { target, value } => in_expr(*target) || in_expr(*value),
        Expr::CallExpr { callee, args } => in_expr(*callee) || in_exprs(args@, 0),
        Expr::FieldAccessExpr { object, .. } => in_expr(*object),
        Expr::StructLiteral { fields, .. } => in_inits(fields@, 0),
        Expr::IndexExpr { object, index } => in_expr(*object) || in_expr(*index),
        Expr::RangeExpr { start, end, .. } => in_expr(*start) || in_expr(*end),
        _ => false,
    }
}

/// Whether a TLS builtin is called in one of the expressions from the `i`-th on.
pub open spec fn in_exprs(es: Seq<Spanned<Expr>>, i: int) -> bool
    decreases es, es.len() - i,
{
    0 <= i < es.len() && (in_expr(es[i]) || in_exprs(es, i + 1))
}

/// Whether a TLS builtin is called in one of the values from the `i`-th on.
pub open spec fn in_inits(fields: Seq<FieldInit>, i: int) -> bool
    decreases fields, fields.len() - i,
{
    0 <= i < fields.len() && (in_expr(fields[i].value) || in_inits(fields, i + 1))
}

/// Whether a TLS builtin is called in a statement.
pub open spec fn in_stmt(s: Spanned<Stmt>) -> bool
    decreases s, 0int,
{
    match s.node {
        Stmt::LetStmt { value, .. } => in_expr(value),
        Stmt::IfStmt { condition, then_block, else_branch } => in_expr(condition) || in_stmts(
            then_block.statements@,
            0,
        ) || match else_branch {
            Some(ElseBranch::Block(block)) => in_stmts(block.statements@, 0),
            Some(ElseBranch::IfStmt(inner)) => in_stmt(*inner),
            None => false,
        },
        Stmt::ForStmt { iterable, body, .. } => in_expr(iterable) || in_stmts(
            body.statements@,
            0,
        ),
        Stmt::WhileStmt { condition, body } => in_expr(condition) || in_stmts(
            body.statements@,
            0,
        ),
        Stmt::MatchStmt { value, arms } => in_expr(value) || in_arms(arms@, 0),
        Stmt::ReturnStmt { value } => match value {
            Some(e) => in_expr(e),
            None => false,
        },
        Stmt::ExprStmt { expr } => in_expr(expr),
        Stmt::BreakStmt => false,
        Stmt::ContinueStmt => false,
    }
}

/// Whether a TLS builtin is called in one of the statements from the `i`-th on.
pub open spec fn in_stmts(ss: Seq<Spanned<Stmt>>, i: int) -> bool
    decreases ss, ss.len() - i,
{
    0 <= i < ss.len() && (in_stmt(ss[i]) || in_stmts(ss, i + 1))
}

/// Whether a TLS builtin is called in one of the arms from the `i`-th on.
pub open spec fn in_arms(arms: Seq<MatchArm>, i: int) -> bool
    decreases arms, arms.len() - i,
{
    0 <= i < arms.len() && (in_stmts(arms[i].body.statements@, 0) || in_arms(arms, i + 1))
}

/// Whether a TLS builtin is called in a function.
pub open spec fn in_fn(item: Item) -> bool {
    match item {
        Item::FnDecl { body, .. } => in_stmts(body.statements@, 0),
        _ => false,
    }
}

/// Whether a TLS builtin is called in one of the methods from the `i`-th on.
pub open spec fn in_methods(methods: Seq<Spanned<Item>>, i: int) -> bool
    decreases methods.len() - i,
{
    0 <= i < methods.len() && (in_fn(methods[i].node) || in_methods(methods, i + 1))
}

/// Whether a TLS builtin is called in one of the items from the `i`-th on.
pub open spec fn in_items(items: Seq<Spanned<Item>>, i: int) -> bool
    decreases items.len() - i,
{
    0 <= i < items.len() && ((match items[i].node {
        Item::FnDecl { .. } => in_fn(items[i].node),
        Item::ImplDecl { methods, .. } => in_methods(methods@, 0),
        _ => false,
    }) || in_items(items, i + 1))
}

// ---------------------------------------------------------------------------
// Expressions
// ---------------------------------------------------------------------------

proof fn lemma_none_at(es: Seq<Spanned<Expr>>, i: int, k: int)
    requires
        !in_exprs(es, i),
        0 <= i <= k < es.len(),
    ensures
        !in_expr(es[k]),
    decreases k - i,
{
    if i < k {
        lemma_none_at(es, i + 1, k);
    }
}

proof fn lemma_no_init_at(fields: Seq<FieldInit>, i: int, k: int)
    requires
        !in_inits(fields, i),
        0 <= i <= k < fields.len(),
    ensures
        !in_expr(fields[k].value),
    decreases k - i,
{
    if i < k {
        lemma_no_init_at(fields, i + 1, k);
    }
}

pub(crate) proof fn lemma_exprs(ctx: model::Ctx, es: Seq<Spanned<Expr>>, n: int)
    requires
        !in_exprs(es, 0),
    ensures
        exprs::exprs_c(ctx, es, n) is Ok ==> !exprs::any_tls(exprs::exprs_c(ctx, es, n)->Ok_0),
    decreases es, n,
{
    if 0 < n <= es.len() {
        lemma_exprs(ctx, es, n - 1);
        lemma_none_at(es, 0, n - 1);
        lemma_expr(ctx, es[n - 1]);
    }
}

proof fn lemma_inits(ctx: model::Ctx, owner: Seq<char>, fields: Seq<FieldInit>, n: int)
    requires
        !in_inits(fields, 0),
    ensures
        exprs::inits_c(ctx, owner, fields, n) is Ok ==> !exprs::any_tls(
            exprs::inits_c(ctx, owner, fields, n)->Ok_0,
        ),
    decreases fields, n,
{
    if 0 < n <= fields.len() {
        lemma_inits(ctx, owner, fields, n - 1);
        lemma_no_init_at(fields, 0, n - 1);
        let f = fields[n - 1];
        lemma_typed(ctx, exprs::declared_field(ctx.decls, owner, f.name@), f.value);
    }
}

pub(crate) proof fn lemma_typed(ctx: model::Ctx, ty: Option<ast::Type>, value: Spanned<Expr>)
    requires
        !in_expr(value),
    ensures
        exprs::typed_c(ctx, ty, value) is Ok ==> !exprs::typed_c(ctx, ty, value)->Ok_0.tls,
    decreases value, 4int,
{
    lemma_expr(ctx, value);
    if let Some(t) = ty {
        lemma_constructor(ctx, t, value);
    }
}

proof fn lemma_constructor(ctx: model::Ctx, ty: ast::Type, value: Spanned<Expr>)
    requires
        !in_expr(value),
    ensures
        exprs::constructor_c(ctx, ty, value) matches Ok(Some(c)) ==> !c.tls,
    decreases value, 1int,
{
    if let Expr::CallExpr { callee, args } = value.node {
        if args@.len() > 0 {
            lemma_none_at(args@, 0, 0);
            lemma_expr(ctx, args@[0]);
        }
    }
}

proof fn lemma_call(ctx: model::Ctx, e: Spanned<Expr>)
    requires
        !in_expr(e),
    ensures
        exprs::call_c(ctx, e) is Ok ==> !exprs::call_c(ctx, e)->Ok_0.tls,
    decreases e, 2int,
{
    if let Expr::CallExpr { callee, args } = e.node {
        lemma_exprs(ctx, args@, args@.len() as int);
        lemma_expr(ctx, *callee);
        if args@.len() > 0 {
            lemma_none_at(args@, 0, 0);
            lemma_expr(ctx, args@[0]);
        }
        if args@.len() > 1 {
            lemma_none_at(args@, 0, 1);
            lemma_expr(ctx, args@[1]);
        }
        match callee.node {
            Expr::Identifier { name } => {
                if let Some(n) = builtins::call_arity(name@) {
                    lemma_exprs(ctx, args@, n as int);
                }
            },
            Expr::FieldAccessExpr { object, .. } => {
                reveal_with_fuel(in_expr, 2);
                lemma_expr(ctx, *object);
            },
            _ => {},
        }
        assert(exprs::plain_call_c(e) matches Ok(Some(c)) ==> !c.tls);
        assert(exprs::print_call_c(ctx, e) matches Ok(Some(c)) ==> !c.tls);
        assert(exprs::builtin_call_c(ctx, e) matches Ok(Some(c)) ==> !c.tls);
        assert(exprs::push_c(ctx, e) matches Ok(Some(c)) ==> !c.tls);
        assert(exprs::pop_c(ctx, e) matches Ok(Some(c)) ==> !c.tls);
        assert(exprs::length_c(ctx, e) matches Ok(Some(c)) ==> !c.tls);
        assert(exprs::method_c(ctx, e) matches Ok(Some(c)) ==> !c.tls);
        assert(exprs::variant_c(ctx, e) matches Ok(Some(c)) ==> !c.tls);
        assert(exprs::apply_c(ctx, e) is Ok ==> !exprs::apply_c(ctx, e)->Ok_0.tls);
    }
}

proof fn lemma_expr(ctx: model::Ctx, e: Spanned<Expr>)
    requires
        !in_expr(e),
    ensures
        exprs::expr_c(ctx, e) is Ok ==> !exprs::expr_c(ctx, e)->Ok_0.tls,
    decreases e, 3int,
{
    match e.node {
        Expr::BinaryExpr { left, right, .. } => {
            lemma_expr(ctx, *left);
            lemma_expr(ctx, *right);
            assert(exprs::expr_c(ctx, e) == exprs::binary_c(ctx, e));
        },
        Expr::UnaryExpr { value, .. } => lemma_expr(ctx, *value),
        Expr::AssignmentExpr { target, value } => {
            lemma_expr(ctx, *target);
            lemma_expr(ctx, *value);
        },
        Expr::CallExpr { .. } => lemma_call(ctx, e),
        Expr::FieldAccessExpr { object, .. } => lemma_expr(ctx, *object),
        Expr::StructLiteral { name, fields } => {
            lemma_inits(
                ctx,
                model::owner_name(ctx.decls, name@),
                fields@,
                fields@.len() as int,
            );
        },
        Expr::IndexExpr { object, index } => {
            lemma_expr(ctx, *object);
            lemma_expr(ctx, *index);
            assert(exprs::expr_c(ctx, e) == exprs::index_c(ctx, e));
        },
        _ => {},
    }
}

/// The code of an expression needs TLS only where a TLS builtin is called in it.
pub proof fn law_expression_needs_tls_call(ctx: model::Ctx, e: Spanned<Expr>)
    ensures
        exprs::expr_c(ctx, e) is Ok && exprs::expr_c(ctx, e)->Ok_0.tls ==> in_expr(e),
{
    if !in_expr(e) {
        lemma_expr(ctx, e);
    }
}

/// Whether no builtin in an expression has more arguments than it uses.
pub open spec fn exact(e: Spanned<Expr>) -> bool
    decreases e, 0int,
{
    match e.node {
        Expr::ArrayLiteral { elements } => all_exact(elements@, 0),
        Expr::BinaryExpr { left, right, .. } => exact(*left) && exact(*right),
        Expr::UnaryExpr { value, .. } => exact(*value),
        Expr::AssignmentExpr { target, value } => exact(*target) && exact(*value),
        Expr::CallExpr { callee, args } => exact(*callee) && all_exact(args@, 0) && (
        callee.node matches Expr::Identifier { name } ==> (builtins::call_arity(
            name@,
        ) matches Some(n) ==> args@.len() <= n)),
        Expr::FieldAccessExpr { object, .. } => exact(*object),
        Expr::StructLiteral { fields, .. } => all_inits_exact(fields@, 0),
        Expr::IndexExpr { object, index } => exact(*object) && exact(*index),
        Expr::RangeExpr { start, end, .. } => exact(*start) && exact(*end),
        _ => true,
    }
}

/// Whether that holds of the expressions from the `i`-th on.
pub open spec fn all_exact(es: Seq<Spanned<Expr>>, i: int) -> bool
    decreases es, es.len() - i,
{
    0 <= i < es.len() ==> exact(es[i]) && all_exact(es, i + 1)
}

/// Whether that holds of the values from the `i`-th on.
pub open spec fn all_inits_exact(fields: Seq<FieldInit>, i: int) -> bool
    decreases fields, fields.len() - i,
{
    0 <= i < fields.len() ==> exact(fields[i].value) && all_inits_exact(fields, i + 1)
}

proof fn lemma_exact_at(es: Seq<Spanned<Expr>>, i: int, k: int)
    requires
        all_exact(es, i),
        0 <= i <= k < es.len(),
    ensures
        exact(es[k]),
    decreases k - i,
{
    if i < k {
        lemma_exact_at(es, i + 1, k);
    }
}

proof fn lemma_init_exact_at(fields: Seq<FieldInit>, i: int, k: int)
    requires
        all_inits_exact(fields, i),
        0 <= i <= k < fields.len(),
    ensures
        exact(fields[k].value),
    decreases k - i,
{
    if i < k {
        lemma_init_exact_at(fields, i + 1, k);
    }
}

/// Where the expression is that a TLS builtin is called in.
pub(crate) proof fn lemma_some_at(es: Seq<Spanned<Expr>>, i: int) -> (k: int)
    requires
        in_exprs(es, i),
    ensures
        i <= k < es.len(),
        in_expr(es[k]),
    decreases es.len() - i,
{
    if in_expr(es[i]) {
        i
    } else {
        lemma_some_at(es, i + 1)
    }
}

proof fn lemma_some_init_at(fields: Seq<FieldInit>, i: int) -> (k: int)
    requires
        in_inits(fields, i),
    ensures
        i <= k < fields.len(),
        in_expr(fields[k].value),
    decreases fields.len() - i,
{
    if in_expr(fields[i].value) {
        i
    } else {
        lemma_some_init_at(fields, i + 1)
    }
}

pub(crate) proof fn lemma_rendered_list(ctx: model::Ctx, es: Seq<Spanned<Expr>>, n: int, k: int)
    requires
        all_exact(es, 0),
        0 <= k < n <= es.len(),
        in_expr(es[k]),
        exprs::exprs_c(ctx, es, n) is Ok,
    ensures
        exprs::any_tls(exprs::exprs_c(ctx, es, n)->Ok_0),
    decreases es, n,
{
    let before = exprs::exprs_c(ctx, es, n - 1)->Ok_0;
    let all = exprs::exprs_c(ctx, es, n)->Ok_0;
    if k == n - 1 {
        lemma_exact_at(es, 0, k);
        law_tls_call_needs_tls(ctx, es[k]);
        assert(all[before.len() as int].tls);
    } else {
        lemma_rendered_list(ctx, es, n - 1, k);
        let j = choose|j: int| 0 <= j < before.len() && (#[trigger] before[j]).tls;
        assert(all[j].tls);
    }
}

proof fn lemma_rendered_inits(
    ctx: model::Ctx,
    owner: Seq<char>,
    fields: Seq<FieldInit>,
    n: int,
    k: int,
)
    requires
        all_inits_exact(fields, 0),
        0 <= k < n <= fields.len(),
        in_expr(fields[k].value),
        exprs::inits_c(ctx, owner, fields, n) is Ok,
    ensures
        exprs::any_tls(exprs::inits_c(ctx, owner, fields, n)->Ok_0),
    decreases fields, n,
{
    let before = exprs::inits_c(ctx, owner, fields, n - 1)->Ok_0;
    let all = exprs::inits_c(ctx, owner, fields, n)->Ok_0;
    if k == n - 1 {
        let f = fields[k];
        lemma_init_exact_at(fields, 0, k);
        lemma_rendered_typed(ctx, exprs::declared_field(ctx.decls, owner, f.name@), f.value);
        assert(all[before.len() as int].tls);
    } else {
        lemma_rendered_inits(ctx, owner, fields, n - 1, k);
        let j = choose|j: int| 0 <= j < before.len() && (#[trigger] before[j]).tls;
        assert(all[j].tls);
    }
}

pub(crate) proof fn lemma_rendered_typed(ctx: model::Ctx, ty: Option<ast::Type>, value: Spanned<Expr>)
    requires
        exact(value),
        in_expr(value),
        exprs::typed_c(ctx, ty, value) is Ok,
    ensures
        exprs::typed_c(ctx, ty, value)->Ok_0.tls,
    decreases value, 4int,
{
    let built = match ty {
        Some(t) => exprs::constructor_c(ctx, t, value),
        None => Ok(None),
    };
    if built matches Ok(Some(_)) {
        if let Expr::CallExpr { callee, args } = value.node {
            reveal_with_fuel(in_expr, 2);
            reveal_strlit("Some");
            reveal_strlit("Ok");
            reveal_strlit("Err");
            reveal_strlit("vec_new");
            reveal_strlit("tls_ctx_new");
            reveal_strlit("tls_accept");
            reveal_strlit("tls_write");
            reveal_strlit("tls_read");
            reveal_strlit("tls_close");
            assert(!exprs::calls_tls(value)) by {
                if let Expr::Identifier { name } = callee.node {
                    assert(name@ == "Some"@ || name@ == "Ok"@ || name@ == "Err"@ || name@
                        == "vec_new"@);
                    assert("Some"@.len() == 4 && "Ok"@.len() == 2 && "Err"@.len() == 3);
                    assert("vec_new"@.len() == 7);
                    assert("tls_ctx_new"@.len() == 11 && "tls_accept"@.len() == 10);
                    assert("tls_write"@.len() == 9 && "tls_read"@.len() == 8);
                    assert("tls_close"@.len() == 9);
                }
            }
            let k = lemma_some_at(args@, 0);
            assert(args@.len() == 1 && k == 0);
            lemma_exact_at(args@, 0, 0);
            law_tls_call_needs_tls(ctx, args@[0]);
        }
    } else {
        law_tls_call_needs_tls(ctx, value);
    }
}

proof fn lemma_rendered_call(ctx: model::Ctx, e: Spanned<Expr>)
    requires
        exact(e),
        in_expr(e),
        e.node is CallExpr,
        exprs::call_c(ctx, e) is Ok,
    ensures
        exprs::call_c(ctx, e)->Ok_0.tls,
    decreases e, 2int,
{
    if let Expr::CallExpr { callee, args } = e.node {
        if !exprs::calls_tls(e) {
            let n = args@.len() as int;
            if in_expr(*callee) {
                assert(!(callee.node is Identifier));
                if exprs::expr_c(ctx, *callee) is Ok {
                    law_tls_call_needs_tls(ctx, *callee);
                }
                if let Expr::FieldAccessExpr { object, .. } = callee.node {
                    reveal_with_fuel(in_expr, 2);
                    reveal_with_fuel(exact, 2);
                    if exprs::expr_c(ctx, *object) is Ok {
                        law_tls_call_needs_tls(ctx, *object);
                    }
                }
            } else {
                let k = lemma_some_at(args@, 0);
                lemma_exact_at(args@, 0, k);
                if exprs::expr_c(ctx, args@[k]) is Ok {
                    law_tls_call_needs_tls(ctx, args@[k]);
                }
                if exprs::exprs_c(ctx, args@, n) is Ok {
                    lemma_rendered_list(ctx, args@, n, k);
                }
                if let Expr::Identifier { name } = callee.node {
                    if let Some(m) = builtins::call_arity(name@) {
                        assert(m <= args@.len() ==> m == n);
                    }
                }
            }
            assert(exprs::plain_call_c(e) matches Ok(Some(c)) ==> c.tls);
            assert(exprs::print_call_c(ctx, e) matches Ok(Some(c)) ==> c.tls);
            assert(exprs::builtin_call_c(ctx, e) matches Ok(Some(c)) ==> c.tls);
            assert(exprs::push_c(ctx, e) matches Ok(Some(c)) ==> c.tls);
            assert(exprs::pop_c(ctx, e) matches Ok(Some(c)) ==> c.tls);
            assert(exprs::length_c(ctx, e) matches Ok(Some(c)) ==> c.tls);
            assert(exprs::method_c(ctx, e) matches Ok(Some(c)) ==> c.tls);
            assert(exprs::variant_c(ctx, e) matches Ok(Some(c)) ==> c.tls);
            assert(exprs::apply_c(ctx, e) is Ok ==> exprs::apply_c(ctx, e)->Ok_0.tls);
        }
    }
}

/// The code of an expression in which a TLS builtin is called needs TLS. Arguments
/// that a builtin does not use are not rendered, so they must not be there.
pub proof fn law_tls_call_needs_tls(ctx: model::Ctx, e: Spanned<Expr>)
    requires
        exact(e),
        in_expr(e),
        exprs::expr_c(ctx, e) is Ok,
    ensures
        exprs::expr_c(ctx, e)->Ok_0.tls,
    decreases e, 3int,
{
    match e.node {
        Expr::BinaryExpr { left, right, .. } => {
            assert(exprs::expr_c(ctx, e) == exprs::binary_c(ctx, e));
            if in_expr(*left) {
                law_tls_call_needs_tls(ctx, *left);
            } else {
                law_tls_call_needs_tls(ctx, *right);
            }
        },
        Expr::UnaryExpr { value, .. } => law_tls_call_needs_tls(ctx, *value),
        Expr::AssignmentExpr { target, value } => {
            if in_expr(*target) {
                law_tls_call_needs_tls(ctx, *target);
            } else {
                law_tls_call_needs_tls(ctx, *value);
            }
        },
        Expr::CallExpr { .. } => {
            assert(exprs::expr_c(ctx, e) == exprs::call_c(ctx, e));
            lemma_rendered_call(ctx, e);
        },
        Expr::FieldAccessExpr { object, .. } => law_tls_call_needs_tls(ctx, *object),
        Expr::StructLiteral { name, fields } => {
            let k = lemma_some_init_at(fields@, 0);
            lemma_rendered_inits(
                ctx,
                model::owner_name(ctx.decls, name@),
                fields@,
                fields@.len() as int,
                k,
            );
        },
        Expr::IndexExpr { object, index } => {
            assert(exprs::expr_c(ctx, e) == exprs::index_c(ctx, e));
            if in_expr(*object) {
                law_tls_call_needs_tls(ctx, *object);
            } else {
                law_tls_call_needs_tls(ctx, *index);
            }
        },
        _ => {},
    }
}

// ---------------------------------------------------------------------------
// Statements
// ---------------------------------------------------------------------------

proof fn lemma_arm_at(arms: Seq<MatchArm>, i: int, k: int)
    requires
        !in_arms(arms, i),
        0 <= i <= k < arms.len(),
    ensures
        !in_stmts(arms[k].body.statements@, 0),
    decreases k - i,
{
    if i < k {
        lemma_arm_at(arms, i + 1, k);
    }
}

proof fn lemma_bound(
    st: model::State,
    e: Spanned<Expr>,
    ty: model::Outcome<Seq<char>>,
    prefix: Seq<char>,
)
    requires
        !in_expr(e),
    ensures
        stmts::bound_c(st, e, ty, prefix) is Ok ==> stmts::bound_c(st, e, ty, prefix)->Ok_0.0.tls
            == st.tls,
{
    lemma_expr(st.ctx, e);
}

proof fn lemma_stmts(st: model::State, ss: Seq<Spanned<Stmt>>, i: int)
    requires
        !in_stmts(ss, i),
    ensures
        stmts::stmts_c(st, ss, i) is Ok ==> stmts::stmts_c(st, ss, i)->Ok_0.tls == st.tls,
    decreases ss, ss.len() - i,
{
    if 0 <= i < ss.len() {
        lemma_stmt(st, ss[i]);
        if stmts::stmt_c(st, ss[i]) is Ok {
            lemma_stmts(stmts::stmt_c(st, ss[i])->Ok_0, ss, i + 1);
        }
    }
}

proof fn lemma_literal_arms(
    ch: stmts::Chain,
    arms: Seq<MatchArm>,
    i: int,
    scrut: Seq<char>,
    is_string: bool,
    ty_name: Seq<char>,
)
    requires
        !in_arms(arms, i),
    ensures
        stmts::literal_arms_c(ch, arms, i, scrut, is_string, ty_name) is Ok
            ==> stmts::literal_arms_c(ch, arms, i, scrut, is_string, ty_name)->Ok_0.st.tls
            == ch.st.tls,
    decreases arms, arms.len() - i,
{
    if 0 <= i < arms.len() {
        match stmts::cond_c(ch.st.ctx.decls, arms[i].pattern, scrut, is_string, ty_name) {
            Err(_) => {},
            Ok(None) => {
                lemma_literal_arms(
                    stmts::Chain { rest: Some(i), ..ch },
                    arms,
                    i + 1,
                    scrut,
                    is_string,
                    ty_name,
                );
            },
            Ok(Some(cond)) => {
                let head = stmts::branch_head(ch, cond);
                let ss = arms[i].body.statements@;
                lemma_stmts(stmts::inside(head), ss, 0);
                if stmts::scoped_c(stmts::inside(head), ss, head.pad) is Ok {
                    let after = stmts::scoped_c(stmts::inside(head), ss, head.pad)->Ok_0;
                    lemma_literal_arms(
                        stmts::Chain { st: after, first: false, rest: ch.rest },
                        arms,
                        i + 1,
                        scrut,
                        is_string,
                        ty_name,
                    );
                }
            },
        }
    }
}

proof fn lemma_tagged_arms(
    ch: stmts::Chain,
    arms: Seq<MatchArm>,
    i: int,
    scrut: Seq<char>,
    ty_name: Seq<char>,
)
    requires
        !in_arms(arms, i),
    ensures
        stmts::tagged_arms_c(ch, arms, i, scrut, ty_name) is Ok ==> stmts::tagged_arms_c(
            ch,
            arms,
            i,
            scrut,
            ty_name,
        )->Ok_0.st.tls == ch.st.tls,
    decreases arms, arms.len() - i,
{
    if 0 <= i < arms.len() {
        let p = arms[i].pattern;
        match stmts::tag_test(ch.st.ctx.decls, p, scrut) {
            stmts::TagTest::Never => {
                lemma_tagged_arms(ch, arms, i + 1, scrut, ty_name);
            },
            stmts::TagTest::Always => {
                lemma_tagged_arms(
                    stmts::Chain { rest: Some(i), ..ch },
                    arms,
                    i + 1,
                    scrut,
                    ty_name,
                );
            },
            stmts::TagTest::When(cond) => {
                let head = stmts::branch_head(ch, cond);
                let ss = arms[i].body.statements@;
                let begun = stmts::tag_bound_c(stmts::inside(head), p, scrut, ty_name);
                if begun is Ok {
                    let inner = begun->Ok_0;
                    lemma_stmts(inner, ss, 0);
                    if stmts::scoped_c(inner, ss, head.pad) is Ok {
                        let after = stmts::scoped_c(inner, ss, head.pad)->Ok_0;
                        lemma_tagged_arms(
                            stmts::Chain { st: after, first: false, rest: ch.rest },
                            arms,
                            i + 1,
                            scrut,
                            ty_name,
                        );
                    }
                }
            },
        }
    }
}

proof fn lemma_chain_end(ch: stmts::Chain, arms: Seq<MatchArm>)
    requires
        !in_arms(arms, 0),
    ensures
        stmts::chain_end_c(ch, arms) is Ok ==> stmts::chain_end_c(ch, arms)->Ok_0.tls == ch.st.tls,
    decreases arms, arms.len() + 1,
{
    if let Some(k) = ch.rest {
        if 0 <= k < arms.len() {
            let ss = arms[k].body.statements@;
            lemma_arm_at(arms, 0, k);
            lemma_stmts(model::opened(ch.st), ss, 0);
            lemma_stmts(stmts::inside(model::emitted(ch.st, "} else {"@)), ss, 0);
        }
    }
}

proof fn lemma_arm(
    st: model::State,
    arms: Seq<MatchArm>,
    k: Option<int>,
    ty: Option<ast::Type>,
    source: Seq<char>,
    pad: Seq<char>,
)
    requires
        !in_arms(arms, 0),
    ensures
        stmts::arm_c(st, arms, k, ty, source, pad) is Ok ==> stmts::arm_c(
            st,
            arms,
            k,
            ty,
            source,
            pad,
        )->Ok_0.tls == st.tls,
    decreases arms, arms.len() + 1,
{
    if k is Some && 0 <= k->0 < arms.len() {
        let arm = arms[k->0];
        lemma_arm_at(arms, 0, k->0);
        let begun = if ty is Some && stmts::first_binding(arm.pattern) is Some {
            stmts::binding_c(st, stmts::first_binding(arm.pattern)->0, ty->0, source)
        } else {
            Ok(st)
        };
        if begun is Ok {
            lemma_stmts(begun->Ok_0, arm.body.statements@, 0);
        }
    }
}

proof fn lemma_option_match(
    st: model::State,
    s: Spanned<Stmt>,
    name: Seq<char>,
    args: Seq<ast::Type>,
)
    requires
        !in_stmt(s),
    ensures
        stmts::option_match_c(st, s, name, args) is Ok ==> stmts::option_match_c(
            st,
            s,
            name,
            args,
        )->Ok_0.tls == st.tls,
    decreases s, 1int,
{
    if let Stmt::MatchStmt { value, arms } = s.node {
        let is_option = name == "Option"@;
        let ty = model::type_c(st.ctx.decls, ast::Type::Named { name, args });
        let pick = stmts::picks(arms@);
        let bound = stmts::bound_c(st, value, ty, "m"@);
        lemma_bound(st, value, ty, "m"@);
        if pick is Ok && bound is Ok {
            let (begun, scrut) = bound->Ok_0;
            let head = model::emitted(
                begun,
                "if ("@ + scrut + "."@ + (if is_option {
                    "some"@
                } else {
                    "ok"@
                }) + ") {"@,
            );
            let yes = stmts::arm_c(
                stmts::inside(head),
                arms@,
                pick->Ok_0.0,
                Some(args[0]),
                scrut + ".value"@,
                head.pad,
            );
            lemma_arm(
                stmts::inside(head),
                arms@,
                pick->Ok_0.0,
                Some(args[0]),
                scrut + ".value"@,
                head.pad,
            );
            if yes is Ok {
                let other = model::emitted(yes->Ok_0, "} else {"@);
                lemma_arm(
                    stmts::inside(other),
                    arms@,
                    pick->Ok_0.1,
                    if is_option {
                        None
                    } else {
                        Some(args[1])
                    },
                    scrut + ".error"@,
                    other.pad,
                );
            }
        }
    }
}

proof fn lemma_match(st: model::State, s: Spanned<Stmt>)
    requires
        !in_stmt(s),
    ensures
        stmts::match_c(st, s) is Ok ==> stmts::match_c(st, s)->Ok_0.tls == st.tls,
    decreases s, 2int,
{
    if let Stmt::MatchStmt { value, arms } = s.node {
        if let Some(ast::Type::Named { name, args }) = exprs::receiver_type(st.ctx, value) {
            lemma_option_match(st, s, name, args);
            lemma_expr(st.ctx, value);
            // On literals.
            let known = model::type_c(st.ctx.decls, stmts::named_type(name));
            lemma_bound(st, value, known, "m"@);
            if stmts::compared_c(st, value, name) is Ok {
                let (begun, scrut) = stmts::compared_c(st, value, name)->Ok_0;
                let ch = stmts::Chain { st: begun, first: true, rest: None };
                let is_string = name == "String"@ || name == "Str"@;
                lemma_literal_arms(ch, arms@, 0, scrut, is_string, name);
                let written = stmts::literal_arms_c(
                    ch,
                    arms@,
                    0,
                    scrut,
                    is_string,
                    name,
                );
                if written is Ok {
                    lemma_chain_end(written->Ok_0, arms@);
                }
            }
            // On a tag.
            lemma_bound(st, value, known, "e"@);
            if stmts::bound_c(st, value, known, "e"@) is Ok {
                let (begun, scrut) = stmts::bound_c(st, value, known, "e"@)->Ok_0;
                let ch = stmts::Chain { st: begun, first: true, rest: None };
                lemma_tagged_arms(ch, arms@, 0, scrut, name);
                let written = stmts::tagged_arms_c(ch, arms@, 0, scrut, name);
                if written is Ok {
                    lemma_chain_end(written->Ok_0, arms@);
                }
            }
        }
    }
}

proof fn lemma_for(st: model::State, s: Spanned<Stmt>)
    requires
        !in_stmt(s),
    ensures
        stmts::for_each_c(st, s) is Ok ==> stmts::for_each_c(st, s)->Ok_0.tls == st.tls,
    decreases s, 1int,
{
    if let Stmt::ForStmt { iterator, iterable, body } = s.node {
        if let Some(ast::Type::Named { name, args }) = exprs::receiver_type(st.ctx, iterable) {
            let ty = model::type_c(st.ctx.decls, ast::Type::Named { name, args });
            lemma_bound(st, iterable, ty, "it"@);
            let bound = stmts::bound_c(st, iterable, ty, "it"@);
            if bound is Ok {
                let over = stmts::loop_over(name, args, bound->Ok_0.1);
                if over is Ok && model::type_c(st.ctx.decls, over->Ok_0.0) is Ok {
                    let t = model::type_c(st.ctx.decls, over->Ok_0.0)->Ok_0;
                    let index = model::temp_name("i"@, bound->Ok_0.0.temps);
                    let begun = model::with_temp(bound->Ok_0.0);
                    let limit = model::temp_name("n"@, begun.temps);
                    let head = stmts::loop_head_c(
                        begun,
                        index,
                        limit,
                        over->Ok_0.1,
                        stmts::read_ahead(iterable, over->Ok_0.2),
                    );
                    let inner = model::emitted(
                        model::with_var(stmts::inside(head), iterator@, over->Ok_0.0),
                        t + " "@ + iterator@ + " = "@ + bound->Ok_0.1 + ".data["@ + index + "];"@,
                    );
                    lemma_stmts(inner, body.statements@, 0);
                }
            }
        }
    }
}

proof fn lemma_range_for(st: model::State, s: Spanned<Stmt>)
    requires
        !in_stmt(s),
    ensures
        stmts::range_for_c(st, s) is Ok ==> stmts::range_for_c(st, s)->Ok_0.tls == st.tls,
    decreases s, 1int,
{
    if let Stmt::ForStmt { iterator, iterable, body } = s.node {
        if let Expr::RangeExpr { start, end, inclusive } = iterable.node {
            assert(!in_expr(iterable));
            lemma_expr(st.ctx, *start);
            lemma_expr(st.ctx, *end);
            if exprs::expr_c(st.ctx, *start) is Ok && exprs::expr_c(st.ctx, *end) is Ok {
                let from = exprs::expr_c(st.ctx, *start)->Ok_0;
                let to = exprs::expr_c(st.ctx, *end)->Ok_0;
                let temp = model::temp_name("rg_end"@, st.temps);
                let op = if inclusive {
                    "<="@
                } else {
                    "<"@
                };
                let it = iterator@;
                let begun = model::noted(model::noted(model::with_temp(st), from), to);
                let block = model::indented(model::emitted(begun, "{"@));
                let looped = model::emitted(
                    model::emitted(block, "int32_t "@ + temp + " = "@ + to.text + ";"@),
                    "for (int32_t "@ + it + " = "@ + from.text + "; "@ + it + " "@ + op + " "@
                        + temp + "; "@ + it + "++) {"@,
                );
                lemma_stmts(
                    model::with_var(stmts::inside(looped), it, model::i32_ty()),
                    body.statements@,
                    0,
                );
            }
        }
    }
}

proof fn lemma_if(st: model::State, s: Spanned<Stmt>)
    requires
        !in_stmt(s),
    ensures
        stmts::if_c(st, s) is Ok ==> stmts::if_c(st, s)->Ok_0.tls == st.tls,
    decreases s, 1int,
{
    if let Stmt::IfStmt { condition, then_block, else_branch } = s.node {
        lemma_expr(st.ctx, condition);
        let first = stmts::line_c(st, "if ("@, exprs::expr_c(st.ctx, condition), ") {"@);
        if first is Ok {
            let head = first->Ok_0;
            lemma_stmts(model::indented(head), then_block.statements@, 0);
            let done = stmts::body_c(model::indented(head), then_block.statements@, head.pad);
            if done is Ok {
                let other = model::emitted(done->Ok_0, "} else {"@);
                match else_branch {
                    Some(ElseBranch::Block(block)) => {
                        lemma_stmts(model::indented(other), block.statements@, 0);
                    },
                    Some(ElseBranch::IfStmt(inner)) => {
                        lemma_stmt(model::indented(other), *inner);
                    },
                    None => {},
                }
            }
        }
    }
}

proof fn lemma_let(st: model::State, name: Seq<char>, ty: ast::Type, value: Spanned<Expr>)
    requires
        !in_expr(value),
    ensures
        stmts::let_c(st, name, ty, value) is Ok ==> stmts::let_c(st, name, ty, value)->Ok_0.tls
            == st.tls,
{
    match value.node {
        Expr::ArrayLiteral { elements } => {
            lemma_exprs(st.ctx, elements@, elements@.len() as int);
        },
        _ => {
            lemma_expr(st.ctx, value);
            lemma_constructor(st.ctx, ty, value);
        },
    }
}

proof fn lemma_stmt(st: model::State, s: Spanned<Stmt>)
    requires
        !in_stmt(s),
    ensures
        stmts::stmt_c(st, s) is Ok ==> stmts::stmt_c(st, s)->Ok_0.tls == st.tls,
    decreases s, 3int,
{
    match s.node {
        Stmt::LetStmt { name, ty, value, .. } => lemma_let(st, name@, ty@, value),
        Stmt::ReturnStmt { value } => {
            if let Some(e) = value {
                lemma_typed(st.ctx, st.ret, e);
            }
        },
        Stmt::IfStmt { .. } => lemma_if(st, s),
        Stmt::WhileStmt { condition, body } => {
            lemma_expr(st.ctx, condition);
            let first = stmts::line_c(st, "while ("@, exprs::expr_c(st.ctx, condition), ") {"@);
            if first is Ok {
                lemma_stmts(stmts::inside(first->Ok_0), body.statements@, 0);
            }
        },
        Stmt::ForStmt { .. } => {
            lemma_for(st, s);
            lemma_range_for(st, s);
        },
        Stmt::ExprStmt { expr } => lemma_expr(st.ctx, expr),
        Stmt::MatchStmt { .. } => lemma_match(st, s),
        _ => {},
    }
}

// ---------------------------------------------------------------------------
// Programs
// ---------------------------------------------------------------------------

pub(crate) proof fn lemma_params(st: model::State, params: Seq<Param>, i: int)
    ensures
        stmts::with_params(st, params, i).tls == st.tls,
    decreases params.len() - i,
{
    if 0 <= i < params.len() {
        lemma_params(model::with_var(st, params[i].name@, params[i].ty@), params, i + 1);
    }
}

proof fn lemma_fn(st: model::State, item: Item, name: Seq<char>)
    requires
        !in_fn(item),
    ensures
        stmts::fn_c(st, item, name) is Ok ==> stmts::fn_c(st, item, name)->Ok_0.tls == st.tls,
{
    if let Item::FnDecl { params, return_type, body, .. } = item {
        let sig = stmts::signature_c(st.ctx.decls, name, params@, return_type@);
        if sig is Ok {
            let head = model::emitted(st, sig->Ok_0 + " {"@);
            let known = stmts::with_params(stmts::inside(head), params@, 0);
            lemma_params(stmts::inside(head), params@, 0);
            let begun = if stmts::is_main(name, params@) {
                model::emitted(
                    model::emitted(known, "__xlang_argc_g = argc;"@),
                    "__xlang_argv_g = argv;"@,
                )
            } else {
                known
            };
            let inner = stmts::in_function(
                begun,
                Some(return_type@),
                model::takes_pointer(params@),
            );
            lemma_stmts(inner, body.statements@, 0);
        }
    }
}

proof fn lemma_methods(
    st: model::State,
    target: Seq<char>,
    methods: Seq<Spanned<Item>>,
    i: int,
)
    requires
        !in_methods(methods, i),
    ensures
        c::methods_c(st, target, methods, i) is Ok ==> c::methods_c(
            st,
            target,
            methods,
            i,
        )->Ok_0.tls == st.tls,
    decreases methods.len() - i,
{
    if 0 <= i < methods.len() {
        match methods[i].node {
            Item::FnDecl { name, .. } => {
                let called = model::method_name(target, name@);
                lemma_fn(st, methods[i].node, called);
                let step = stmts::then_line(stmts::fn_c(st, methods[i].node, called), ""@);
                if step is Ok {
                    lemma_methods(step->Ok_0, target, methods, i + 1);
                }
            },
            _ => lemma_methods(st, target, methods, i + 1),
        }
    }
}

proof fn lemma_functions(st: model::State, items: Seq<Spanned<Item>>, i: int)
    requires
        !in_items(items, i),
    ensures
        c::functions_c(st, items, i) is Ok ==> c::functions_c(st, items, i)->Ok_0.tls == st.tls,
    decreases items.len() - i,
{
    if 0 <= i < items.len() {
        match items[i].node {
            Item::FnDecl { name, .. } => {
                lemma_fn(st, items[i].node, name@);
                let step = stmts::then_line(stmts::fn_c(st, items[i].node, name@), ""@);
                if step is Ok {
                    lemma_functions(step->Ok_0, items, i + 1);
                }
            },
            Item::ImplDecl { target, methods } => {
                let owner = model::owner_name(st.ctx.decls, target@);
                lemma_methods(st, owner, methods@, 0);
                let step = c::methods_c(st, owner, methods@, 0);
                if step is Ok {
                    lemma_functions(step->Ok_0, items, i + 1);
                }
            },
            _ => lemma_functions(st, items, i + 1),
        }
    }
}

proof fn lemma_method_prototypes(
    st: model::State,
    target: Seq<char>,
    methods: Seq<Spanned<Item>>,
    i: int,
)
    ensures
        c::method_prototypes_c(st, target, methods, i) is Ok ==> c::method_prototypes_c(
            st,
            target,
            methods,
            i,
        )->Ok_0.tls == st.tls,
    decreases methods.len() - i,
{
    if 0 <= i < methods.len() {
        let step = match methods[i].node {
            Item::FnDecl { name, .. } => stmts::prototype_c(
                st,
                methods[i].node,
                model::method_name(target, name@),
            ),
            _ => Ok(st),
        };
        if step is Ok {
            lemma_method_prototypes(step->Ok_0, target, methods, i + 1);
        }
    }
}

pub(crate) proof fn lemma_prototypes(st: model::State, items: Seq<Spanned<Item>>, i: int)
    ensures
        c::prototypes_c(st, items, i) is Ok ==> c::prototypes_c(st, items, i)->Ok_0.tls == st.tls,
    decreases items.len() - i,
{
    if 0 <= i < items.len() {
        let step = match items[i].node {
            Item::FnDecl { name, .. } => stmts::prototype_c(st, items[i].node, name@),
            Item::ImplDecl { target, methods } => c::method_prototypes_c(
                st,
                model::owner_name(st.ctx.decls, target@),
                methods@,
                0,
            ),
            _ => Ok(st),
        };
        if let Item::ImplDecl { target, methods } = items[i].node {
            lemma_method_prototypes(st, model::owner_name(st.ctx.decls, target@), methods@, 0);
        }
        if step is Ok {
            lemma_prototypes(step->Ok_0, items, i + 1);
        }
    }
}

/// A program that calls no TLS builtin stays free of TLS, and with it of the
/// library that it needs.
pub proof fn law_no_tls_call_no_tls(types: Map<Span, ast::Type>, items: Seq<Spanned<Item>>)
    requires
        !in_items(items, 0),
        c::written(model::fresh(types), items) is Ok,
    ensures
        !c::written(model::fresh(types), items)->Ok_0.tls,
{
    let st = model::fresh(types);
    let known = model::with_decls(st, model::with_program(st.ctx.decls, items));
    let defs = typedefs::program_defs(known.ctx.decls, items)->Ok_0;
    let a = model::with_lines(known, runtime::preamble(), 0);
    let b = model::with_lines(a, defs, 0);
    model::lemma_with_lines(known, runtime::preamble(), 0);
    model::lemma_with_lines(a, defs, 0);
    let begun = c::spaced(b);
    lemma_prototypes(begun, items, 0);
    let head = c::prototypes_c(begun, items, 0)->Ok_0;
    lemma_functions(model::emitted(head, ""@), items, 0);
}

} // verus!
