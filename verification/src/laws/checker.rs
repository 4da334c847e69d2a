//! The checker: scopes, mutability, types, and which programs are accepted.

use vstd::prelude::*;

use crate::aliases;
use crate::ast::{Block, ElseBranch, Expr, FieldInit, Item, MatchArm, Param, Program, Stmt};
use crate::ast;
use crate::codegen::model;
use crate::declared;
use crate::declared::Declared;
use crate::error;
use crate::scopes;
use crate::source::Spanned;
use crate::typecheck;
use crate::values;

verus! {

// ---------------------------------------------------------------------------
// Scopes
// ---------------------------------------------------------------------------

/// Whether two stacks of scopes differ at most in the innermost scope.
pub open spec fn outer_same(a: values::Vars, b: values::Vars) -> bool {
    a.len() == b.len() && forall|i: int|
        #![trigger a[i]]
        #![trigger b[i]]
        0 <= i < a.len() - 1 ==> a[i] == b[i]
}

proof fn lemma_with_names(vars: values::Vars, names: Seq<String>, i: int)
    ensures
        outer_same(vars, typecheck::with_names(vars, names, i)),
    decreases names.len() - i,
{
    if 0 <= i < names.len() {
        lemma_with_names(scopes::declared(vars, names[i]@, typecheck::fixed(None)), names, i + 1);
    }
}

/// A statement declares only in the innermost scope: the scopes around it are the
/// same after it as before.
pub proof fn law_statement_keeps_outer_scopes(fr: typecheck::Frame, vars: values::Vars, s: Spanned<Stmt>)
    ensures
        typecheck::stmt_verdict(fr, vars, s) is Ok ==> outer_same(
            vars,
            typecheck::stmt_verdict(fr, vars, s)->Ok_0,
        ),
    decreases s, 0int,
{
    match s.node {
        Stmt::IfStmt { then_block, else_branch, .. } => {
            law_block_leaves_no_trace(fr, vars, then_block);
            match else_branch {
                Some(ElseBranch::Block(block)) => law_block_leaves_no_trace(fr, vars, block),
                Some(ElseBranch::IfStmt(inner)) => law_statement_keeps_outer_scopes(fr, vars, *inner),
                None => {},
            }
        },
        Stmt::ForStmt { iterator, iterable, body } => {
            let inner = scopes::declared(
                scopes::entered(vars),
                iterator@,
                typecheck::fixed(typecheck::loop_type(iterable)),
            );
            lemma_stmts(fr, inner, body.statements@, 0);
            if typecheck::stmts_verdict(fr, inner, body.statements@, 0) is Ok {
                let after = typecheck::stmts_verdict(fr, inner, body.statements@, 0)->Ok_0;
                assert(scopes::left(after) =~= vars);
            }
        },
        Stmt::WhileStmt { body, .. } => law_block_leaves_no_trace(fr, vars, body),
        Stmt::MatchStmt { arms, .. } => lemma_arms(fr, vars, arms@, 0),
        _ => {},
    }
}

proof fn lemma_stmts(fr: typecheck::Frame, vars: values::Vars, ss: Seq<Spanned<Stmt>>, i: int)
    ensures
        typecheck::stmts_verdict(fr, vars, ss, i) is Ok ==> outer_same(
            vars,
            typecheck::stmts_verdict(fr, vars, ss, i)->Ok_0,
        ),
    decreases ss, ss.len() - i,
{
    if 0 <= i < ss.len() {
        law_statement_keeps_outer_scopes(fr, vars, ss[i]);
        if typecheck::stmt_verdict(fr, vars, ss[i]) is Ok {
            lemma_stmts(fr, typecheck::stmt_verdict(fr, vars, ss[i])->Ok_0, ss, i + 1);
        }
    }
}

proof fn lemma_arms(fr: typecheck::Frame, vars: values::Vars, arms: Seq<MatchArm>, i: int)
    ensures
        typecheck::arms_verdict(fr, vars, arms, i) is Ok ==> typecheck::arms_verdict(
            fr,
            vars,
            arms,
            i,
        )->Ok_0 == vars,
    decreases arms, arms.len() - i,
{
    if 0 <= i < arms.len() {
        let names = typecheck::bound_names(arms[i].pattern);
        let inner = typecheck::with_names(scopes::entered(vars), names, 0);
        let ss = arms[i].body.statements@;
        lemma_with_names(scopes::entered(vars), names, 0);
        lemma_stmts(fr, inner, ss, 0);
        if typecheck::stmts_verdict(fr, inner, ss, 0) is Ok {
            let after = typecheck::stmts_verdict(fr, inner, ss, 0)->Ok_0;
            assert(scopes::left(after) =~= vars);
            lemma_arms(fr, vars, arms, i + 1);
        }
    }
}

/// What a block declares is gone after it: the scopes are exactly those before it.
pub proof fn law_block_leaves_no_trace(fr: typecheck::Frame, vars: values::Vars, block: Block)
    ensures
        typecheck::block_verdict(fr, vars, block) is Ok ==> typecheck::block_verdict(fr, vars, block)->Ok_0
            == vars,
    decreases block, 0int,
{
    let inner = scopes::entered(vars);
    lemma_stmts(fr, inner, block.statements@, 0);
    if typecheck::stmts_verdict(fr, inner, block.statements@, 0) is Ok {
        let after = typecheck::stmts_verdict(fr, inner, block.statements@, 0)->Ok_0;
        assert(scopes::left(after) =~= vars);
    }
}

/// Whether the statement behind each `else` of an `if` is an `if` itself, as the
/// grammar has it.
pub open spec fn well_nested(s: Spanned<Stmt>) -> bool
    decreases s,
{
    match s.node {
        Stmt::IfStmt { else_branch: Some(ElseBranch::IfStmt(inner)), .. } => inner.node is IfStmt
            && well_nested(*inner),
        _ => true,
    }
}

/// Only a `let` declares: after any other statement the scopes are exactly those
/// before it.
pub proof fn law_only_let_declares(fr: typecheck::Frame, vars: values::Vars, s: Spanned<Stmt>)
    requires
        !(s.node is LetStmt),
        well_nested(s),
        typecheck::stmt_verdict(fr, vars, s) is Ok,
    ensures
        typecheck::stmt_verdict(fr, vars, s)->Ok_0 == vars,
    decreases s,
{
    match s.node {
        Stmt::IfStmt { then_block, else_branch, .. } => {
            law_block_leaves_no_trace(fr, vars, then_block);
            match else_branch {
                Some(ElseBranch::Block(block)) => law_block_leaves_no_trace(fr, vars, block),
                Some(ElseBranch::IfStmt(inner)) => law_only_let_declares(fr, vars, *inner),
                None => {},
            }
        },
        Stmt::ForStmt { iterator, iterable, body } => {
            let inner = scopes::declared(
                scopes::entered(vars),
                iterator@,
                typecheck::fixed(typecheck::loop_type(iterable)),
            );
            lemma_stmts(fr, inner, body.statements@, 0);
            let after = typecheck::stmts_verdict(fr, inner, body.statements@, 0)->Ok_0;
            assert(scopes::left(after) =~= vars);
        },
        Stmt::WhileStmt { body, .. } => law_block_leaves_no_trace(fr, vars, body),
        Stmt::MatchStmt { arms, .. } => lemma_arms(fr, vars, arms@, 0),
        _ => {},
    }
}

// ---------------------------------------------------------------------------
// Types
// ---------------------------------------------------------------------------

/// The condition of an `if` or `while` that is accepted is a truth value, wherever
/// its type can be read off it.
pub proof fn law_conditions_are_bool(fr: typecheck::Frame, vars: values::Vars, s: Spanned<Stmt>)
    requires
        typecheck::stmt_verdict(fr, vars, s) is Ok,
    ensures
        s.node matches Stmt::IfStmt { condition, .. } ==> (values::reading(
            fr.known,
            vars,
            condition,
        ) matches Some(r) ==> r.ty == values::plain("bool"@)),
        s.node matches Stmt::WhileStmt { condition, .. } ==> (values::reading(
            fr.known,
            vars,
            condition,
        ) matches Some(r) ==> r.ty == values::plain("bool"@)),
{
}

/// There are no implicit casts: what is accepted as the value of a declaration or
/// of a `return` has the type that is wanted there, or is made of literals of its
/// family, wherever both are built-in types and that of the value can be read off
/// it.
pub proof fn law_no_implicit_casts(
    fr: typecheck::Frame,
    vars: values::Vars,
    s: Spanned<Stmt>,
    r: values::Reading,
)
    requires
        typecheck::stmt_verdict(fr, vars, s) is Ok,
        values::built_in(r.ty),
    ensures
        s.node matches Stmt::LetStmt { ty, value, .. } ==> values::reading(fr.known, vars, value)
            == Some(r) && values::built_in(aliases::meant(fr.known.aliases, ty@)) ==> values::fits(
            r,
            aliases::meant(fr.known.aliases, ty@),
        ),
        s.node matches Stmt::ReturnStmt { value: Some(value) } ==> values::reading(
            fr.known,
            vars,
            value,
        ) == Some(r) && fr.ret is Some && values::built_in(aliases::meant(fr.known.aliases, fr.ret->0))
            ==> values::fits(r, aliases::meant(fr.known.aliases, fr.ret->0)),
{
}

/// Nor are there any in calls: each argument of a call that is accepted may stand
/// for its parameter.
pub proof fn law_arguments_fit(
    fr: typecheck::Frame,
    vars: values::Vars,
    e: Spanned<Expr>,
    args: Seq<Spanned<Expr>>,
    to: values::Called,
    i: int,
)
    requires
        typecheck::expr_verdict(fr, vars, e) is Ok,
        e.node matches Expr::CallExpr { callee, args: v } && v@ == args && values::called(
            fr.known,
            vars,
            *callee,
        ) == Some(to),
        0 <= i < args.len(),
        to.from + i < to.params.len(),
    ensures
        values::cast_verdict(fr.known, vars, Some(to.params[to.from + i].ty@), args[i]) is Ok,
{
    lemma_each_passed(fr, vars, to.params, to.from, args, 0, i);
}

proof fn lemma_each_passed(
    fr: typecheck::Frame,
    vars: values::Vars,
    params: Seq<Param>,
    from: int,
    args: Seq<Spanned<Expr>>,
    k: int,
    i: int,
)
    requires
        0 <= k <= i < args.len(),
        from + i < params.len(),
        values::passed_verdict(fr.known, vars, params, from, args, k) is Ok,
    ensures
        values::cast_verdict(fr.known, vars, Some(params[from + i].ty@), args[i]) is Ok,
    decreases i - k,
{
    if k < i {
        lemma_each_passed(fr, vars, params, from, args, k + 1, i);
    }
}

/// Nor in struct literals: each value in one that is accepted may stand for its
/// field.
pub proof fn law_fields_fit(
    fr: typecheck::Frame,
    vars: values::Vars,
    e: Spanned<Expr>,
    name: Seq<char>,
    fields: Seq<FieldInit>,
    i: int,
)
    requires
        typecheck::expr_verdict(fr, vars, e) is Ok,
        e.node matches Expr::StructLiteral { name: n, fields: v } && aliases::meant_name(
            fr.known.aliases,
            n@,
        ) == name && v@ == fields,
        0 <= i < fields.len(),
    ensures
        values::cast_verdict(
            fr.known,
            vars,
            declared::field_type(fr.known.items, name, fields[i].name@, 0),
            fields[i].value,
        ) is Ok,
{
    lemma_each_filled(fr, vars, name, fields, 0, i);
}

proof fn lemma_each_filled(
    fr: typecheck::Frame,
    vars: values::Vars,
    name: Seq<char>,
    fields: Seq<FieldInit>,
    k: int,
    i: int,
)
    requires
        0 <= k <= i < fields.len(),
        values::filled_verdict(fr.known, vars, name, fields, k) is Ok,
    ensures
        values::cast_verdict(
            fr.known,
            vars,
            declared::field_type(fr.known.items, name, fields[i].name@, 0),
            fields[i].value,
        ) is Ok,
    decreases i - k,
{
    if k < i {
        lemma_each_filled(fr, vars, name, fields, k + 1, i);
    }
}

/// An option or result is never unwrapped on the way: a variable that holds one
/// cannot be the value of a declaration of another built-in type.
pub proof fn law_options_are_not_unwrapped(
    fr: typecheck::Frame,
    vars: values::Vars,
    s: Spanned<Stmt>,
    held: ast::Type,
    wanted: ast::Type,
    value: Spanned<Expr>,
    name: Seq<char>,
)
    requires
        s.node matches Stmt::LetStmt { ty, value: v, .. } && aliases::meant(
            fr.known.aliases,
            ty@,
        ) == wanted && v == value,
        value.node matches Expr::Identifier { name: n } && n@ == name,
        values::declared_type(vars, name) is Some,
        aliases::meant(fr.known.aliases, values::declared_type(vars, name)->0) == held,
        held matches ast::Type::Named { name: h, args } && args.len() > 0 && (h == "Option"@ || h
            == "Result"@),
        values::built_in(wanted),
        wanted != held,
    ensures
        typecheck::stmt_verdict(fr, vars, s) == Err::<values::Vars, error::Fault>(
            error::Fault::Type(values::cast_text(held, wanted)),
        ),
{
    assert(typecheck::expr_verdict(fr, vars, value) is Ok);
    assert(!values::scalar(held));
}

// ---------------------------------------------------------------------------
// Mutability
// ---------------------------------------------------------------------------

/// A variable may be assigned to exactly where its declaration says `mut`.
pub proof fn law_assignment_needs_mut(
    vars: values::Vars,
    name: Seq<char>,
    shown: Seq<char>,
    seen: values::Seen,
)
    requires
        vars.len() > 0,
    ensures
        typecheck::variable_verdict(
            typecheck::mutability(scopes::declared(vars, name, seen), name),
            name,
            shown,
        ) is Ok <==> seen.mutable,
{
}

/// Whether a variable has the same type, and is mutable where it was.
pub open spec fn as_free(a: values::Seen, b: values::Seen) -> bool {
    a.ty == b.ty && (a.mutable ==> b.mutable)
}

/// Whether the same variables are declared with the same types, and those that are
/// mutable in `a` are so in `b`.
pub open spec fn looser(a: values::Vars, b: values::Vars) -> bool {
    a.len() == b.len() && forall|i: int|
        0 <= i < a.len() ==> (#[trigger] a[i]).dom() == b[i].dom() && forall|n: Seq<char>|
            a[i].dom().contains(n) ==> as_free(a[i][n], #[trigger] b[i][n])
}

proof fn lemma_found(a: values::Vars, b: values::Vars, name: Seq<char>)
    requires
        looser(a, b),
    ensures
        scopes::found(a, name) is Some == scopes::found(b, name) is Some,
        scopes::found(a, name) is Some ==> as_free(
            scopes::found(a, name)->0,
            scopes::found(b, name)->0,
        ),
    decreases a.len(),
{
    if a.len() > 0 {
        let k = a.len() - 1;
        assert(a[k].dom() == b[k].dom());
        if !a.last().dom().contains(name) {
            assert forall|i: int| 0 <= i < a.drop_last().len() implies (
            #[trigger] a.drop_last()[i]).dom() == b.drop_last()[i].dom() && forall|n: Seq<char>|
                a.drop_last()[i].dom().contains(n) ==> as_free(
                    a.drop_last()[i][n],
                    #[trigger] b.drop_last()[i][n],
                ) by {
                assert(a.drop_last()[i] == a[i]);
                assert(b.drop_last()[i] == b[i]);
            }
            lemma_found(a.drop_last(), b.drop_last(), name);
        }
    }
}

proof fn lemma_target(a: values::Vars, b: values::Vars, target: Spanned<Expr>)
    requires
        looser(a, b),
        typecheck::target_verdict(a, target) is Ok,
    ensures
        typecheck::target_verdict(b, target) is Ok,
    decreases target,
{
    match target.node {
        Expr::Identifier { name } => lemma_found(a, b, name@),
        Expr::FieldAccessExpr { object, .. } => lemma_target(a, b, *object),
        _ => {},
    }
}

proof fn lemma_reading(fr: typecheck::Frame, a: values::Vars, b: values::Vars, e: Spanned<Expr>)
    requires
        looser(a, b),
    ensures
        values::reading(fr.known, a, e) == values::reading(fr.known, b, e),
    decreases e,
{
    match e.node {
        Expr::Identifier { name } => lemma_found(a, b, name@),
        Expr::BinaryExpr { left, right, .. } => {
            lemma_reading(fr, a, b, *left);
            lemma_reading(fr, a, b, *right);
        },
        Expr::UnaryExpr { value, .. } => lemma_reading(fr, a, b, *value),
        Expr::CallExpr { callee, .. } => {
            if let Expr::FieldAccessExpr { object, .. } = callee.node {
                lemma_reading(fr, a, b, *object);
            }
        },
        Expr::FieldAccessExpr { object, .. } => lemma_reading(fr, a, b, *object),
        Expr::IndexExpr { object, .. } => lemma_reading(fr, a, b, *object),
        _ => {},
    }
}

proof fn lemma_passed(
    fr: typecheck::Frame,
    a: values::Vars,
    b: values::Vars,
    params: Seq<Param>,
    from: int,
    args: Seq<Spanned<Expr>>,
    i: int,
)
    requires
        looser(a, b),
    ensures
        values::passed_verdict(fr.known, a, params, from, args, i) == values::passed_verdict(
            fr.known,
            b,
            params,
            from,
            args,
            i,
        ),
    decreases args.len() - i,
{
    if 0 <= i < args.len() {
        lemma_reading(fr, a, b, args[i]);
        lemma_passed(fr, a, b, params, from, args, i + 1);
    }
}

proof fn lemma_filled(
    fr: typecheck::Frame,
    a: values::Vars,
    b: values::Vars,
    name: Seq<char>,
    fields: Seq<FieldInit>,
    i: int,
)
    requires
        looser(a, b),
    ensures
        values::filled_verdict(fr.known, a, name, fields, i) == values::filled_verdict(
            fr.known,
            b,
            name,
            fields,
            i,
        ),
    decreases fields.len() - i,
{
    if 0 <= i < fields.len() {
        lemma_reading(fr, a, b, fields[i].value);
        lemma_filled(fr, a, b, name, fields, i + 1);
    }
}

proof fn lemma_expr(fr: typecheck::Frame, a: values::Vars, b: values::Vars, e: Spanned<Expr>)
    requires
        looser(a, b),
        typecheck::expr_verdict(fr, a, e) is Ok,
    ensures
        typecheck::expr_verdict(fr, b, e) is Ok,
    decreases e, 0int,
{
    match e.node {
        Expr::ArrayLiteral { elements } => lemma_exprs(fr, a, b, elements@, 0),
        Expr::BinaryExpr { left, right, .. } => {
            lemma_expr(fr, a, b, *left);
            lemma_expr(fr, a, b, *right);
        },
        Expr::UnaryExpr { value, .. } => lemma_expr(fr, a, b, *value),
        Expr::AssignmentExpr { target, value } => {
            lemma_target(a, b, *target);
            lemma_expr(fr, a, b, *value);
            lemma_reading(fr, a, b, *value);
            match target.node {
                Expr::Identifier { name } => lemma_found(a, b, name@),
                Expr::FieldAccessExpr { object, .. } => lemma_reading(fr, a, b, *object),
                _ => {},
            }
        },
        Expr::CallExpr { callee, args } => {
            lemma_expr(fr, a, b, *callee);
            lemma_exprs(fr, a, b, args@, 0);
            if let Expr::FieldAccessExpr { object, .. } = callee.node {
                lemma_reading(fr, a, b, *object);
            }
            if let Some(c) = values::called(fr.known, a, *callee) {
                lemma_passed(fr, a, b, c.params, c.from, args@, 0);
            }
        },
        Expr::FieldAccessExpr { object, .. } => lemma_expr(fr, a, b, *object),
        Expr::StructLiteral { name, fields } => {
            lemma_inits(fr, a, b, fields@, 0);
            lemma_filled(
                fr,
                a,
                b,
                aliases::meant_name(fr.known.aliases, name@),
                fields@,
                0,
            );
        },
        Expr::IndexExpr { object, index } => {
            lemma_expr(fr, a, b, *object);
            lemma_expr(fr, a, b, *index);
        },
        Expr::RangeExpr { start, end, .. } => {
            lemma_expr(fr, a, b, *start);
            lemma_expr(fr, a, b, *end);
        },
        _ => {},
    }
}

proof fn lemma_exprs(fr: typecheck::Frame, a: values::Vars, b: values::Vars, es: Seq<Spanned<Expr>>, i: int)
    requires
        looser(a, b),
        typecheck::exprs_verdict(fr, a, es, i) is Ok,
    ensures
        typecheck::exprs_verdict(fr, b, es, i) is Ok,
    decreases es, es.len() - i,
{
    if 0 <= i < es.len() {
        lemma_expr(fr, a, b, es[i]);
        lemma_exprs(fr, a, b, es, i + 1);
    }
}

proof fn lemma_inits(fr: typecheck::Frame, a: values::Vars, b: values::Vars, fields: Seq<FieldInit>, i: int)
    requires
        looser(a, b),
        typecheck::inits_verdict(fr, a, fields, i) is Ok,
    ensures
        typecheck::inits_verdict(fr, b, fields, i) is Ok,
    decreases fields, fields.len() - i,
{
    if 0 <= i < fields.len() {
        lemma_expr(fr, a, b, fields[i].value);
        lemma_inits(fr, a, b, fields, i + 1);
    }
}

proof fn lemma_declared(
    a: values::Vars,
    b: values::Vars,
    name: Seq<char>,
    m: values::Seen,
    m2: values::Seen,
)
    requires
        looser(a, b),
        as_free(m, m2),
    ensures
        looser(scopes::declared(a, name, m), scopes::declared(b, name, m2)),
{
    if a.len() > 0 {
        let x = scopes::declared(a, name, m);
        let y = scopes::declared(b, name, m2);
        assert forall|i: int| 0 <= i < x.len() implies (#[trigger] x[i]).dom() == y[i].dom()
            && forall|n: Seq<char>| x[i].dom().contains(n) ==> as_free(x[i][n], #[trigger] y[i][n]) by {
            assert(a[i].dom() == b[i].dom());
            if i < x.len() - 1 {
                assert(x[i] == a[i] && y[i] == b[i]);
            } else {
                assert(x[i].dom() =~= y[i].dom());
                assert forall|n: Seq<char>| x[i].dom().contains(n) implies as_free(x[i][n], #[trigger] y[i][n]) by {
                    if n != name {
                        assert(as_free(a[i][n], b[i][n]));
                    }
                }
            }
        }
    }
}

proof fn lemma_entered(a: values::Vars, b: values::Vars)
    requires
        looser(a, b),
    ensures
        looser(scopes::entered(a), scopes::entered(b)),
{
    let x = scopes::entered(a);
    let y = scopes::entered(b);
    assert forall|i: int| 0 <= i < x.len() implies (#[trigger] x[i]).dom() == y[i].dom()
        && forall|n: Seq<char>| x[i].dom().contains(n) ==> as_free(x[i][n], #[trigger] y[i][n]) by {
        if i < a.len() {
            assert(a[i].dom() == b[i].dom());
            assert(x[i] == a[i] && y[i] == b[i]);
        }
    }
}

proof fn lemma_left(a: values::Vars, b: values::Vars)
    requires
        looser(a, b),
    ensures
        looser(scopes::left(a), scopes::left(b)),
{
    let x = scopes::left(a);
    let y = scopes::left(b);
    assert forall|i: int| 0 <= i < x.len() implies (#[trigger] x[i]).dom() == y[i].dom()
        && forall|n: Seq<char>| x[i].dom().contains(n) ==> as_free(x[i][n], #[trigger] y[i][n]) by {
        assert(a[i].dom() == b[i].dom());
        assert(x[i] == a[i] && y[i] == b[i]);
    }
}

proof fn lemma_names_looser(a: values::Vars, b: values::Vars, names: Seq<String>, i: int)
    requires
        looser(a, b),
    ensures
        looser(typecheck::with_names(a, names, i), typecheck::with_names(b, names, i)),
    decreases names.len() - i,
{
    if 0 <= i < names.len() {
        let seen = typecheck::fixed(None);
        lemma_declared(a, b, names[i]@, seen, seen);
        lemma_names_looser(
            scopes::declared(a, names[i]@, seen),
            scopes::declared(b, names[i]@, seen),
            names,
            i + 1,
        );
    }
}

/// More mutable variables never get a statement refused: what is accepted stays
/// accepted where the same variables are declared and those that were mutable
/// still are.
pub proof fn law_mutability_never_hurts(fr: typecheck::Frame, a: values::Vars, b: values::Vars, s: Spanned<Stmt>)
    requires
        looser(a, b),
        typecheck::stmt_verdict(fr, a, s) is Ok,
    ensures
        typecheck::stmt_verdict(fr, b, s) is Ok,
        looser(typecheck::stmt_verdict(fr, a, s)->Ok_0, typecheck::stmt_verdict(fr, b, s)->Ok_0),
    decreases s, 0int,
{
    match s.node {
        Stmt::LetStmt { mutable, name, ty, value } => {
            let seen = values::Seen { mutable, ty: Some(ty@) };
            lemma_expr(fr, a, b, value);
            lemma_reading(fr, a, b, value);
            lemma_declared(a, b, name@, seen, seen);
        },
        Stmt::IfStmt { condition, then_block, else_branch } => {
            lemma_expr(fr, a, b, condition);
            lemma_reading(fr, a, b, condition);
            lemma_block_looser(fr, a, b, then_block);
            let a1 = typecheck::block_verdict(fr, a, then_block)->Ok_0;
            let b1 = typecheck::block_verdict(fr, b, then_block)->Ok_0;
            match else_branch {
                Some(ElseBranch::Block(block)) => lemma_block_looser(fr, a1, b1, block),
                Some(ElseBranch::IfStmt(inner)) => law_mutability_never_hurts(fr, a1, b1, *inner),
                None => {},
            }
        },
        Stmt::ForStmt { iterator, iterable, body } => {
            let seen = typecheck::fixed(typecheck::loop_type(iterable));
            lemma_expr(fr, a, b, iterable);
            lemma_entered(a, b);
            lemma_declared(
                scopes::entered(a),
                scopes::entered(b),
                iterator@,
                seen,
                seen,
            );
            let a1 = scopes::declared(scopes::entered(a), iterator@, seen);
            let b1 = scopes::declared(scopes::entered(b), iterator@, seen);
            lemma_stmts_looser(fr, a1, b1, body.statements@, 0);
            lemma_left(
                typecheck::stmts_verdict(fr, a1, body.statements@, 0)->Ok_0,
                typecheck::stmts_verdict(fr, b1, body.statements@, 0)->Ok_0,
            );
        },
        Stmt::WhileStmt { condition, body } => {
            lemma_expr(fr, a, b, condition);
            lemma_reading(fr, a, b, condition);
            lemma_block_looser(fr, a, b, body);
        },
        Stmt::MatchStmt { value, arms } => {
            lemma_expr(fr, a, b, value);
            lemma_arms_looser(fr, a, b, arms@, 0);
        },
        Stmt::ReturnStmt { value } => {
            if let Some(v) = value {
                lemma_expr(fr, a, b, v);
                lemma_reading(fr, a, b, v);
            }
        },
        Stmt::ExprStmt { expr } => lemma_expr(fr, a, b, expr),
        _ => {},
    }
}

proof fn lemma_block_looser(fr: typecheck::Frame, a: values::Vars, b: values::Vars, block: Block)
    requires
        looser(a, b),
        typecheck::block_verdict(fr, a, block) is Ok,
    ensures
        typecheck::block_verdict(fr, b, block) is Ok,
        looser(
            typecheck::block_verdict(fr, a, block)->Ok_0,
            typecheck::block_verdict(fr, b, block)->Ok_0,
        ),
    decreases block, 0int,
{
    lemma_entered(a, b);
    lemma_stmts_looser(fr, scopes::entered(a), scopes::entered(b), block.statements@, 0);
    lemma_left(
        typecheck::stmts_verdict(fr, scopes::entered(a), block.statements@, 0)->Ok_0,
        typecheck::stmts_verdict(fr, scopes::entered(b), block.statements@, 0)->Ok_0,
    );
}

proof fn lemma_stmts_looser(
    fr: typecheck::Frame,
    a: values::Vars,
    b: values::Vars,
    ss: Seq<Spanned<Stmt>>,
    i: int,
)
    requires
        looser(a, b),
        typecheck::stmts_verdict(fr, a, ss, i) is Ok,
    ensures
        typecheck::stmts_verdict(fr, b, ss, i) is Ok,
        looser(
            typecheck::stmts_verdict(fr, a, ss, i)->Ok_0,
            typecheck::stmts_verdict(fr, b, ss, i)->Ok_0,
        ),
    decreases ss, ss.len() - i,
{
    if 0 <= i < ss.len() {
        law_mutability_never_hurts(fr, a, b, ss[i]);
        lemma_stmts_looser(
            fr,
            typecheck::stmt_verdict(fr, a, ss[i])->Ok_0,
            typecheck::stmt_verdict(fr, b, ss[i])->Ok_0,
            ss,
            i + 1,
        );
    }
}

proof fn lemma_arms_looser(fr: typecheck::Frame, a: values::Vars, b: values::Vars, arms: Seq<MatchArm>, i: int)
    requires
        looser(a, b),
        typecheck::arms_verdict(fr, a, arms, i) is Ok,
    ensures
        typecheck::arms_verdict(fr, b, arms, i) is Ok,
        looser(
            typecheck::arms_verdict(fr, a, arms, i)->Ok_0,
            typecheck::arms_verdict(fr, b, arms, i)->Ok_0,
        ),
    decreases arms, arms.len() - i,
{
    if 0 <= i < arms.len() {
        let names = typecheck::bound_names(arms[i].pattern);
        lemma_entered(a, b);
        lemma_names_looser(scopes::entered(a), scopes::entered(b), names, 0);
        let a1 = typecheck::with_names(scopes::entered(a), names, 0);
        let b1 = typecheck::with_names(scopes::entered(b), names, 0);
        let ss = arms[i].body.statements@;
        lemma_stmts_looser(fr, a1, b1, ss, 0);
        let a2 = typecheck::stmts_verdict(fr, a1, ss, 0)->Ok_0;
        let b2 = typecheck::stmts_verdict(fr, b1, ss, 0)->Ok_0;
        lemma_left(a2, b2);
        lemma_arms_looser(fr, scopes::left(a2), scopes::left(b2), arms, i + 1);
    }
}

/// Adding `mut` to a declaration keeps a program in order: where a list of
/// statements is accepted, it is accepted with one of its declarations made
/// mutable.
pub proof fn law_adding_mut_is_safe(
    fr: typecheck::Frame,
    vars: values::Vars,
    ss: Seq<Spanned<Stmt>>,
    k: int,
    loosened: Spanned<Stmt>,
)
    requires
        0 <= k < ss.len(),
        ss[k].node is LetStmt,
        loosened.node == (Stmt::LetStmt {
            mutable: true,
            name: ss[k].node->LetStmt_name,
            ty: ss[k].node->LetStmt_ty,
            value: ss[k].node->LetStmt_value,
        }),
        typecheck::stmts_verdict(fr, vars, ss, 0) is Ok,
    ensures
        typecheck::stmts_verdict(fr, vars, ss.update(k, loosened), 0) is Ok,
{
    lemma_adding_mut(fr, vars, ss, k, loosened, 0);
}

proof fn lemma_adding_mut(
    fr: typecheck::Frame,
    vars: values::Vars,
    ss: Seq<Spanned<Stmt>>,
    k: int,
    loosened: Spanned<Stmt>,
    i: int,
)
    requires
        0 <= i <= k < ss.len(),
        ss[k].node is LetStmt,
        loosened.node == (Stmt::LetStmt {
            mutable: true,
            name: ss[k].node->LetStmt_name,
            ty: ss[k].node->LetStmt_ty,
            value: ss[k].node->LetStmt_value,
        }),
        typecheck::stmts_verdict(fr, vars, ss, i) is Ok,
    ensures
        typecheck::stmts_verdict(fr, vars, ss.update(k, loosened), i) is Ok,
    decreases k - i,
{
    let tt = ss.update(k, loosened);
    if i < k {
        assert(tt[i] == ss[i]);
        lemma_adding_mut(fr, typecheck::stmt_verdict(fr, vars, ss[i])->Ok_0, ss, k, loosened, i + 1);
    } else {
        let a = typecheck::stmt_verdict(fr, vars, ss[k])->Ok_0;
        let b = typecheck::stmt_verdict(fr, vars, loosened)->Ok_0;
        lemma_same(vars);
        lemma_declared(
            vars,
            vars,
            ss[k].node->LetStmt_name@,
            values::Seen {
                mutable: ss[k].node->LetStmt_mutable,
                ty: Some(ss[k].node->LetStmt_ty@),
            },
            values::Seen { mutable: true, ty: Some(ss[k].node->LetStmt_ty@) },
        );
        lemma_stmts_looser(fr, a, b, ss, k + 1);
        lemma_same_rest(fr, b, ss, tt, k + 1);
    }
}

proof fn lemma_same(a: values::Vars)
    ensures
        looser(a, a),
{
}

proof fn lemma_same_rest(
    fr: typecheck::Frame,
    vars: values::Vars,
    ss: Seq<Spanned<Stmt>>,
    tt: Seq<Spanned<Stmt>>,
    i: int,
)
    requires
        0 <= i,
        ss.len() == tt.len(),
        forall|j: int| i <= j < ss.len() ==> #[trigger] ss[j] == tt[j],
    ensures
        typecheck::stmts_verdict(fr, vars, ss, i) == typecheck::stmts_verdict(fr, vars, tt, i),
    decreases ss.len() - i,
{
    if i < ss.len() {
        assert(ss[i] == tt[i]);
        if typecheck::stmt_verdict(fr, vars, ss[i]) is Ok {
            lemma_same_rest(fr, typecheck::stmt_verdict(fr, vars, ss[i])->Ok_0, ss, tt, i + 1);
        }
    }
}

// ---------------------------------------------------------------------------
// Programs
// ---------------------------------------------------------------------------

proof fn lemma_with_params(vars: values::Vars, params: Seq<Param>, i: int)
    ensures
        outer_same(vars, typecheck::with_params(vars, params, i)),
    decreases params.len() - i,
{
    if 0 <= i < params.len() {
        lemma_with_params(
            scopes::declared(
                vars,
                params[i].name@,
                typecheck::param(params[i]),
            ),
            params,
            i + 1,
        );
    }
}

/// Whether a function is in order by itself.
pub open spec fn fn_in_order(known: Declared, item: Item) -> bool {
    match item {
        Item::FnDecl { params, return_type, body, .. } => typecheck::stmts_verdict(
            typecheck::Frame { known, ret: Some(return_type@) },
            typecheck::with_params(scopes::entered(Seq::empty()), params@, 0),
            body.statements@,
            0,
        ) is Ok,
        _ => true,
    }
}

/// Whether an item is in order by itself: a function, or each method of an `impl`
/// block. Other items cannot be out of order.
pub open spec fn item_in_order(known: Declared, item: Item) -> bool {
    match item {
        Item::ImplDecl { methods, .. } => forall|j: int|
            0 <= j < methods@.len() ==> fn_in_order(known, (#[trigger] methods@[j]).node),
        _ => fn_in_order(known, item),
    }
}

proof fn lemma_fn(known: Declared, item: Item)
    ensures
        typecheck::fn_verdict(known, Seq::empty(), item) is Ok <==> fn_in_order(known, item),
        typecheck::fn_verdict(known, Seq::empty(), item) is Ok ==> typecheck::fn_verdict(
            known,
            Seq::empty(),
            item,
        )->Ok_0 == values::Vars::empty(),
{
    if let Item::FnDecl { params, return_type, body, .. } = item {
        let none: values::Vars = Seq::empty();
        let fr = typecheck::Frame { known, ret: Some(return_type@) };
        let inner = typecheck::with_params(scopes::entered(none), params@, 0);
        lemma_with_params(scopes::entered(none), params@, 0);
        lemma_stmts(fr, inner, body.statements@, 0);
        if typecheck::stmts_verdict(fr, inner, body.statements@, 0) is Ok {
            let after = typecheck::stmts_verdict(fr, inner, body.statements@, 0)->Ok_0;
            assert(scopes::left(after) =~= none);
        }
    }
}

proof fn lemma_methods(known: Declared, methods: Seq<Spanned<Item>>, i: int)
    requires
        0 <= i,
    ensures
        typecheck::methods_verdict(known, Seq::empty(), methods, i) is Ok <==> forall|j: int|
            i <= j < methods.len() ==> fn_in_order(known, (#[trigger] methods[j]).node),
        typecheck::methods_verdict(known, Seq::empty(), methods, i) is Ok
            ==> typecheck::methods_verdict(known, Seq::empty(), methods, i)->Ok_0
            == values::Vars::empty(),
    decreases methods.len() - i,
{
    if i < methods.len() {
        lemma_fn(known, methods[i].node);
        lemma_methods(known, methods, i + 1);
        if typecheck::methods_verdict(known, Seq::empty(), methods, i) is Ok {
            assert forall|j: int| i <= j < methods.len() implies fn_in_order(
                known,
                (#[trigger] methods[j]).node,
            ) by {
                if j > i {
                    assert(fn_in_order(known, methods[j].node));
                }
            }
        } else if fn_in_order(known, methods[i].node) {
            let j = choose|j: int|
                i + 1 <= j < methods.len() && !fn_in_order(known, (#[trigger] methods[j]).node);
            assert(!fn_in_order(known, methods[j].node));
        }
    }
}

proof fn lemma_items(known: Declared, items: Seq<Spanned<Item>>, i: int)
    requires
        0 <= i,
    ensures
        typecheck::items_verdict(known, Seq::empty(), items, i) is Ok <==> forall|j: int|
            i <= j < items.len() ==> item_in_order(known, (#[trigger] items[j]).node),
    decreases items.len() - i,
{
    if i < items.len() {
        match items[i].node {
            Item::ImplDecl { methods, .. } => lemma_methods(known, methods@, 0),
            _ => lemma_fn(known, items[i].node),
        }
        lemma_items(known, items, i + 1);
        if typecheck::items_verdict(known, Seq::empty(), items, i) is Ok {
            assert forall|j: int| i <= j < items.len() implies item_in_order(
                known,
                (#[trigger] items[j]).node,
            ) by {
                if j > i {
                    assert(item_in_order(known, items[j].node));
                }
            }
        } else if item_in_order(known, items[i].node) {
            let j = choose|j: int|
                i + 1 <= j < items.len() && !item_in_order(known, (#[trigger] items[j]).node);
            assert(!item_in_order(known, items[j].node));
        }
    }
}

/// Functions and methods are judged one by one: a program is accepted exactly where
/// each of its items is in order by itself, in whatever order they stand.
pub proof fn law_functions_are_judged_alone(known: Declared, items: Seq<Spanned<Item>>)
    ensures
        typecheck::items_verdict(known, Seq::empty(), items, 0) is Ok <==> forall|j: int|
            0 <= j < items.len() ==> item_in_order(known, (#[trigger] items[j]).node),
{
    lemma_items(known, items, 0);
}

/// Functions are not overloaded: no two functions of a program that is accepted have
/// the same name.
pub proof fn law_no_overloading(program: Program, i: int, j: int, a: Seq<char>, b: Seq<char>)
    requires
        typecheck::program_verdict(program) is Ok,
        0 <= i < j < program.items@.len(),
        program.items@[i].node matches Item::FnDecl { name, .. } && name@ == a,
        program.items@[j].node matches Item::FnDecl { name, .. } && name@ == b,
    ensures
        a != b,
{
    lemma_names_differ(program.items@, 0, i, j, a, b);
}

/// No two methods of one `impl` block of a program that is accepted have the same
/// name.
pub proof fn law_no_method_overloading(
    program: Program,
    k: int,
    methods: Seq<Spanned<Item>>,
    i: int,
    j: int,
    a: Seq<char>,
    b: Seq<char>,
)
    requires
        typecheck::program_verdict(program) is Ok,
        0 <= k < program.items@.len(),
        program.items@[k].node matches Item::ImplDecl { methods: m, .. } && m@ == methods,
        0 <= i < j < methods.len(),
        methods[i].node matches Item::FnDecl { name, .. } && name@ == a,
        methods[j].node matches Item::FnDecl { name, .. } && name@ == b,
    ensures
        a != b,
{
    lemma_each_block(program.items@, 0, k, methods);
    lemma_names_differ(methods, 0, i, j, a, b);
}

proof fn lemma_each_block(items: Seq<Spanned<Item>>, from: int, k: int, methods: Seq<Spanned<Item>>)
    requires
        0 <= from <= k < items.len(),
        typecheck::method_names_verdict(items, from) is Ok,
        items[k].node matches Item::ImplDecl { methods: m, .. } && m@ == methods,
    ensures
        typecheck::names_verdict(methods, 0) is Ok,
    decreases k - from,
{
    if from < k {
        lemma_each_block(items, from + 1, k, methods);
    }
}

proof fn lemma_names_differ(
    items: Seq<Spanned<Item>>,
    from: int,
    i: int,
    j: int,
    a: Seq<char>,
    b: Seq<char>,
)
    requires
        0 <= from <= j < items.len(),
        0 <= i < j,
        typecheck::names_verdict(items, from) is Ok,
        items[i].node matches Item::FnDecl { name, .. } && name@ == a,
        items[j].node matches Item::FnDecl { name, .. } && name@ == b,
    ensures
        a != b,
    decreases j - from,
{
    if from < j {
        lemma_names_differ(items, from + 1, i, j, a, b);
    } else if a == b {
        assert(items[i].node is FnDecl);
        assert(typecheck::named_before(items, b, j));
    }
}

proof fn lemma_block_taken(
    owner: Seq<char>,
    methods: Seq<Spanned<Item>>,
    i: int,
    taken: Set<Seq<char>>,
    k: int,
)
    requires
        0 <= i,
        typecheck::block_taken(owner, methods, i, taken) is Ok,
    ensures
        taken.subset_of(typecheck::block_taken(owner, methods, i, taken)->Ok_0),
        i <= k < methods.len() && methods[k].node is FnDecl ==> {
            let called = model::method_name(owner, methods[k].node->FnDecl_name@);
            &&& !taken.contains(called)
            &&& typecheck::block_taken(owner, methods, i, taken)->Ok_0.contains(called)
        },
    decreases methods.len() - i,
{
    if i < methods.len() {
        match methods[i].node {
            Item::FnDecl { name, .. } => {
                lemma_block_taken(
                    owner,
                    methods,
                    i + 1,
                    taken.insert(model::method_name(owner, name@)),
                    k,
                );
            },
            _ => lemma_block_taken(owner, methods, i + 1, taken, k),
        }
    }
}

proof fn lemma_same_block(
    owner: Seq<char>,
    methods: Seq<Spanned<Item>>,
    i: int,
    taken: Set<Seq<char>>,
    k: int,
    l: int,
)
    requires
        0 <= i <= k < l < methods.len(),
        methods[k].node is FnDecl,
        methods[l].node is FnDecl,
        typecheck::block_taken(owner, methods, i, taken) is Ok,
    ensures
        model::method_name(owner, methods[k].node->FnDecl_name@) != model::method_name(
            owner,
            methods[l].node->FnDecl_name@,
        ),
    decreases methods.len() - i,
{
    let next = match methods[i].node {
        Item::FnDecl { name, .. } => taken.insert(model::method_name(owner, name@)),
        _ => taken,
    };
    if i < k {
        lemma_same_block(owner, methods, i + 1, next, k, l);
    } else {
        lemma_block_taken(owner, methods, i + 1, next, l);
    }
}

/// The function that a method of an `impl` block becomes.
pub open spec fn becomes(known: aliases::Known, block: Item, k: int) -> Seq<char> {
    model::method_name(
        aliases::meant_name(known, block->target@),
        block->methods@[k].node->FnDecl_name@,
    )
}

/// Whether the `k`-th entry of an item is a method.
pub open spec fn is_method(item: Item, k: int) -> bool {
    item is ImplDecl && 0 <= k < item->methods@.len() && item->methods@[k].node is FnDecl
}

proof fn lemma_methods_taken(
    known: aliases::Known,
    items: Seq<Spanned<Item>>,
    i: int,
    taken: Set<Seq<char>>,
    a: int,
    k: int,
)
    requires
        0 <= i <= a < items.len(),
        is_method(items[a].node, k),
        typecheck::methods_taken(known, items, i, taken) is Ok,
    ensures
        !taken.contains(becomes(known, items[a].node, k)),
    decreases items.len() - i,
{
    match items[i].node {
        Item::ImplDecl { target, methods } => {
            let owner = aliases::meant_name(known, target@);
            lemma_block_taken(owner, methods@, 0, taken, k);
            if i < a {
                let next = typecheck::block_taken(owner, methods@, 0, taken)->Ok_0;
                lemma_methods_taken(known, items, i + 1, next, a, k);
            }
        },
        _ => lemma_methods_taken(known, items, i + 1, taken, a, k),
    }
}

proof fn lemma_methods_differ(
    known: aliases::Known,
    items: Seq<Spanned<Item>>,
    i: int,
    taken: Set<Seq<char>>,
    a: int,
    k: int,
    b: int,
    l: int,
)
    requires
        0 <= i <= a <= b < items.len(),
        a == b ==> k < l,
        is_method(items[a].node, k),
        is_method(items[b].node, l),
        typecheck::methods_taken(known, items, i, taken) is Ok,
    ensures
        becomes(known, items[a].node, k) != becomes(known, items[b].node, l),
    decreases items.len() - i,
{
    match items[i].node {
        Item::ImplDecl { target, methods } => {
            let owner = aliases::meant_name(known, target@);
            let next = typecheck::block_taken(owner, methods@, 0, taken)->Ok_0;
            if i < a {
                lemma_methods_differ(known, items, i + 1, next, a, k, b, l);
            } else if a == b {
                lemma_same_block(owner, methods@, 0, taken, k, l);
            } else {
                lemma_block_taken(owner, methods@, 0, taken, k);
                lemma_methods_taken(known, items, i + 1, next, b, l);
            }
        },
        _ => lemma_methods_differ(known, items, i + 1, taken, a, k, b, l),
    }
}

/// Each method becomes a function of its own: of a program that is accepted, no two
/// methods, of one type or of two, become functions of one name.
pub proof fn law_methods_become_different_functions(
    program: Program,
    a: int,
    k: int,
    b: int,
    l: int,
)
    requires
        typecheck::program_verdict(program) is Ok,
        0 <= a <= b < program.items@.len(),
        a == b ==> k < l,
        is_method(program.items@[a].node, k),
        is_method(program.items@[b].node, l),
    ensures
        becomes(aliases::of_items(program.items@), program.items@[a].node, k) != becomes(
            aliases::of_items(program.items@),
            program.items@[b].node,
            l,
        ),
{
    lemma_methods_differ(
        aliases::of_items(program.items@),
        program.items@,
        0,
        Set::empty(),
        a,
        k,
        b,
        l,
    );
}

/// Whether an expression puts a value somewhere: into a variable, a parameter, or a
/// field of a struct.
pub open spec fn stores(e: Spanned<Expr>) -> bool
    decreases e, 0int,
{
    match e.node {
        Expr::ArrayLiteral { elements } => any_stores(elements@, 0),
        Expr::BinaryExpr { left, right, .. } => stores(*left) || stores(*right),
        Expr::UnaryExpr { value, .. } => stores(*value),
        Expr::AssignmentExpr { .. } => true,
        Expr::CallExpr { callee, args } => stores(*callee) || args@.len() > 0,
        Expr::FieldAccessExpr { object, .. } => stores(*object),
        Expr::StructLiteral { fields, .. } => fields@.len() > 0,
        Expr::IndexExpr { object, index } => stores(*object) || stores(*index),
        Expr::RangeExpr { start, end, .. } => stores(*start) || stores(*end),
        _ => false,
    }
}

/// Whether one of the expressions from the `i`-th on puts a value somewhere.
pub open spec fn any_stores(es: Seq<Spanned<Expr>>, i: int) -> bool
    decreases es, es.len() - i,
{
    0 <= i < es.len() && (stores(es[i]) || any_stores(es, i + 1))
}

/// An expression that puts no value anywhere is in order, whatever is declared.
pub proof fn law_nothing_stored_no_fault(fr: typecheck::Frame, vars: values::Vars, e: Spanned<Expr>)
    requires
        !stores(e),
    ensures
        typecheck::expr_verdict(fr, vars, e) is Ok,
    decreases e, 0int,
{
    match e.node {
        Expr::ArrayLiteral { elements } => lemma_none_stores(fr, vars, elements@, 0),
        Expr::BinaryExpr { left, right, .. } => {
            law_nothing_stored_no_fault(fr, vars, *left);
            law_nothing_stored_no_fault(fr, vars, *right);
        },
        Expr::UnaryExpr { value, .. } => law_nothing_stored_no_fault(fr, vars, *value),
        Expr::CallExpr { callee, args } => {
            law_nothing_stored_no_fault(fr, vars, *callee);
            assert(typecheck::exprs_verdict(fr, vars, args@, 0) is Ok);
        },
        Expr::StructLiteral { fields, .. } => {
            assert(typecheck::inits_verdict(fr, vars, fields@, 0) is Ok);
        },
        Expr::FieldAccessExpr { object, .. } => law_nothing_stored_no_fault(fr, vars, *object),
        Expr::IndexExpr { object, index } => {
            law_nothing_stored_no_fault(fr, vars, *object);
            law_nothing_stored_no_fault(fr, vars, *index);
        },
        Expr::RangeExpr { start, end, .. } => {
            law_nothing_stored_no_fault(fr, vars, *start);
            law_nothing_stored_no_fault(fr, vars, *end);
        },
        _ => {},
    }
}

proof fn lemma_none_stores(fr: typecheck::Frame, vars: values::Vars, es: Seq<Spanned<Expr>>, i: int)
    requires
        !any_stores(es, i),
    ensures
        typecheck::exprs_verdict(fr, vars, es, i) is Ok,
    decreases es, es.len() - i,
{
    if 0 <= i < es.len() {
        law_nothing_stored_no_fault(fr, vars, es[i]);
        lemma_none_stores(fr, vars, es, i + 1);
    }
}

} // verus!
