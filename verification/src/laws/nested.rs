//! The checker: every statement and every expression of a program is judged, in the
//! scopes in which it stands.

use vstd::prelude::*;

use crate::aliases;
use crate::ast::{ElseBranch, Expr, FieldInit, Item, MatchArm, Param, Pattern, Program, Stmt};
use crate::ast;
use crate::declared;
use crate::declared::Declared;
use crate::error;
use crate::laws::checker;
use crate::scopes;
use crate::source::Spanned;
use crate::typecheck;
use crate::values;

verus! {

// ---------------------------------------------------------------------------
// Expressions in expressions
// ---------------------------------------------------------------------------

/// The values of a struct literal.
pub open spec fn given(fields: Seq<FieldInit>) -> Seq<Spanned<Expr>> {
    Seq::new(fields.len(), |k: int| fields[k].value)
}

/// The expressions that stand directly in an expression, in order.
pub open spec fn parts(e: Spanned<Expr>) -> Seq<Spanned<Expr>> {
    match e.node {
        Expr::ArrayLiteral { elements } => elements@,
        Expr::BinaryExpr { left, right, .. } => seq![*left, *right],
        Expr::UnaryExpr { value, .. } => seq![*value],
        Expr::AssignmentExpr { target, value } => seq![*target, *value],
        Expr::CallExpr { callee, args } => seq![*callee] + args@,
        Expr::FieldAccessExpr { object, .. } => seq![*object],
        Expr::StructLiteral { fields, .. } => given(fields@),
        Expr::IndexExpr { object, index } => seq![*object, *index],
        Expr::RangeExpr { start, end, .. } => seq![*start, *end],
        _ => Seq::empty(),
    }
}

/// Whether there is a `k`-th expression directly in an expression.
pub open spec fn has_part(e: Spanned<Expr>, k: int) -> bool {
    0 <= k < parts(e).len()
}

/// Whether `x` stands in `e`, so many steps down.
pub open spec fn within(e: Spanned<Expr>, x: Spanned<Expr>, depth: nat) -> bool
    decreases depth,
{
    if depth == 0 {
        x == e
    } else {
        exists|k: int| #[trigger] has_part(e, k) && within(parts(e)[k], x, (depth - 1) as nat)
    }
}

/// The variable that is changed by an assignment to this target: the one that is
/// named, or that the field belongs to.
pub open spec fn variable_of(target: Spanned<Expr>) -> Option<Seq<char>>
    decreases target,
{
    match target.node {
        Expr::Identifier { name } => Some(name@),
        Expr::FieldAccessExpr { object, .. } => variable_of(*object),
        _ => None,
    }
}

/// Whether a target is a variable that is declared as mutable, or a field of one.
pub open spec fn may_change(vars: values::Vars, target: Spanned<Expr>) -> bool {
    variable_of(target) matches Some(name) && (scopes::found(vars, name) matches Some(seen)
        && seen.mutable)
}

/// Whether an expression is in order, not counting those that stand in it: an
/// assignment goes to a mutable variable or a field of one, and the values of
/// assignments, calls and struct literals may stand where they are put.
pub open spec fn fine(fr: typecheck::Frame, vars: values::Vars, x: Spanned<Expr>) -> bool {
    match x.node {
        Expr::AssignmentExpr { target, value } => may_change(vars, *target) && values::cast_verdict(
            fr.known,
            vars,
            values::place_type(fr.known, vars, *target),
            *value,
        ) is Ok,
        Expr::CallExpr { callee, args } => values::call_verdict(fr.known, vars, *callee, args@) is Ok,
        Expr::StructLiteral { name, fields } => values::filled_verdict(
            fr.known,
            vars,
            aliases::meant_name(fr.known.aliases, name@),
            fields@,
            0,
        ) is Ok,
        _ => true,
    }
}

/// What may be assigned to: a variable that is declared with `mut`, and the fields of
/// one.
pub proof fn law_target(vars: values::Vars, target: Spanned<Expr>)
    ensures
        typecheck::target_verdict(vars, target) is Ok <==> may_change(vars, target),
    decreases target,
{
    if let Expr::FieldAccessExpr { object, .. } = target.node {
        law_target(vars, *object);
    }
}

/// What is told of a target that may not be assigned to: whether its variable is not
/// mutable or not declared, or that it is no variable at all.
pub proof fn law_target_fault(vars: values::Vars, target: Spanned<Expr>)
    ensures
        match variable_of(target) {
            None => typecheck::target_verdict(vars, target) == Err::<(), error::Fault>(
                error::Fault::Type("assignment target must be a variable or field access"@),
            ),
            Some(name) => match scopes::found(vars, name) {
                None => typecheck::target_verdict(vars, target) == Err::<(), error::Fault>(
                    error::Fault::Type("cannot assign to unknown variable "@ + error::debug_text(name)),
                ),
                Some(seen) => !seen.mutable ==> typecheck::target_verdict(vars, target) == Err::<
                    (),
                    error::Fault,
                >(
                    error::Fault::Type(
                        "cannot assign to immutable variable "@ + error::debug_text(name)
                            + "; declare it with `let mut "@ + name
                            + "` if reassignment is intended"@,
                    ),
                ),
            },
        },
    decreases target,
{
    if let Expr::FieldAccessExpr { object, .. } = target.node {
        law_target_fault(vars, *object);
    }
}

proof fn lemma_target_in_order(fr: typecheck::Frame, vars: values::Vars, target: Spanned<Expr>)
    requires
        typecheck::target_verdict(vars, target) is Ok,
    ensures
        typecheck::expr_verdict(fr, vars, target) is Ok,
    decreases target,
{
    if let Expr::FieldAccessExpr { object, .. } = target.node {
        lemma_target_in_order(fr, vars, *object);
    }
}

proof fn lemma_list(fr: typecheck::Frame, vars: values::Vars, es: Seq<Spanned<Expr>>, i: int)
    requires
        0 <= i <= es.len(),
    ensures
        typecheck::exprs_verdict(fr, vars, es, i) is Ok <==> forall|k: int|
            i <= k < es.len() ==> typecheck::expr_verdict(fr, vars, #[trigger] es[k]) is Ok,
    decreases es.len() - i,
{
    if i < es.len() {
        lemma_list(fr, vars, es, i + 1);
        if typecheck::exprs_verdict(fr, vars, es, i) is Ok {
            assert forall|k: int| i <= k < es.len() implies typecheck::expr_verdict(
                fr,
                vars,
                #[trigger] es[k],
            ) is Ok by {}
        }
    }
}

proof fn lemma_given(fr: typecheck::Frame, vars: values::Vars, fields: Seq<FieldInit>, i: int)
    requires
        0 <= i <= fields.len(),
    ensures
        typecheck::inits_verdict(fr, vars, fields, i) is Ok <==> forall|k: int|
            i <= k < fields.len() ==> typecheck::expr_verdict(
                fr,
                vars,
                (#[trigger] fields[k]).value,
            ) is Ok,
    decreases fields.len() - i,
{
    if i < fields.len() {
        lemma_given(fr, vars, fields, i + 1);
        if typecheck::inits_verdict(fr, vars, fields, i) is Ok {
            assert forall|k: int| i <= k < fields.len() implies typecheck::expr_verdict(
                fr,
                vars,
                (#[trigger] fields[k]).value,
            ) is Ok by {}
        }
    }
}

/// An expression is accepted exactly where it is in order itself and each expression
/// directly in it is accepted.
pub proof fn law_parts_are_judged(fr: typecheck::Frame, vars: values::Vars, e: Spanned<Expr>)
    ensures
        typecheck::expr_verdict(fr, vars, e) is Ok <==> fine(fr, vars, e) && forall|k: int|
            0 <= k < parts(e).len() ==> typecheck::expr_verdict(fr, vars, #[trigger] parts(e)[k]) is Ok,
{
    let ps = parts(e);
    let all = forall|k: int| 0 <= k < ps.len() ==> typecheck::expr_verdict(fr, vars, #[trigger] ps[k]) is Ok;
    reveal_with_fuel(typecheck::expr_verdict, 2);
    match e.node {
        Expr::ArrayLiteral { elements } => {
            lemma_list(fr, vars, elements@, 0);
        },
        Expr::BinaryExpr { left, right, .. } => {
            if all {
                assert(ps[0] == *left && ps[1] == *right);
            }
        },
        Expr::UnaryExpr { value, .. } => {
            if all {
                assert(ps[0] == *value);
            }
        },
        Expr::AssignmentExpr { target, value } => {
            law_target(vars, *target);
            if typecheck::target_verdict(vars, *target) is Ok {
                lemma_target_in_order(fr, vars, *target);
            }
            if all {
                assert(ps[1] == *value);
            }
        },
        Expr::CallExpr { callee, args } => {
            lemma_list(fr, vars, args@, 0);
            if all {
                assert(ps[0] == *callee);
                assert forall|k: int| 0 <= k < args@.len() implies typecheck::expr_verdict(
                    fr,
                    vars,
                    #[trigger] args@[k],
                ) is Ok by {
                    assert(ps[k + 1] == args@[k]);
                }
            }
            if typecheck::expr_verdict(fr, vars, e) is Ok {
                assert forall|k: int| 0 <= k < ps.len() implies typecheck::expr_verdict(
                    fr,
                    vars,
                    #[trigger] ps[k],
                ) is Ok by {
                    if k > 0 {
                        assert(ps[k] == args@[k - 1]);
                    }
                }
            }
        },
        Expr::FieldAccessExpr { object, .. } => {
            if all {
                assert(ps[0] == *object);
            }
        },
        Expr::StructLiteral { fields, .. } => {
            lemma_given(fr, vars, fields@, 0);
            if all {
                assert forall|k: int| 0 <= k < fields@.len() implies typecheck::expr_verdict(
                    fr,
                    vars,
                    (#[trigger] fields@[k]).value,
                ) is Ok by {
                    assert(ps[k] == fields@[k].value);
                }
            }
        },
        Expr::IndexExpr { object, index } => {
            if all {
                assert(ps[0] == *object && ps[1] == *index);
            }
        },
        Expr::RangeExpr { start, end, .. } => {
            if all {
                assert(ps[0] == *start && ps[1] == *end);
            }
        },
        _ => {},
    }
}

/// Every expression that stands in an accepted one, however deep, is in order.
pub proof fn law_every_expression_is_judged(
    fr: typecheck::Frame,
    vars: values::Vars,
    e: Spanned<Expr>,
    x: Spanned<Expr>,
    depth: nat,
)
    requires
        typecheck::expr_verdict(fr, vars, e) is Ok,
        within(e, x, depth),
    ensures
        typecheck::expr_verdict(fr, vars, x) is Ok,
        fine(fr, vars, x),
    decreases depth,
{
    law_parts_are_judged(fr, vars, e);
    if depth > 0 {
        let k = choose|k: int| #[trigger]
            has_part(e, k) && within(parts(e)[k], x, (depth - 1) as nat);
        law_every_expression_is_judged(fr, vars, parts(e)[k], x, (depth - 1) as nat);
    }
}

proof fn lemma_smaller(e: Spanned<Expr>, k: int)
    requires
        0 <= k < parts(e).len(),
    ensures
        decreases_to!(e => parts(e)[k]),
{
    match e.node {
        Expr::ArrayLiteral { elements } => {
            assert(decreases_to!(elements@ => elements@[k]));
        },
        Expr::CallExpr { callee, args } => {
            if k > 0 {
                assert(parts(e)[k] == args@[k - 1]);
                assert(decreases_to!(args@ => args@[k - 1]));
            }
        },
        Expr::StructLiteral { fields, .. } => {
            assert(parts(e)[k] == fields@[k].value);
            assert(decreases_to!(fields@ => fields@[k]));
        },
        _ => {},
    }
}

/// Nothing else is judged: where every expression that stands in one, itself included,
/// is in order, it is accepted.
pub proof fn law_nothing_else_is_judged(fr: typecheck::Frame, vars: values::Vars, e: Spanned<Expr>)
    requires
        forall|x: Spanned<Expr>, depth: nat| #[trigger] within(e, x, depth) ==> fine(fr, vars, x),
    ensures
        typecheck::expr_verdict(fr, vars, e) is Ok,
    decreases e,
{
    assert(within(e, e, 0));
    assert forall|k: int| 0 <= k < parts(e).len() implies typecheck::expr_verdict(
        fr,
        vars,
        #[trigger] parts(e)[k],
    ) is Ok by {
        assert forall|x: Spanned<Expr>, depth: nat| #[trigger] within(parts(e)[k], x, depth) implies fine(
            fr,
            vars,
            x,
        ) by {
            assert(has_part(e, k));
            assert(within(parts(e)[k], x, ((depth + 1) - 1) as nat));
            assert(within(e, x, (depth + 1) as nat));
        }
        lemma_smaller(e, k);
        law_nothing_else_is_judged(fr, vars, parts(e)[k]);
    }
    law_parts_are_judged(fr, vars, e);
}

// ---------------------------------------------------------------------------
// Statements in statements
// ---------------------------------------------------------------------------

/// The scopes after a statement: a `let` declares its variable in the innermost scope,
/// and nothing else declares anything that outlives it.
pub open spec fn scopes_after(vars: values::Vars, s: Spanned<Stmt>) -> values::Vars
    decreases s,
{
    match s.node {
        Stmt::LetStmt { mutable, name, ty, .. } => scopes::declared(
            vars,
            name@,
            values::Seen { mutable, ty: Some(ty@) },
        ),
        Stmt::IfStmt { else_branch: Some(ElseBranch::IfStmt(inner)), .. } => scopes_after(
            vars,
            *inner,
        ),
        _ => vars,
    }
}

/// The scopes in which the `k`-th statement of a list stands.
pub open spec fn scopes_at(vars: values::Vars, ss: Seq<Spanned<Stmt>>, k: int) -> values::Vars
    decreases k,
{
    if k <= 0 {
        vars
    } else {
        scopes_after(scopes_at(vars, ss, k - 1), ss[k - 1])
    }
}

/// The scopes with the first `n` of these names as immutable variables.
pub open spec fn naming(vars: values::Vars, names: Seq<String>, n: int) -> values::Vars
    decreases n,
{
    if n <= 0 {
        vars
    } else {
        scopes::declared(
            naming(vars, names, n - 1),
            names[n - 1]@,
            values::Seen { mutable: false, ty: None },
        )
    }
}

/// A list of statements with the scopes in which it begins.
pub struct Inner {
    pub vars: values::Vars,
    pub list: Seq<Spanned<Stmt>>,
}

/// The body of an arm, in a scope of its own with the names that its pattern binds.
pub open spec fn arm_inner(vars: values::Vars, arm: MatchArm) -> Inner {
    Inner {
        vars: match arm.pattern {
            Pattern::VariantPattern { bindings, .. } => naming(
                scopes::entered(vars),
                bindings@,
                bindings@.len() as int,
            ),
            _ => scopes::entered(vars),
        },
        list: arm.body.statements@,
    }
}

/// The lists of statements that stand directly in a statement: the branches of an
/// `if`, the body of a loop, which sees the loop's variable, and the arms of a `match`.
pub open spec fn inner_lists(vars: values::Vars, s: Spanned<Stmt>) -> Seq<Inner> {
    match s.node {
        Stmt::IfStmt { then_block, else_branch, .. } => {
            let then_list = Inner { vars: scopes::entered(vars), list: then_block.statements@ };
            match else_branch {
                Some(ElseBranch::Block(block)) => seq![
                    then_list,
                    Inner { vars: scopes::entered(vars), list: block.statements@ },
                ],
                Some(ElseBranch::IfStmt(inner)) => seq![then_list, Inner { vars, list: seq![*inner] }],
                None => seq![then_list],
            }
        },
        Stmt::ForStmt { iterator, iterable, body } => seq![
            Inner {
                vars: scopes::declared(
                    scopes::entered(vars),
                    iterator@,
                    values::Seen {
                        mutable: false,
                        ty: if iterable.node is RangeExpr {
                            Some(ast::Type::Named { name: "i32"@, args: Seq::empty() })
                        } else {
                            None
                        },
                    },
                ),
                list: body.statements@,
            },
        ],
        Stmt::WhileStmt { body, .. } => seq![
            Inner { vars: scopes::entered(vars), list: body.statements@ },
        ],
        Stmt::MatchStmt { arms, .. } => Seq::new(
            arms@.len(),
            |k: int| arm_inner(vars, arms@[k]),
        ),
        _ => Seq::empty(),
    }
}

/// Whether there is a `k`-th statement in the `i`-th list that stands in a statement.
pub open spec fn has_inner(vars: values::Vars, s: Spanned<Stmt>, i: int, k: int) -> bool {
    0 <= i < inner_lists(vars, s).len() && 0 <= k < inner_lists(vars, s)[i].list.len()
}

/// The scopes of that statement.
pub open spec fn inner_scopes(vars: values::Vars, s: Spanned<Stmt>, i: int, k: int) -> values::Vars {
    scopes_at(inner_lists(vars, s)[i].vars, inner_lists(vars, s)[i].list, k)
}

/// That statement.
pub open spec fn inner_stmt(vars: values::Vars, s: Spanned<Stmt>, i: int, k: int) -> Spanned<Stmt> {
    inner_lists(vars, s)[i].list[k]
}

/// Whether statement `t` stands in `s`, so many steps down, and in the scopes `w` where
/// `s` stands in the scopes `vars`.
pub open spec fn stands_in(
    vars: values::Vars,
    s: Spanned<Stmt>,
    w: values::Vars,
    t: Spanned<Stmt>,
    depth: nat,
) -> bool
    decreases depth,
{
    if depth == 0 {
        w == vars && t == s
    } else {
        exists|i: int, k: int| #[trigger]
            has_inner(vars, s, i, k) && stands_in(
                inner_scopes(vars, s, i, k),
                inner_stmt(vars, s, i, k),
                w,
                t,
                (depth - 1) as nat,
            )
    }
}

/// The expressions that stand directly in a statement.
pub open spec fn expressions_of(t: Spanned<Stmt>) -> Seq<Spanned<Expr>> {
    match t.node {
        Stmt::LetStmt { value, .. } => seq![value],
        Stmt::IfStmt { condition, .. } => seq![condition],
        Stmt::ForStmt { iterable, .. } => seq![iterable],
        Stmt::WhileStmt { condition, .. } => seq![condition],
        Stmt::MatchStmt { value, .. } => seq![value],
        Stmt::ReturnStmt { value: Some(value) } => seq![value],
        Stmt::ExprStmt { expr } => seq![expr],
        _ => Seq::empty(),
    }
}

/// Whether a statement is in order, not counting those that stand in it: its
/// expressions are accepted, a condition is a truth value, and what is declared or
/// returned may stand for the type that is wanted.
pub open spec fn sound(fr: typecheck::Frame, w: values::Vars, t: Spanned<Stmt>) -> bool {
    &&& forall|k: int|
        0 <= k < expressions_of(t).len() ==> typecheck::expr_verdict(
            fr,
            w,
            #[trigger] expressions_of(t)[k],
        ) is Ok
    &&& match t.node {
        Stmt::LetStmt { ty, value, .. } => values::cast_verdict(fr.known, w, Some(ty@), value) is Ok,
        Stmt::ReturnStmt { value: Some(value) } => values::cast_verdict(
            fr.known,
            w,
            fr.ret,
            value,
        ) is Ok,
        Stmt::IfStmt { condition, .. } => values::condition_verdict(
            fr.known,
            w,
            "if"@,
            condition,
        ) is Ok,
        Stmt::WhileStmt { condition, .. } => values::condition_verdict(
            fr.known,
            w,
            "while"@,
            condition,
        ) is Ok,
        _ => true,
    }
}

proof fn lemma_innermost(vars: values::Vars, s: Spanned<Stmt>)
    ensures
        scopes_after(vars, s).len() == vars.len(),
        vars.len() > 0 ==> scopes_after(vars, s).drop_last() == vars.drop_last(),
    decreases s,
{
    match s.node {
        Stmt::LetStmt { mutable, name, ty, .. } => {
            if vars.len() > 0 {
                assert(scopes_after(vars, s).drop_last() =~= vars.drop_last());
            }
        },
        Stmt::IfStmt { else_branch: Some(ElseBranch::IfStmt(inner)), .. } => {
            lemma_innermost(vars, *inner);
        },
        _ => {},
    }
}

proof fn lemma_innermost_list(vars: values::Vars, ss: Seq<Spanned<Stmt>>, k: int)
    ensures
        scopes_at(vars, ss, k).len() == vars.len(),
        vars.len() > 0 ==> scopes_at(vars, ss, k).drop_last() == vars.drop_last(),
    decreases k,
{
    if k > 0 {
        lemma_innermost_list(vars, ss, k - 1);
        lemma_innermost(scopes_at(vars, ss, k - 1), ss[k - 1]);
    }
}

/// After a statement that is accepted the scopes are those before it, with the
/// variable of a `let`.
pub proof fn law_scopes_after(fr: typecheck::Frame, vars: values::Vars, s: Spanned<Stmt>)
    ensures
        typecheck::stmt_verdict(fr, vars, s) matches Ok(after) ==> after == scopes_after(vars, s),
    decreases s,
{
    if typecheck::stmt_verdict(fr, vars, s) is Ok {
        match s.node {
            Stmt::LetStmt { .. } => {},
            Stmt::IfStmt { then_block, else_branch: Some(ElseBranch::IfStmt(inner)), .. } => {
                checker::law_block_leaves_no_trace(fr, vars, then_block);
                law_scopes_after(fr, vars, *inner);
            },
            _ => checker::law_only_let_declares(fr, vars, s),
        }
    }
}

proof fn lemma_statements(fr: typecheck::Frame, vars: values::Vars, ss: Seq<Spanned<Stmt>>, i: int)
    requires
        0 <= i <= ss.len(),
    ensures
        typecheck::stmts_verdict(fr, scopes_at(vars, ss, i), ss, i) is Ok <==> forall|k: int|
            i <= k < ss.len() ==> typecheck::stmt_verdict(
                fr,
                scopes_at(vars, ss, k),
                #[trigger] ss[k],
            ) is Ok,
        typecheck::stmts_verdict(fr, scopes_at(vars, ss, i), ss, i) matches Ok(after) ==> after
            == scopes_at(vars, ss, ss.len() as int),
    decreases ss.len() - i,
{
    if i < ss.len() {
        law_scopes_after(fr, scopes_at(vars, ss, i), ss[i]);
        lemma_statements(fr, vars, ss, i + 1);
        if typecheck::stmts_verdict(fr, scopes_at(vars, ss, i), ss, i) is Ok {
            assert forall|k: int| i <= k < ss.len() implies typecheck::stmt_verdict(
                fr,
                scopes_at(vars, ss, k),
                #[trigger] ss[k],
            ) is Ok by {}
        }
    }
}

pub(crate) proof fn lemma_naming(vars: values::Vars, names: Seq<String>, i: int)
    requires
        0 <= i <= names.len(),
    ensures
        typecheck::with_names(naming(vars, names, i), names, i) == naming(
            vars,
            names,
            names.len() as int,
        ),
    decreases names.len() - i,
{
    if i < names.len() {
        lemma_naming(vars, names, i + 1);
    }
}

proof fn lemma_named_innermost(vars: values::Vars, names: Seq<String>, n: int)
    ensures
        naming(vars, names, n).len() == vars.len(),
        vars.len() > 0 ==> naming(vars, names, n).drop_last() == vars.drop_last(),
    decreases n,
{
    if n > 0 {
        lemma_named_innermost(vars, names, n - 1);
        if vars.len() > 0 {
            assert(naming(vars, names, n).drop_last() =~= naming(vars, names, n - 1).drop_last());
        }
    }
}

/// Whether the statements of a list are all accepted where they stand.
pub open spec fn all_accepted(fr: typecheck::Frame, inner: Inner) -> bool {
    forall|k: int|
        0 <= k < inner.list.len() ==> typecheck::stmt_verdict(
            fr,
            scopes_at(inner.vars, inner.list, k),
            #[trigger] inner.list[k],
        ) is Ok
}

pub(crate) proof fn lemma_arm(fr: typecheck::Frame, vars: values::Vars, arm: MatchArm)
    ensures
        ({
            let r = typecheck::stmts_verdict(
                fr,
                typecheck::with_names(
                    scopes::entered(vars),
                    typecheck::bound_names(arm.pattern),
                    0,
                ),
                arm.body.statements@,
                0,
            );
            &&& r is Ok <==> all_accepted(fr, arm_inner(vars, arm))
            &&& r matches Ok(after) ==> scopes::left(after) == vars
        }),
{
    let inner = arm_inner(vars, arm);
    let names = typecheck::bound_names(arm.pattern);
    lemma_naming(scopes::entered(vars), names, 0);
    lemma_named_innermost(scopes::entered(vars), names, names.len() as int);
    lemma_statements(fr, inner.vars, inner.list, 0);
    lemma_innermost_list(inner.vars, inner.list, inner.list.len() as int);
    assert(scopes::entered(vars).drop_last() =~= vars);
}

proof fn lemma_arms(fr: typecheck::Frame, vars: values::Vars, arms: Seq<MatchArm>, i: int)
    requires
        0 <= i <= arms.len(),
    ensures
        typecheck::arms_verdict(fr, vars, arms, i) is Ok <==> forall|j: int|
            i <= j < arms.len() ==> all_accepted(fr, arm_inner(vars, #[trigger] arms[j])),
    decreases arms.len() - i,
{
    if i < arms.len() {
        lemma_arm(fr, vars, arms[i]);
        lemma_arms(fr, vars, arms, i + 1);
        if typecheck::arms_verdict(fr, vars, arms, i) is Ok {
            assert forall|j: int| i <= j < arms.len() implies all_accepted(
                fr,
                arm_inner(vars, #[trigger] arms[j]),
            ) by {}
        }
    }
}

/// Whether the statements of all the lists in a statement are accepted.
pub open spec fn lists_accepted(fr: typecheck::Frame, lists: Seq<Inner>) -> bool {
    forall|i: int| 0 <= i < lists.len() ==> all_accepted(fr, #[trigger] lists[i])
}

proof fn lemma_sound(fr: typecheck::Frame, w: values::Vars, t: Spanned<Stmt>, e: Spanned<Expr>)
    requires
        expressions_of(t) == seq![e],
    ensures
        (forall|k: int|
            0 <= k < expressions_of(t).len() ==> typecheck::expr_verdict(
                fr,
                w,
                #[trigger] expressions_of(t)[k],
            ) is Ok) <==> typecheck::expr_verdict(fr, w, e) is Ok,
{
    assert(expressions_of(t)[0] == e);
}

proof fn lemma_if_judged(fr: typecheck::Frame, vars: values::Vars, s: Spanned<Stmt>)
    requires
        s.node is IfStmt,
    ensures
        typecheck::stmt_verdict(fr, vars, s) is Ok <==> sound(fr, vars, s) && lists_accepted(
            fr,
            inner_lists(vars, s),
        ),
{
    if let Stmt::IfStmt { condition, then_block, else_branch } = s.node {
        let lists = inner_lists(vars, s);
        let entered = scopes::entered(vars);
        lemma_sound(fr, vars, s, condition);
        lemma_statements(fr, entered, then_block.statements@, 0);
        checker::law_block_leaves_no_trace(fr, vars, then_block);
        let first = Inner { vars: entered, list: then_block.statements@ };
        assert(lists[0] == first);
        assert(all_accepted(fr, first) <==> typecheck::block_verdict(fr, vars, then_block) is Ok);
        match else_branch {
            Some(ElseBranch::Block(block)) => {
                lemma_statements(fr, entered, block.statements@, 0);
                let second = Inner { vars: entered, list: block.statements@ };
                assert(lists[1] == second);
                assert(all_accepted(fr, second) <==> typecheck::block_verdict(fr, vars, block) is Ok);
                assert(lists_accepted(fr, lists) <==> all_accepted(fr, first) && all_accepted(
                    fr,
                    second,
                ));
            },
            Some(ElseBranch::IfStmt(inner)) => {
                let second = Inner { vars, list: seq![*inner] };
                assert(lists[1] == second);
                assert(second.list[0] == *inner);
                assert(scopes_at(vars, second.list, 0) == vars);
                assert(all_accepted(fr, second) <==> typecheck::stmt_verdict(fr, vars, *inner) is Ok);
                assert(lists_accepted(fr, lists) <==> all_accepted(fr, first) && all_accepted(
                    fr,
                    second,
                ));
            },
            None => {
                assert(lists_accepted(fr, lists) <==> all_accepted(fr, first));
            },
        }
    }
}

proof fn lemma_loop_judged(fr: typecheck::Frame, vars: values::Vars, s: Spanned<Stmt>)
    requires
        s.node is WhileStmt || s.node is ForStmt || s.node is MatchStmt,
    ensures
        typecheck::stmt_verdict(fr, vars, s) is Ok <==> sound(fr, vars, s) && lists_accepted(
            fr,
            inner_lists(vars, s),
        ),
{
    let lists = inner_lists(vars, s);
    match s.node {
        Stmt::ForStmt { iterator, iterable, body } => {
            lemma_sound(fr, vars, s, iterable);
            lemma_statements(fr, lists[0].vars, body.statements@, 0);
            assert(lists_accepted(fr, lists) <==> all_accepted(fr, lists[0]));
        },
        Stmt::WhileStmt { condition, body } => {
            lemma_sound(fr, vars, s, condition);
            lemma_statements(fr, scopes::entered(vars), body.statements@, 0);
            assert(lists[0].list == body.statements@);
            assert(lists_accepted(fr, lists) <==> all_accepted(fr, lists[0]));
            assert(all_accepted(fr, lists[0]) <==> typecheck::block_verdict(fr, vars, body) is Ok);
        },
        Stmt::MatchStmt { value, arms } => {
            lemma_sound(fr, vars, s, value);
            lemma_arms(fr, vars, arms@, 0);
            if lists_accepted(fr, lists) {
                assert forall|j: int| 0 <= j < arms@.len() implies all_accepted(
                    fr,
                    arm_inner(vars, #[trigger] arms@[j]),
                ) by {
                    assert(lists[j] == arm_inner(vars, arms@[j]));
                }
            }
        },
        _ => {},
    }
}

proof fn lemma_lists_judged(fr: typecheck::Frame, vars: values::Vars, s: Spanned<Stmt>)
    ensures
        typecheck::stmt_verdict(fr, vars, s) is Ok <==> sound(fr, vars, s) && lists_accepted(
            fr,
            inner_lists(vars, s),
        ),
{
    match s.node {
        Stmt::IfStmt { .. } => lemma_if_judged(fr, vars, s),
        Stmt::WhileStmt { .. } => lemma_loop_judged(fr, vars, s),
        Stmt::ForStmt { .. } => lemma_loop_judged(fr, vars, s),
        Stmt::MatchStmt { .. } => lemma_loop_judged(fr, vars, s),
        Stmt::LetStmt { value, .. } => lemma_sound(fr, vars, s, value),
        Stmt::ReturnStmt { value: Some(value) } => lemma_sound(fr, vars, s, value),
        Stmt::ExprStmt { expr } => lemma_sound(fr, vars, s, expr),
        _ => {},
    }
}

/// A statement is accepted exactly where it is in order itself and each statement
/// directly in it is accepted in the scopes in which it stands: those of the branches
/// of an `if`, of the body of a `for` or `while` loop, and of the arms of a `match`.
pub proof fn law_inner_statements_are_judged(
    fr: typecheck::Frame,
    vars: values::Vars,
    s: Spanned<Stmt>,
)
    ensures
        typecheck::stmt_verdict(fr, vars, s) is Ok <==> sound(fr, vars, s) && forall|i: int, k: int| #[trigger]
            has_inner(vars, s, i, k) ==> typecheck::stmt_verdict(
                fr,
                inner_scopes(vars, s, i, k),
                inner_stmt(vars, s, i, k),
            ) is Ok,
{
    lemma_lists_judged(fr, vars, s);
    let lists = inner_lists(vars, s);
    if typecheck::stmt_verdict(fr, vars, s) is Ok {
        assert forall|i: int, k: int| #[trigger] has_inner(vars, s, i, k) implies typecheck::stmt_verdict(
            fr,
            inner_scopes(vars, s, i, k),
            inner_stmt(vars, s, i, k),
        ) is Ok by {
            assert(all_accepted(fr, lists[i]));
            assert(lists[i].list[k] == inner_stmt(vars, s, i, k));
        }
    }
    if forall|i: int, k: int| #[trigger]
        has_inner(vars, s, i, k) ==> typecheck::stmt_verdict(
            fr,
            inner_scopes(vars, s, i, k),
            inner_stmt(vars, s, i, k),
        ) is Ok {
        assert forall|i: int| 0 <= i < lists.len() implies all_accepted(fr, #[trigger] lists[i]) by {
            assert forall|k: int| 0 <= k < lists[i].list.len() implies typecheck::stmt_verdict(
                fr,
                scopes_at(lists[i].vars, lists[i].list, k),
                #[trigger] lists[i].list[k],
            ) is Ok by {
                assert(has_inner(vars, s, i, k));
            }
        }
    }
}

/// Every statement that stands in an accepted one, however deep, is accepted in the
/// scopes in which it stands.
pub proof fn law_every_statement_is_judged(
    fr: typecheck::Frame,
    vars: values::Vars,
    s: Spanned<Stmt>,
    w: values::Vars,
    t: Spanned<Stmt>,
    depth: nat,
)
    requires
        typecheck::stmt_verdict(fr, vars, s) is Ok,
        stands_in(vars, s, w, t, depth),
    ensures
        typecheck::stmt_verdict(fr, w, t) is Ok,
        sound(fr, w, t),
    decreases depth,
{
    law_inner_statements_are_judged(fr, vars, s);
    if depth > 0 {
        let (i, k) = choose|i: int, k: int| #[trigger]
            has_inner(vars, s, i, k) && stands_in(
                inner_scopes(vars, s, i, k),
                inner_stmt(vars, s, i, k),
                w,
                t,
                (depth - 1) as nat,
            );
        law_every_statement_is_judged(
            fr,
            inner_scopes(vars, s, i, k),
            inner_stmt(vars, s, i, k),
            w,
            t,
            (depth - 1) as nat,
        );
    }
}

proof fn lemma_inner_smaller(vars: values::Vars, s: Spanned<Stmt>, i: int, k: int)
    requires
        has_inner(vars, s, i, k),
    ensures
        decreases_to!(s => inner_stmt(vars, s, i, k)),
{
    match s.node {
        Stmt::IfStmt { then_block, else_branch, .. } => {
            if i == 0 {
                assert(decreases_to!(then_block.statements@ => then_block.statements@[k]));
            } else {
                match else_branch {
                    Some(ElseBranch::Block(block)) => {
                        assert(decreases_to!(block.statements@ => block.statements@[k]));
                    },
                    Some(ElseBranch::IfStmt(inner)) => {},
                    None => {},
                }
            }
        },
        Stmt::ForStmt { body, .. } => {
            assert(decreases_to!(body.statements@ => body.statements@[k]));
        },
        Stmt::WhileStmt { body, .. } => {
            assert(decreases_to!(body.statements@ => body.statements@[k]));
        },
        Stmt::MatchStmt { arms, .. } => {
            assert(decreases_to!(arms@ => arms@[i]));
            let body = arms@[i].body;
            assert(decreases_to!(body.statements@ => body.statements@[k]));
        },
        _ => {},
    }
}

/// Nothing else is judged: where every statement that stands in one, itself included,
/// is in order in its scopes, it is accepted.
pub proof fn law_no_other_statement_is_judged(
    fr: typecheck::Frame,
    vars: values::Vars,
    s: Spanned<Stmt>,
)
    requires
        forall|w: values::Vars, t: Spanned<Stmt>, depth: nat| #[trigger]
            stands_in(vars, s, w, t, depth) ==> sound(fr, w, t),
    ensures
        typecheck::stmt_verdict(fr, vars, s) is Ok,
    decreases s,
{
    assert(stands_in(vars, s, vars, s, 0));
    assert forall|i: int, k: int| #[trigger] has_inner(vars, s, i, k) implies typecheck::stmt_verdict(
        fr,
        inner_scopes(vars, s, i, k),
        inner_stmt(vars, s, i, k),
    ) is Ok by {
        let v = inner_scopes(vars, s, i, k);
        let u = inner_stmt(vars, s, i, k);
        assert forall|w: values::Vars, t: Spanned<Stmt>, depth: nat| #[trigger]
            stands_in(v, u, w, t, depth) implies sound(fr, w, t) by {
            assert(stands_in(v, u, w, t, ((depth + 1) - 1) as nat));
            assert(stands_in(vars, s, w, t, (depth + 1) as nat));
        }
        lemma_inner_smaller(vars, s, i, k);
        law_no_other_statement_is_judged(fr, v, u);
    }
    law_inner_statements_are_judged(fr, vars, s);
}

// ---------------------------------------------------------------------------
// Functions and programs
// ---------------------------------------------------------------------------

/// The scopes in which the body of a function begins: one, with its parameters, which
/// are immutable but for `mut self`.
pub open spec fn parameters(params: Seq<Param>, n: int) -> values::Vars
    decreases n,
{
    if n <= 0 {
        seq![Map::empty()]
    } else {
        scopes::declared(
            parameters(params, n - 1),
            params[n - 1].name@,
            values::Seen {
                mutable: params[n - 1].mutable && params[n - 1].name@ == "self"@,
                ty: Some(params[n - 1].ty@),
            },
        )
    }
}

proof fn lemma_parameters(params: Seq<Param>, i: int)
    requires
        0 <= i <= params.len(),
    ensures
        typecheck::with_params(parameters(params, i), params, i) == parameters(
            params,
            params.len() as int,
        ),
    decreases params.len() - i,
{
    if i < params.len() {
        lemma_parameters(params, i + 1);
    }
}

/// Whether the `j`-th method of the `i`-th item is this one.
pub open spec fn is_method_at(items: Seq<Spanned<Item>>, i: int, j: int, item: Item) -> bool {
    0 <= i < items.len() && (items[i].node matches Item::ImplDecl { methods, .. } && 0 <= j
        < methods@.len() && methods@[j].node == item)
}

/// Whether a function stands in a program, as one of its items or as a method.
pub open spec fn has_function(program: Program, item: Item) -> bool {
    ||| exists|i: int| 0 <= i < program.items@.len() && (#[trigger] program.items@[i]).node == item
    ||| exists|i: int, j: int| is_method_at(program.items@, i, j, item)
}

/// Whether statement `t` stands somewhere in the body of a function, in the scopes `w`.
pub open spec fn stands_in_body(item: Item, w: values::Vars, t: Spanned<Stmt>, k: int, depth: nat) -> bool {
    item matches Item::FnDecl { params, body, .. } && 0 <= k < body.statements@.len() && stands_in(
        scopes_at(parameters(params@, params@.len() as int), body.statements@, k),
        body.statements@[k],
        w,
        t,
        depth,
    )
}

/// What the statements of a function are judged against.
pub open spec fn frame_of(program: Program, item: Item) -> typecheck::Frame {
    typecheck::Frame {
        known: Declared {
            aliases: aliases::of_items(program.items@),
            items: program.items@,
        },
        ret: match item {
            Item::FnDecl { return_type, .. } => Some(return_type@),
            _ => None,
        },
    }
}

/// Every statement of every function and method of an accepted program, however deep,
/// is accepted in the scopes in which it stands.
pub proof fn law_program_is_judged_throughout(
    program: Program,
    item: Item,
    w: values::Vars,
    t: Spanned<Stmt>,
    k: int,
    depth: nat,
)
    requires
        typecheck::program_verdict(program) is Ok,
        has_function(program, item),
        stands_in_body(item, w, t, k, depth),
    ensures
        typecheck::stmt_verdict(frame_of(program, item), w, t) is Ok,
        sound(frame_of(program, item), w, t),
{
    let items = program.items@;
    let known = declared::of_items(items);
    checker::law_functions_are_judged_alone(known, items);
    assert(checker::fn_in_order(known, item)) by {
        if exists|i: int| 0 <= i < items.len() && (#[trigger] items[i]).node == item {
            let i = choose|i: int| 0 <= i < items.len() && (#[trigger] items[i]).node == item;
            assert(checker::item_in_order(known, items[i].node));
        } else {
            let (i, j) = choose|i: int, j: int| is_method_at(items, i, j, item);
            assert(checker::item_in_order(known, items[i].node));
        }
    }
    if let Item::FnDecl { params, return_type, body, .. } = item {
        let none: values::Vars = Seq::empty();
        let fr = frame_of(program, item);
        let start = parameters(params@, params@.len() as int);
        let ss = body.statements@;
        assert(scopes::entered(none) =~= parameters(params@, 0));
        lemma_parameters(params@, 0);
        lemma_statements(fr, start, ss, 0);
        assert(typecheck::stmt_verdict(fr, scopes_at(start, ss, k), ss[k]) is Ok);
        law_every_statement_is_judged(fr, scopes_at(start, ss, k), ss[k], w, t, depth);
    }
}

/// One assignment, anywhere in a function or method, to a variable that is not mutable
/// or not declared where it stands, and the program is refused.
pub proof fn law_bad_assignment_is_refused(
    program: Program,
    item: Item,
    w: values::Vars,
    t: Spanned<Stmt>,
    k: int,
    depth: nat,
    e: int,
    x: Spanned<Expr>,
    steps: nat,
)
    requires
        has_function(program, item),
        stands_in_body(item, w, t, k, depth),
        0 <= e < expressions_of(t).len(),
        within(expressions_of(t)[e], x, steps),
        x.node matches Expr::AssignmentExpr { target, .. } && !may_change(w, *target),
    ensures
        typecheck::program_verdict(program) is Err,
{
    if typecheck::program_verdict(program) is Ok {
        let fr = frame_of(program, item);
        law_program_is_judged_throughout(program, item, w, t, k, depth);
        law_every_expression_is_judged(fr, w, expressions_of(t)[e], x, steps);
    }
}

} // verus!
