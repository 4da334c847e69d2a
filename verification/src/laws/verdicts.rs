//! The checker: which fault is told first, and that nothing is refused without one.

use vstd::prelude::*;

use crate::aliases;
use crate::ast::{ElseBranch, Expr, FieldInit, Item, MatchArm, Program, Stmt};
use crate::declared;
use crate::error;
use crate::laws::checker;
use crate::laws::nested;
use crate::scopes;
use crate::source::Spanned;
use crate::typecheck;
use crate::values;

verus! {

/// A fault as a verdict.
pub open spec fn refused(f: error::Fault) -> Result<(), error::Fault> {
    Err(f)
}

// ---------------------------------------------------------------------------
// Expressions
// ---------------------------------------------------------------------------

proof fn lemma_first_of_list(
    fr: typecheck::Frame,
    vars: values::Vars,
    es: Seq<Spanned<Expr>>,
    i: int,
    k: int,
)
    requires
        0 <= i <= k <= es.len(),
        forall|j: int| i <= j < k ==> typecheck::expr_verdict(fr, vars, #[trigger] es[j]) is Ok,
    ensures
        k == es.len() ==> typecheck::exprs_verdict(fr, vars, es, i) is Ok,
        k < es.len() ==> (typecheck::expr_verdict(fr, vars, es[k]) matches Err(f)
            ==> typecheck::exprs_verdict(fr, vars, es, i) == refused(f)),
    decreases k - i,
{
    if i < k {
        assert(typecheck::expr_verdict(fr, vars, es[i]) is Ok);
        lemma_first_of_list(fr, vars, es, i + 1, k);
    }
}

proof fn lemma_first_of_fields(
    fr: typecheck::Frame,
    vars: values::Vars,
    fields: Seq<FieldInit>,
    i: int,
    k: int,
)
    requires
        0 <= i <= k <= fields.len(),
        forall|j: int|
            i <= j < k ==> typecheck::expr_verdict(fr, vars, (#[trigger] fields[j]).value) is Ok,
    ensures
        k == fields.len() ==> typecheck::inits_verdict(fr, vars, fields, i) is Ok,
        k < fields.len() ==> (typecheck::expr_verdict(fr, vars, fields[k].value) matches Err(f)
            ==> typecheck::inits_verdict(fr, vars, fields, i) == refused(f)),
    decreases k - i,
{
    if i < k {
        assert(typecheck::expr_verdict(fr, vars, fields[i].value) is Ok);
        lemma_first_of_fields(fr, vars, fields, i + 1, k);
    }
}

/// The fault of the first expression in another one is told; where there is none, that
/// of a call or a struct literal itself.
pub proof fn law_first_fault(fr: typecheck::Frame, vars: values::Vars, e: Spanned<Expr>, k: int)
    requires
        !(e.node is AssignmentExpr),
        0 <= k <= nested::parts(e).len(),
        forall|j: int|
            0 <= j < k ==> typecheck::expr_verdict(fr, vars, #[trigger] nested::parts(e)[j]) is Ok,
    ensures
        k < nested::parts(e).len() ==> (typecheck::expr_verdict(
            fr,
            vars,
            nested::parts(e)[k],
        ) matches Err(f) ==> typecheck::expr_verdict(fr, vars, e) == refused(f)),
        k == nested::parts(e).len() ==> (match e.node {
            Expr::CallExpr { callee, args } => typecheck::expr_verdict(fr, vars, e)
                == values::call_verdict(fr.known, vars, *callee, args@),
            Expr::StructLiteral { name, fields } => typecheck::expr_verdict(fr, vars, e)
                == values::filled_verdict(
                fr.known,
                vars,
                aliases::meant_name(fr.known.aliases, name@),
                fields@,
                0,
            ),
            _ => typecheck::expr_verdict(fr, vars, e) is Ok,
        }),
{
    let ps = nested::parts(e);
    if k > 0 {
        assert(typecheck::expr_verdict(fr, vars, ps[0]) is Ok);
    }
    if k > 1 {
        assert(typecheck::expr_verdict(fr, vars, ps[1]) is Ok);
    }
    match e.node {
        Expr::ArrayLiteral { elements } => lemma_first_of_list(fr, vars, elements@, 0, k),
        Expr::CallExpr { callee, args } => {
            if k > 0 {
                assert forall|j: int| 0 <= j < k - 1 implies typecheck::expr_verdict(
                    fr,
                    vars,
                    #[trigger] args@[j],
                ) is Ok by {
                    assert(ps[j + 1] == args@[j]);
                }
                lemma_first_of_list(fr, vars, args@, 0, k - 1);
            }
        },
        Expr::StructLiteral { fields, .. } => {
            assert forall|j: int| 0 <= j < k implies typecheck::expr_verdict(
                fr,
                vars,
                (#[trigger] fields@[j]).value,
            ) is Ok by {
                assert(ps[j] == fields@[j].value);
            }
            lemma_first_of_fields(fr, vars, fields@, 0, k);
        },
        _ => {},
    }
}

/// Of an assignment, the fault of the target goes first, then that of the value, and
/// then that of putting the one into the other.
pub proof fn law_first_fault_of_assignment(
    fr: typecheck::Frame,
    vars: values::Vars,
    e: Spanned<Expr>,
)
    requires
        e.node is AssignmentExpr,
    ensures
        e.node matches Expr::AssignmentExpr { target, value } && (match (
            typecheck::target_verdict(vars, *target),
            typecheck::expr_verdict(fr, vars, *value),
        ) {
            (Err(f), _) => typecheck::expr_verdict(fr, vars, e) == refused(f),
            (Ok(_), Err(f)) => typecheck::expr_verdict(fr, vars, e) == refused(f),
            (Ok(_), Ok(_)) => typecheck::expr_verdict(fr, vars, e) == values::cast_verdict(
                fr.known,
                vars,
                values::place_type(fr.known, vars, *target),
                *value,
            ),
        }),
{
}

// ---------------------------------------------------------------------------
// Statements
// ---------------------------------------------------------------------------

/// A fault in place of scopes.
pub open spec fn stopped(f: error::Fault) -> Result<values::Vars, error::Fault> {
    Err(f)
}

/// The faults of the expressions of a statement are told before those in the statements
/// inside it: that of the expression itself, and then that of its type.
pub proof fn law_own_fault_first(fr: typecheck::Frame, vars: values::Vars, s: Spanned<Stmt>, f: error::Fault)
    ensures
        nested::expressions_of(s).len() > 0 && typecheck::expr_verdict(
            fr,
            vars,
            nested::expressions_of(s)[0],
        ) == refused(f) ==> typecheck::stmt_verdict(fr, vars, s) == stopped(f),
        s.node matches Stmt::LetStmt { ty, value, .. } ==> typecheck::expr_verdict(fr, vars, value) is Ok
            && values::cast_verdict(fr.known, vars, Some(ty@), value) == refused(f)
            ==> typecheck::stmt_verdict(fr, vars, s) == stopped(f),
        s.node matches Stmt::ReturnStmt { value: Some(value) } ==> typecheck::expr_verdict(
            fr,
            vars,
            value,
        ) is Ok && values::cast_verdict(fr.known, vars, fr.ret, value) == refused(f)
            ==> typecheck::stmt_verdict(fr, vars, s) == stopped(f),
        s.node matches Stmt::IfStmt { condition, .. } ==> typecheck::expr_verdict(fr, vars, condition) is Ok
            && values::condition_verdict(fr.known, vars, "if"@, condition) == refused(f)
            ==> typecheck::stmt_verdict(fr, vars, s) == stopped(f),
        s.node matches Stmt::WhileStmt { condition, .. } ==> typecheck::expr_verdict(
            fr,
            vars,
            condition,
        ) is Ok && values::condition_verdict(fr.known, vars, "while"@, condition) == refused(f)
            ==> typecheck::stmt_verdict(fr, vars, s) == stopped(f),
{
}

/// Of a list of statements the first fault is told.
pub proof fn law_first_fault_of_list(
    fr: typecheck::Frame,
    vars: values::Vars,
    ss: Seq<Spanned<Stmt>>,
    i: int,
    k: int,
    f: error::Fault,
)
    requires
        0 <= i <= k < ss.len(),
        forall|j: int|
            i <= j < k ==> typecheck::stmt_verdict(
                fr,
                nested::scopes_at(vars, ss, j),
                #[trigger] ss[j],
            ) is Ok,
        typecheck::stmt_verdict(fr, nested::scopes_at(vars, ss, k), ss[k]) == stopped(f),
    ensures
        typecheck::stmts_verdict(fr, nested::scopes_at(vars, ss, i), ss, i) == stopped(f),
    decreases k - i,
{
    if i < k {
        assert(typecheck::stmt_verdict(fr, nested::scopes_at(vars, ss, i), ss[i]) is Ok);
        nested::law_scopes_after(fr, nested::scopes_at(vars, ss, i), ss[i]);
        law_first_fault_of_list(fr, vars, ss, i + 1, k, f);
    }
}

/// Of a loop, the first fault in its body is told, once its head is in order.
pub proof fn law_first_fault_of_loop(
    fr: typecheck::Frame,
    vars: values::Vars,
    s: Spanned<Stmt>,
    k: int,
    f: error::Fault,
)
    requires
        s.node is WhileStmt || s.node is ForStmt,
        nested::sound(fr, vars, s),
        nested::has_inner(vars, s, 0, k),
        forall|j: int|
            0 <= j < k ==> typecheck::stmt_verdict(
                fr,
                nested::inner_scopes(vars, s, 0, j),
                #[trigger] nested::inner_lists(vars, s)[0].list[j],
            ) is Ok,
        typecheck::stmt_verdict(
            fr,
            nested::inner_scopes(vars, s, 0, k),
            nested::inner_stmt(vars, s, 0, k),
        ) == stopped(f),
    ensures
        typecheck::stmt_verdict(fr, vars, s) == stopped(f),
{
    let inner = nested::inner_lists(vars, s)[0];
    law_first_fault_of_list(fr, inner.vars, inner.list, 0, k, f);
    assert(nested::expressions_of(s).len() == 1);
    assert(typecheck::expr_verdict(fr, vars, nested::expressions_of(s)[0]) is Ok);
    if let Stmt::WhileStmt { body, .. } = s.node {
        assert(typecheck::block_verdict(fr, vars, body) == stopped(f));
    }
}

proof fn lemma_fault_in_list(
    fr: typecheck::Frame,
    vars: values::Vars,
    ss: Seq<Spanned<Stmt>>,
    i: int,
    f: error::Fault,
) -> (k: int)
    requires
        0 <= i <= ss.len(),
        typecheck::stmts_verdict(fr, nested::scopes_at(vars, ss, i), ss, i) == stopped(f),
    ensures
        i <= k < ss.len(),
        typecheck::stmt_verdict(fr, nested::scopes_at(vars, ss, k), ss[k]) == stopped(f),
    decreases ss.len() - i,
{
    if typecheck::stmt_verdict(fr, nested::scopes_at(vars, ss, i), ss[i]) is Ok {
        nested::law_scopes_after(fr, nested::scopes_at(vars, ss, i), ss[i]);
        lemma_fault_in_list(fr, vars, ss, i + 1, f)
    } else {
        i
    }
}

/// Whether a statement directly in another one is refused for this.
pub open spec fn inner_fault(
    fr: typecheck::Frame,
    vars: values::Vars,
    s: Spanned<Stmt>,
    f: error::Fault,
) -> bool {
    exists|i: int, k: int| #[trigger]
        nested::has_inner(vars, s, i, k) && typecheck::stmt_verdict(
            fr,
            nested::inner_scopes(vars, s, i, k),
            nested::inner_stmt(vars, s, i, k),
        ) == stopped(f)
}

proof fn lemma_fault_in_inner(
    fr: typecheck::Frame,
    vars: values::Vars,
    s: Spanned<Stmt>,
    i: int,
    f: error::Fault,
)
    requires
        0 <= i < nested::inner_lists(vars, s).len(),
        typecheck::stmts_verdict(
            fr,
            nested::inner_lists(vars, s)[i].vars,
            nested::inner_lists(vars, s)[i].list,
            0,
        ) == stopped(f),
    ensures
        inner_fault(fr, vars, s, f),
{
    let inner = nested::inner_lists(vars, s)[i];
    let k = lemma_fault_in_list(fr, inner.vars, inner.list, 0, f);
    assert(nested::has_inner(vars, s, i, k));
}

proof fn lemma_fault_in_arms(
    fr: typecheck::Frame,
    vars: values::Vars,
    s: Spanned<Stmt>,
    arms: Seq<MatchArm>,
    i: int,
    f: error::Fault,
)
    requires
        s.node matches Stmt::MatchStmt { arms: v, .. } && v@ == arms,
        0 <= i <= arms.len(),
        typecheck::arms_verdict(fr, vars, arms, i) == stopped(f),
    ensures
        inner_fault(fr, vars, s, f),
    decreases arms.len() - i,
{
    nested::lemma_arm(fr, vars, arms[i]);
    let names = typecheck::bound_names(arms[i].pattern);
    nested::lemma_naming(scopes::entered(vars), names, 0);
    let inner = nested::arm_inner(vars, arms[i]);
    assert(nested::inner_lists(vars, s)[i] == inner);
    match typecheck::stmts_verdict(fr, inner.vars, inner.list, 0) {
        Err(g) => lemma_fault_in_inner(fr, vars, s, i, g),
        Ok(_) => lemma_fault_in_arms(fr, vars, s, arms, i + 1, f),
    }
}

/// A statement that is in order itself is refused for what a statement in it is refused
/// for.
pub proof fn law_fault_comes_from_inside(
    fr: typecheck::Frame,
    vars: values::Vars,
    s: Spanned<Stmt>,
    f: error::Fault,
)
    requires
        nested::sound(fr, vars, s),
        typecheck::stmt_verdict(fr, vars, s) == stopped(f),
    ensures
        inner_fault(fr, vars, s, f),
{
    let lists = nested::inner_lists(vars, s);
    if nested::expressions_of(s).len() > 0 {
        assert(typecheck::expr_verdict(fr, vars, nested::expressions_of(s)[0]) is Ok);
    }
    match s.node {
        Stmt::IfStmt { condition, then_block, else_branch } => {
            checker::law_block_leaves_no_trace(fr, vars, then_block);
            match typecheck::block_verdict(fr, vars, then_block) {
                Err(g) => lemma_fault_in_inner(fr, vars, s, 0, g),
                Ok(_) => match else_branch {
                    Some(ElseBranch::Block(block)) => {
                        assert(typecheck::block_verdict(fr, vars, block) == stopped(f));
                        lemma_fault_in_inner(fr, vars, s, 1, f);
                    },
                    Some(ElseBranch::IfStmt(inner)) => {
                        assert(lists[1].list[0] == *inner);
                        assert(nested::scopes_at(vars, lists[1].list, 0) == vars);
                        assert(nested::has_inner(vars, s, 1, 0));
                    },
                    None => {},
                },
            }
        },
        Stmt::ForStmt { .. } => lemma_fault_in_inner(fr, vars, s, 0, f),
        Stmt::WhileStmt { body, .. } => {
            assert(typecheck::block_verdict(fr, vars, body) == stopped(f));
            lemma_fault_in_inner(fr, vars, s, 0, f);
        },
        Stmt::MatchStmt { arms, .. } => lemma_fault_in_arms(fr, vars, s, arms@, 0, f),
        _ => {},
    }
}

// ---------------------------------------------------------------------------
// Names of functions
// ---------------------------------------------------------------------------

/// Whether two functions of a list have this name.
pub open spec fn twice(items: Seq<Spanned<Item>>, i: int, j: int, name: Seq<char>) -> bool {
    &&& 0 <= i < j < items.len()
    &&& items[i].node matches Item::FnDecl { name: a, .. } && a@ == name
    &&& items[j].node matches Item::FnDecl { name: b, .. } && b@ == name
}

/// Names are refused only where a function is declared twice, and that name is told.
pub proof fn law_only_overloading_is_refused(items: Seq<Spanned<Item>>, from: int)
    requires
        0 <= from,
    ensures
        typecheck::names_verdict(items, from) matches Err(f) ==> exists|i: int, j: int, name: Seq<char>| #[trigger]
            twice(items, i, j, name) && f == error::Fault::Type(
                "function "@ + name + " is declared twice; overloading is not allowed"@,
            ),
    decreases items.len() - from,
{
    if from < items.len() {
        match items[from].node {
            Item::FnDecl { name, .. } => {
                if typecheck::named_before(items, name@, from) {
                    let k = choose|k: int|
                        0 <= k < from && k < items.len() && ((
                        #[trigger] items[k]).node matches Item::FnDecl { name: n, .. } && n@
                            == name@);
                    assert(twice(items, k, from, name@));
                } else {
                    law_only_overloading_is_refused(items, from + 1);
                }
            },
            _ => law_only_overloading_is_refused(items, from + 1),
        }
    }
}

/// Whether a method of an item has the `C` name of another one.
pub open spec fn collision(
    known: aliases::Known,
    items: Seq<Spanned<Item>>,
    a: int,
    k: int,
    b: int,
    l: int,
) -> bool {
    &&& 0 <= a <= b < items.len()
    &&& a == b ==> k < l
    &&& checker::is_method(items[a].node, k)
    &&& checker::is_method(items[b].node, l)
    &&& checker::becomes(known, items[a].node, k) == checker::becomes(known, items[b].node, l)
}

/// Whether a method before the `l`-th one of item `b` becomes this function.
pub open spec fn met(
    known: aliases::Known,
    items: Seq<Spanned<Item>>,
    b: int,
    l: int,
    called: Seq<char>,
) -> bool {
    exists|a: int, k: int| #[trigger] met_at(known, items, b, l, a, k, called)
}

/// Whether the `k`-th method of item `a` does, and stands before that.
pub open spec fn met_at(
    known: aliases::Known,
    items: Seq<Spanned<Item>>,
    b: int,
    l: int,
    a: int,
    k: int,
    called: Seq<char>,
) -> bool {
    &&& 0 <= a < items.len()
    &&& a < b || a == b && k < l
    &&& checker::is_method(items[a].node, k)
    &&& checker::becomes(known, items[a].node, k) == called
}

/// Whether two methods collide, and this tells of it.
pub open spec fn collide(known: aliases::Known, items: Seq<Spanned<Item>>, f: error::Fault) -> bool {
    exists|a: int, k: int, b: int, l: int| #[trigger]
        collision(known, items, a, k, b, l) && f == error::Fault::Type(
            "two methods become the function "@ + checker::becomes(known, items[b].node, l),
        )
}

proof fn lemma_block(
    known: aliases::Known,
    items: Seq<Spanned<Item>>,
    b: int,
    owner: Seq<char>,
    methods: Seq<Spanned<Item>>,
    l: int,
    taken: Set<Seq<char>>,
)
    requires
        0 <= b < items.len(),
        items[b].node matches Item::ImplDecl { target, methods: m } && m@ == methods
            && aliases::meant_name(known, target@) == owner,
        0 <= l <= methods.len(),
        forall|c: Seq<char>| #[trigger] taken.contains(c) ==> met(known, items, b, l, c),
    ensures
        match typecheck::block_taken(owner, methods, l, taken) {
            Err(f) => collide(known, items, f),
            Ok(after) => forall|c: Seq<char>| #[trigger]
                after.contains(c) ==> met(known, items, b + 1, 0, c),
        },
    decreases methods.len() - l,
{
    if l < methods.len() {
        match methods[l].node {
            Item::FnDecl { name, .. } => {
                let called = checker::becomes(known, items[b].node, l);
                assert(checker::is_method(items[b].node, l));
                if taken.contains(called) {
                    let (a, k) = choose|a: int, k: int| #[trigger]
                        met_at(known, items, b, l, a, k, called);
                    assert(collision(known, items, a, k, b, l));
                } else {
                    assert forall|c: Seq<char>| #[trigger] taken.insert(called).contains(c) implies met(
                        known,
                        items,
                        b,
                        l + 1,
                        c,
                    ) by {
                        if c == called {
                            assert(met_at(known, items, b, l + 1, b, l, c));
                        } else {
                            assert(taken.contains(c));
                            let (a, k) = choose|a: int, k: int| #[trigger]
                                met_at(known, items, b, l, a, k, c);
                            assert(met_at(known, items, b, l + 1, a, k, c));
                        }
                    }
                    lemma_block(known, items, b, owner, methods, l + 1, taken.insert(called));
                }
            },
            _ => {
                assert forall|c: Seq<char>| #[trigger] taken.contains(c) implies met(
                    known,
                    items,
                    b,
                    l + 1,
                    c,
                ) by {
                    let (a, k) = choose|a: int, k: int| #[trigger]
                        met_at(known, items, b, l, a, k, c);
                    assert(met_at(known, items, b, l + 1, a, k, c));
                }
                lemma_block(known, items, b, owner, methods, l + 1, taken);
            },
        }
    } else {
        assert forall|c: Seq<char>| #[trigger] taken.contains(c) implies met(
            known,
            items,
            b + 1,
            0,
            c,
        ) by {
            let (a, k) = choose|a: int, k: int| #[trigger] met_at(known, items, b, l, a, k, c);
            assert(met_at(known, items, b + 1, 0, a, k, c));
        }
    }
}

/// Methods are refused only where two of them become one function, and that is told.
pub proof fn law_only_collisions_are_refused(
    known: aliases::Known,
    items: Seq<Spanned<Item>>,
    b: int,
    taken: Set<Seq<char>>,
)
    requires
        0 <= b <= items.len(),
        forall|c: Seq<char>| #[trigger] taken.contains(c) ==> met(known, items, b, 0, c),
    ensures
        typecheck::methods_taken(known, items, b, taken) matches Err(f) ==> collide(known, items, f),
    decreases items.len() - b,
{
    if b < items.len() {
        match items[b].node {
            Item::ImplDecl { target, methods } => {
                let owner = aliases::meant_name(known, target@);
                lemma_block(known, items, b, owner, methods@, 0, taken);
                if let Ok(after) = typecheck::block_taken(owner, methods@, 0, taken) {
                    law_only_collisions_are_refused(known, items, b + 1, after);
                }
            },
            _ => {
                assert forall|c: Seq<char>| #[trigger] taken.contains(c) implies met(
                    known,
                    items,
                    b + 1,
                    0,
                    c,
                ) by {
                    let (a, k) = choose|a: int, k: int| #[trigger]
                        met_at(known, items, b, 0, a, k, c);
                    assert(met_at(known, items, b + 1, 0, a, k, c));
                }
                law_only_collisions_are_refused(known, items, b + 1, taken);
            },
        }
    }
}

// ---------------------------------------------------------------------------
// Programs
// ---------------------------------------------------------------------------

/// Whether a function is declared twice in a list.
pub open spec fn overloads(items: Seq<Spanned<Item>>) -> bool {
    exists|i: int, j: int, name: Seq<char>| twice(items, i, j, name)
}

/// Whether a method is declared twice in an `impl` block.
pub open spec fn overloads_method(item: Item) -> bool {
    item matches Item::ImplDecl { methods, .. } && overloads(methods@)
}

proof fn lemma_blocks(items: Seq<Spanned<Item>>, i: int)
    requires
        0 <= i,
        forall|k: int| 0 <= k < items.len() ==> !overloads_method((#[trigger] items[k]).node),
    ensures
        typecheck::method_names_verdict(items, i) is Ok,
    decreases items.len() - i,
{
    if i < items.len() {
        assert(!overloads_method(items[i].node));
        if let Item::ImplDecl { methods, .. } = items[i].node {
            law_only_overloading_is_refused(methods@, 0);
        }
        lemma_blocks(items, i + 1);
    }
}

/// Nothing is refused without a reason: a program without overloading, in which each
/// method becomes a function of its own and every function and method is in order, is
/// accepted.
pub proof fn law_accepted(program: Program)
    requires
        !overloads(program.items@),
        forall|k: int|
            0 <= k < program.items@.len() ==> !overloads_method((#[trigger] program.items@[k]).node),
        forall|a: int, k: int, b: int, l: int|
            !#[trigger] collision(
                aliases::of_items(program.items@),
                program.items@,
                a,
                k,
                b,
                l,
            ),
        forall|j: int|
            0 <= j < program.items@.len() ==> checker::item_in_order(
                declared::of_items(program.items@),
                (#[trigger] program.items@[j]).node,
            ),
    ensures
        typecheck::program_verdict(program) is Ok,
{
    let items = program.items@;
    law_only_overloading_is_refused(items, 0);
    lemma_blocks(items, 0);
    law_only_collisions_are_refused(aliases::of_items(items), items, 0, Set::empty());
    checker::law_functions_are_judged_alone(declared::of_items(items), items);
}

/// Faults in names are told before those in functions: first of the functions, then of
/// the methods of a block, then of methods that become one function.
pub proof fn law_names_first(program: Program, f: error::Fault)
    ensures
        ({
            let items = program.items@;
            let taken = typecheck::methods_taken(aliases::of_items(items), items, 0, Set::empty());
            &&& typecheck::names_verdict(items, 0) == refused(f) ==> typecheck::program_verdict(program)
                == refused(f)
            &&& typecheck::names_verdict(items, 0) is Ok && typecheck::method_names_verdict(items, 0)
                == refused(f) ==> typecheck::program_verdict(program) == refused(f)
            &&& typecheck::names_verdict(items, 0) is Ok && typecheck::method_names_verdict(items, 0) is Ok
                && taken == Err::<Set<Seq<char>>, error::Fault>(f) ==> typecheck::program_verdict(program)
                == refused(f)
        }),
{
}

} // verus!
