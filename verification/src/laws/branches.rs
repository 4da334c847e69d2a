//! The generator: the lines of C that a loop over a collection and a `match` become.

use vstd::prelude::*;

use crate::ast;
use crate::ast::{Expr, MatchArm, Pattern, Stmt};
use crate::codegen::exprs;
use crate::codegen::model;
use crate::codegen::stmts;
use crate::error;
use crate::laws::lines;
use crate::source::Spanned;
use crate::text;

verus! {

/// A state that was reached.
pub open spec fn reached(st: model::State) -> model::Outcome<model::State> {
    Ok(st)
}

// ---------------------------------------------------------------------------
// Temporaries
// ---------------------------------------------------------------------------

/// What parts are read from: a variable under its own name, `self` through its pointer
/// where it is one, and any other value through a temporary that holds it.
pub proof fn law_bound(
    st: model::State,
    e: Spanned<Expr>,
    ty: model::Outcome<Seq<char>>,
    kind: Seq<char>,
)
    ensures
        match e.node {
            Expr::Identifier { name } => stmts::bound_c(st, e, ty, kind) == Ok::<
                (model::State, Seq<char>),
                error::Fault,
            >(
                (
                    st,
                    if st.ctx.mut_self && name@ == "self"@ {
                        "(*self)"@
                    } else {
                        name@
                    },
                ),
            ),
            _ => match (ty, exprs::expr_c(st.ctx, e)) {
                (Err(f), _) => stmts::bound_c(st, e, ty, kind) == Err::<
                    (model::State, Seq<char>),
                    error::Fault,
                >(f),
                (Ok(_), Err(f)) => stmts::bound_c(st, e, ty, kind) == Err::<
                    (model::State, Seq<char>),
                    error::Fault,
                >(f),
                (Ok(t), Ok(c)) => {
                    let temp = lines::next_temp(st, kind);
                    stmts::bound_c(st, e, ty, kind) == Ok::<(model::State, Seq<char>), error::Fault>(
                        (
                            lines::wrote(
                                lines::counted(st),
                                t + " "@ + temp + " = "@ + c.text + ";"@,
                                c.tls,
                            ),
                            temp,
                        ),
                    )
                },
            },
        },
{
}

// ---------------------------------------------------------------------------
// Loops over collections
// ---------------------------------------------------------------------------

/// What a loop goes through: the elements of a slice, vector or array, so many times as
/// it is long; nothing else can be gone through.
pub proof fn law_what_a_loop_goes_through(name: Seq<char>, args: Seq<ast::Type>, source: Seq<char>)
    ensures
        (name == "Slice"@ || name == "Vec"@) && args.len() == 1 ==> stmts::loop_over(
            name,
            args,
            source,
        ) == Ok::<(ast::Type, Seq<char>, bool), error::Fault>((args[0], source + ".len"@, true)),
        name == "Array"@ && args.len() == 2 ==> (match args[1] {
            ast::Type::Const { value } => stmts::loop_over(name, args, source) == Ok::<
                (ast::Type, Seq<char>, bool),
                error::Fault,
            >((args[0], value, false)),
            ast::Type::Named { name: n, .. } => stmts::loop_over(name, args, source) == Err::<
                (ast::Type, Seq<char>, bool),
                error::Fault,
            >(
                error::Fault::Codegen(
                    "Array length"@ + " must be a constant integer, got type "@ + n,
                ),
            ),
        }),
        !((name == "Slice"@ || name == "Vec"@) && args.len() == 1) && !(name == "Array"@ && args.len()
            == 2) ==> stmts::loop_over(name, args, source) == Err::<
            (ast::Type, Seq<char>, bool),
            error::Fault,
        >(
            error::Fault::Codegen(
                "C backend only supports for-in over Slice<T> or Array<T, N>, got "@ + name
                    + "<...>"@,
            ),
        ),
{
    reveal_strlit("Array");
    reveal_strlit("Slice");
    reveal_strlit("Vec");
    assert("Array"@.len() == 5 && "Array"@[0] == 'A' && "Slice"@[0] == 'S' && "Vec"@.len() == 3);
}

/// The lines of a loop over a collection: an index runs from zero below the length,
/// which is read once ahead where a variable could change it, and the loop's variable
/// is the element at the index.
pub proof fn law_collection_loop_lines(
    st: model::State,
    s: Spanned<Stmt>,
    name: Seq<char>,
    args: Seq<ast::Type>,
    begun: model::State,
    source: Seq<char>,
    element: ast::Type,
    count: Seq<char>,
    changes: bool,
    t: Seq<char>,
)
    requires
        s.node matches Stmt::ForStmt { iterable, .. } && !(iterable.node is RangeExpr)
            && exprs::receiver_type(st.ctx, iterable) == Some(ast::Type::Named { name, args })
            && stmts::bound_c(
            st,
            iterable,
            model::type_c(st.ctx.decls, ast::Type::Named { name, args }),
            "it"@,
        ) == Ok::<(model::State, Seq<char>), error::Fault>((begun, source)),
        stmts::loop_over(name, args, source) == Ok::<(ast::Type, Seq<char>, bool), error::Fault>(
            (element, count, changes),
        ),
        model::type_c(st.ctx.decls, element) == Ok::<Seq<char>, error::Fault>(t),
    ensures
        s.node matches Stmt::ForStmt { iterator, iterable, body } && ({
            let index = lines::next_temp(begun, "i"@);
            let once = lines::counted(begun);
            let limit = lines::next_temp(once, "n"@);
            let head = if changes && iterable.node is Identifier {
                lines::wrote(
                    lines::counted(once),
                    "for (size_t "@ + index + " = 0, "@ + limit + " = "@ + count + "; "@ + index
                        + " < "@ + limit + "; "@ + index + "++) {"@,
                    false,
                )
            } else {
                lines::wrote(
                    once,
                    "for (size_t "@ + index + " = 0; "@ + index + " < "@ + count + "; "@ + index
                        + "++) {"@,
                    false,
                )
            };
            let inner = lines::wrote(
                lines::knows(lines::scope_more(lines::deeper(head)), iterator@, element),
                t + " "@ + iterator@ + " = "@ + source + ".data["@ + index + "];"@,
                false,
            );
            match stmts::stmts_c(inner, body.statements@, 0) {
                Err(f) => stmts::stmt_c(st, s) == lines::fault(f),
                Ok(after) => stmts::stmt_c(st, s) == reached(
                    lines::wrote(
                        lines::back(lines::scope_less(after), begun.pad),
                        "}"@,
                        false,
                    ),
                ),
            }
        }),
{
    assert(stmts::stmt_c(st, s) == stmts::for_each_c(st, s));
    if let Stmt::ForStmt { iterator, iterable, body } = s.node {
        let index = lines::next_temp(begun, "i"@);
        let once = lines::counted(begun);
        let limit = lines::next_temp(once, "n"@);
        let head = stmts::loop_head_c(once, index, limit, count, changes && iterable.node is Identifier);
        lines::law_steps(
            lines::scope_more(lines::deeper(head)),
            ""@,
            iterator@,
            element,
            ""@,
        );
    }
}

/// What keeps a loop over a collection from being written is told: that what it goes
/// through cannot be rendered or gone through, or that its elements have no C.
pub proof fn law_collection_loop_faults(
    st: model::State,
    s: Spanned<Stmt>,
    name: Seq<char>,
    args: Seq<ast::Type>,
)
    requires
        s.node matches Stmt::ForStmt { iterable, .. } && !(iterable.node is RangeExpr)
            && exprs::receiver_type(st.ctx, iterable) == Some(ast::Type::Named { name, args }),
    ensures
        s.node matches Stmt::ForStmt { iterable, .. } && (match stmts::bound_c(
            st,
            iterable,
            model::type_c(st.ctx.decls, ast::Type::Named { name, args }),
            "it"@,
        ) {
            Err(f) => stmts::stmt_c(st, s) == lines::fault(f),
            Ok(pair) => match stmts::loop_over(name, args, pair.1) {
                Err(f) => stmts::stmt_c(st, s) == lines::fault(f),
                Ok(over) => model::type_c(st.ctx.decls, over.0) matches Err(f) ==> stmts::stmt_c(st, s)
                    == lines::fault(f),
            },
        }),
{
    assert(stmts::stmt_c(st, s) == stmts::for_each_c(st, s));
}

/// A loop over a value whose type is not known is told.
pub proof fn law_unknown_loop(st: model::State, s: Spanned<Stmt>)
    requires
        s.node matches Stmt::ForStmt { iterable, .. } && !(iterable.node is RangeExpr)
            && exprs::receiver_type(st.ctx, iterable) is None,
    ensures
        stmts::stmt_c(st, s) == lines::fault(
            error::Fault::Codegen(
                "for-in iterable has an unknown type (annotate it or bind it to a variable first)"@,
            ),
        ),
{
    assert(stmts::stmt_c(st, s) == stmts::for_each_c(st, s));
}

// ---------------------------------------------------------------------------
// Which kind of match
// ---------------------------------------------------------------------------

/// Which kind of match: numbers, strings and enums without payloads are compared,
/// enums with payloads go by their tag, options and results by which of the two they
/// are. No other type can be matched on.
pub proof fn law_kinds_of_match(st: model::State, s: Spanned<Stmt>)
    requires
        s.node is MatchStmt,
    ensures
        s.node matches Stmt::MatchStmt { value, .. } && (match exprs::receiver_type(st.ctx, value) {
            Some(ast::Type::Named { name, args }) => if name == "i32"@ || name == "String"@ || name
                == "Str"@ || (st.ctx.decls.enums.contains(name) && !model::has_payload(
                st.ctx.decls,
                name,
            )) {
                stmts::stmt_c(st, s) == stmts::literal_match_c(st, s, name)
            } else if model::has_payload(st.ctx.decls, name) {
                stmts::stmt_c(st, s) == stmts::tagged_match_c(st, s, name)
            } else if name == "Option"@ && args.len() == 1 || name == "Result"@ && args.len() == 2 {
                stmts::stmt_c(st, s) == stmts::option_match_c(st, s, name, args)
            } else {
                stmts::stmt_c(st, s) == lines::fault(
                    error::Fault::Codegen("match supports Option<T> / Result<T, E>, got "@ + name),
                )
            },
            _ => stmts::stmt_c(st, s) == lines::fault(
                error::Fault::Codegen(
                    "match scrutinee has an unknown type (annotate it or bind it to a variable first)"@,
                ),
            ),
        }),
{
    assert(stmts::stmt_c(st, s) == stmts::match_c(st, s));
}

// ---------------------------------------------------------------------------
// Comparing matches
// ---------------------------------------------------------------------------

/// Whether something is called, assigned or made in an expression, so that it must not
/// be evaluated twice.
pub open spec fn once_only(e: Spanned<Expr>) -> bool
    decreases e,
{
    match e.node {
        Expr::AssignmentExpr { .. } => true,
        Expr::CallExpr { .. } => true,
        Expr::ArrayLiteral { .. } => true,
        Expr::StructLiteral { .. } => true,
        Expr::RangeExpr { .. } => true,
        Expr::UnaryExpr { value, .. } => once_only(*value),
        Expr::BinaryExpr { left, right, .. } => once_only(*left) || once_only(*right),
        Expr::FieldAccessExpr { object, .. } => once_only(*object),
        Expr::IndexExpr { object, index } => once_only(*object) || once_only(*index),
        _ => false,
    }
}

proof fn lemma_once_only(e: Spanned<Expr>)
    ensures
        stmts::steady(e) == !once_only(e),
    decreases e,
{
    match e.node {
        Expr::UnaryExpr { value, .. } => lemma_once_only(*value),
        Expr::BinaryExpr { left, right, .. } => {
            lemma_once_only(*left);
            lemma_once_only(*right);
        },
        Expr::FieldAccessExpr { object, .. } => lemma_once_only(*object),
        Expr::IndexExpr { object, index } => {
            lemma_once_only(*object);
            lemma_once_only(*index);
        },
        _ => {},
    }
}

/// What is compared: the value as it stands, or a temporary that holds it where it must
/// not be evaluated twice.
pub proof fn law_compared(st: model::State, value: Spanned<Expr>, ty_name: Seq<char>)
    ensures
        once_only(value) ==> stmts::compared_c(st, value, ty_name) == stmts::bound_c(
            st,
            value,
            model::type_c(st.ctx.decls, ast::Type::Named { name: ty_name, args: Seq::empty() }),
            "m"@,
        ),
        !once_only(value) ==> (match exprs::expr_c(st.ctx, value) {
            Ok(c) => stmts::compared_c(st, value, ty_name) == Ok::<
                (model::State, Seq<char>),
                error::Fault,
            >((model::State { tls: st.tls || c.tls, ..st }, c.text)),
            Err(f) => stmts::compared_c(st, value, ty_name) == Err::<
                (model::State, Seq<char>),
                error::Fault,
            >(f),
        }),
{
    lemma_once_only(value);
}

/// A condition, where there is one.
pub open spec fn when(c: Seq<char>) -> model::Outcome<Option<Seq<char>>> {
    Ok(Some(c))
}

/// When a pattern applies to what is compared: a literal where the two are equal, by
/// contents for strings; a range where it lies within; a variant where it has its
/// number. A wildcard has no condition.
pub proof fn law_conditions(
    d: model::Decls,
    p: Pattern,
    x: Seq<char>,
    is_string: bool,
    ty_name: Seq<char>,
)
    ensures
        p matches Pattern::LiteralPattern { value } ==> stmts::cond_c(d, p, x, is_string, ty_name)
            == when(
            if is_string {
                "strcmp("@ + x + ", \""@ + value@ + "\") == 0"@
            } else {
                x + " == "@ + value@
            },
        ),
        p matches Pattern::RangePattern { start, end, inclusive } ==> stmts::cond_c(
            d,
            p,
            x,
            is_string,
            ty_name,
        ) == if is_string {
            Err(error::Fault::Codegen("range pattern not supported in match on "@ + ty_name))
        } else if inclusive {
            when("("@ + x + " >= "@ + start@ + " && "@ + x + " <= "@ + end@ + ")"@)
        } else {
            when("("@ + x + " >= "@ + start@ + " && "@ + x + " < "@ + end@ + ")"@)
        },
        p matches Pattern::VariantPattern { name, .. } ==> stmts::cond_c(d, p, x, is_string, ty_name)
            == if d.values.dom().contains(name@) {
            when(x + " == "@ + text::dec_int(d.values[name@] as int))
        } else {
            Err(
                error::Fault::Codegen(
                    "variant pattern "@ + error::debug_text(name@)
                        + " not supported in literal match on "@ + ty_name,
                ),
            )
        },
        p is WildcardPattern ==> stmts::cond_c(d, p, x, is_string, ty_name) == Ok::<
            Option<Seq<char>>,
            error::Fault,
        >(None),
{
}

/// Alternatives apply where one of them does: their conditions are joined by `||`. One
/// that has no condition adds none.
pub proof fn law_alternative_conditions(
    d: model::Decls,
    p: Pattern,
    ps: Seq<Pattern>,
    n: int,
    x: Seq<char>,
    is_string: bool,
    ty_name: Seq<char>,
)
    requires
        p matches Pattern::OrPattern { alternatives } && alternatives@ == ps,
        0 <= n < ps.len(),
    ensures
        match stmts::conds_c(d, ps, ps.len() as int, x, is_string, ty_name) {
            Ok(parts) => stmts::cond_c(d, p, x, is_string, ty_name) == if parts.len() == 0 {
                Ok(None)
            } else {
                when(text::joined(parts, " || "@))
            },
            Err(f) => stmts::cond_c(d, p, x, is_string, ty_name) == Err::<
                Option<Seq<char>>,
                error::Fault,
            >(f),
        },
        stmts::conds_c(d, ps, 0, x, is_string, ty_name) == Ok::<Seq<Seq<char>>, error::Fault>(
            Seq::empty(),
        ),
        match (
            stmts::conds_c(d, ps, n, x, is_string, ty_name),
            stmts::cond_c(d, ps[n], x, is_string, ty_name),
        ) {
            (Ok(parts), Ok(Some(c))) => stmts::conds_c(d, ps, n + 1, x, is_string, ty_name) == Ok::<
                Seq<Seq<char>>,
                error::Fault,
            >(parts.push(c)),
            (Ok(parts), Ok(None)) => stmts::conds_c(d, ps, n + 1, x, is_string, ty_name) == Ok::<
                Seq<Seq<char>>,
                error::Fault,
            >(parts),
            (Err(f), _) => stmts::conds_c(d, ps, n + 1, x, is_string, ty_name) == Err::<
                Seq<Seq<char>>,
                error::Fault,
            >(f),
            (Ok(_), Err(f)) => stmts::conds_c(d, ps, n + 1, x, is_string, ty_name) == Err::<
                Seq<Seq<char>>,
                error::Fault,
            >(f),
        },
{
    reveal_with_fuel(stmts::conds_c, 2);
}

/// A chain of branches.
pub open spec fn chained(ch: stmts::Chain) -> model::Outcome<stmts::Chain> {
    Ok(ch)
}

/// No chain.
pub open spec fn unchained(f: error::Fault) -> model::Outcome<stmts::Chain> {
    Err(f)
}

/// The arms of a comparing match, one by one: an arm with a condition is the next branch
/// of the chain, with its body inside, in a scope of its own; one without takes the
/// rest.
pub proof fn law_compared_arms(
    ch: stmts::Chain,
    arms: Seq<MatchArm>,
    i: int,
    x: Seq<char>,
    is_string: bool,
    ty_name: Seq<char>,
)
    requires
        0 <= i <= arms.len(),
    ensures
        i == arms.len() ==> stmts::literal_arms_c(ch, arms, i, x, is_string, ty_name) == chained(ch),
        i < arms.len() ==> (match stmts::cond_c(
            ch.st.ctx.decls,
            arms[i].pattern,
            x,
            is_string,
            ty_name,
        ) {
            Err(f) => stmts::literal_arms_c(ch, arms, i, x, is_string, ty_name) == unchained(f),
            Ok(None) => stmts::literal_arms_c(ch, arms, i, x, is_string, ty_name)
                == stmts::literal_arms_c(
                stmts::Chain { st: ch.st, first: ch.first, rest: Some(i) },
                arms,
                i + 1,
                x,
                is_string,
                ty_name,
            ),
            Ok(Some(c)) => {
                let head = lines::wrote(
                    ch.st,
                    (if ch.first {
                        "if ("@
                    } else {
                        "} else if ("@
                    }) + c + ") {"@,
                    false,
                );
                match stmts::stmts_c(
                    lines::scope_more(lines::deeper(head)),
                    arms[i].body.statements@,
                    0,
                ) {
                    Err(f) => stmts::literal_arms_c(ch, arms, i, x, is_string, ty_name) == unchained(
                        f,
                    ),
                    Ok(after) => stmts::literal_arms_c(ch, arms, i, x, is_string, ty_name)
                        == stmts::literal_arms_c(
                        stmts::Chain {
                            st: lines::back(lines::scope_less(after), ch.st.pad),
                            first: false,
                            rest: ch.rest,
                        },
                        arms,
                        i + 1,
                        x,
                        is_string,
                        ty_name,
                    ),
                }
            },
        }),
{
    if i < arms.len() {
        if let Ok(Some(c)) = stmts::cond_c(
            ch.st.ctx.decls,
            arms[i].pattern,
            x,
            is_string,
            ty_name,
        ) {
            lemma_branch(ch, c);
            let head = stmts::branch_head(ch, c);
            lemma_scoped(stmts::inside(head), arms[i].body.statements@, head.pad);
        }
    }
}

proof fn lemma_branch(ch: stmts::Chain, c: Seq<char>)
    ensures
        ({
            let head = lines::wrote(
                ch.st,
                (if ch.first {
                    "if ("@
                } else {
                    "} else if ("@
                }) + c + ") {"@,
                false,
            );
            &&& stmts::branch_head(ch, c) == head
            &&& stmts::inside(head) == lines::scope_more(lines::deeper(head))
        }),
{
}

proof fn lemma_scoped(inner: model::State, body: Seq<Spanned<Stmt>>, pad: Seq<char>)
    ensures
        match stmts::stmts_c(inner, body, 0) {
            Err(f) => stmts::scoped_c(inner, body, pad) == lines::fault(f),
            Ok(after) => stmts::scoped_c(inner, body, pad) == reached(
                lines::back(lines::scope_less(after), pad),
            ),
        },
{
}

/// The end of a chain: the arm that takes the rest stands behind `else`, or by itself
/// where there is no branch; without such an arm the last branch is closed.
pub proof fn law_end_of_chain(ch: stmts::Chain, arms: Seq<MatchArm>)
    ensures
        ch.rest is None && ch.first ==> stmts::chain_end_c(ch, arms) == reached(ch.st),
        ch.rest is None && !ch.first ==> stmts::chain_end_c(ch, arms) == reached(
            lines::wrote(ch.st, "}"@, false),
        ),
        ch.rest matches Some(k) ==> 0 <= k < arms.len() && ch.first ==> (match stmts::stmts_c(
            lines::scope_more(ch.st),
            arms[k].body.statements@,
            0,
        ) {
            Err(f) => stmts::chain_end_c(ch, arms) == lines::fault(f),
            Ok(after) => stmts::chain_end_c(ch, arms) == reached(
                lines::back(lines::scope_less(after), ch.st.pad),
            ),
        }),
        ch.rest matches Some(k) ==> 0 <= k < arms.len() && !ch.first ==> (match stmts::stmts_c(
            lines::scope_more(lines::deeper(lines::wrote(ch.st, "} else {"@, false))),
            arms[k].body.statements@,
            0,
        ) {
            Err(f) => stmts::chain_end_c(ch, arms) == lines::fault(f),
            Ok(after) => stmts::chain_end_c(ch, arms) == reached(
                lines::wrote(lines::back(lines::scope_less(after), ch.st.pad), "}"@, false),
            ),
        }),
{
}

/// A comparing match: what is compared, then the chain of all arms from the first on,
/// and its end.
pub proof fn law_comparing_match(st: model::State, s: Spanned<Stmt>, ty_name: Seq<char>)
    requires
        s.node is MatchStmt,
    ensures
        s.node matches Stmt::MatchStmt { value, arms } && (match stmts::compared_c(
            st,
            value,
            ty_name,
        ) {
            Err(f) => stmts::literal_match_c(st, s, ty_name) == lines::fault(f),
            Ok(pair) => match stmts::literal_arms_c(
                stmts::Chain { st: pair.0, first: true, rest: None },
                arms@,
                0,
                pair.1,
                ty_name == "String"@ || ty_name == "Str"@,
                ty_name,
            ) {
                Err(f) => stmts::literal_match_c(st, s, ty_name) == lines::fault(f),
                Ok(ch) => stmts::literal_match_c(st, s, ty_name) == stmts::chain_end_c(ch, arms@),
            },
        }),
{
}

// ---------------------------------------------------------------------------
// Matches on enums with payloads
// ---------------------------------------------------------------------------

/// When a pattern applies to a value with a tag: a variant where the tag is its number,
/// a wildcard always; literals, ranges and unknown variants never.
pub proof fn law_tags(d: model::Decls, p: Pattern, x: Seq<char>)
    ensures
        p is WildcardPattern ==> stmts::tag_test(d, p, x) == stmts::TagTest::Always,
        p matches Pattern::VariantPattern { name, .. } ==> stmts::tag_test(d, p, x)
            == if d.values.dom().contains(name@) {
            stmts::TagTest::When(x + ".tag == "@ + text::dec_int(d.values[name@] as int))
        } else {
            stmts::TagTest::Never
        },
        p is LiteralPattern || p is RangePattern ==> stmts::tag_test(d, p, x)
            == stmts::TagTest::Never,
{
}

/// Alternatives apply where one of them does, and always where one always does.
pub proof fn law_alternative_tags(
    d: model::Decls,
    p: Pattern,
    ps: Seq<Pattern>,
    n: int,
    x: Seq<char>,
)
    requires
        p matches Pattern::OrPattern { alternatives } && alternatives@ == ps,
        0 <= n < ps.len(),
    ensures
        match stmts::tag_conds(d, ps, ps.len() as int, x) {
            None => stmts::tag_test(d, p, x) == stmts::TagTest::Always,
            Some(parts) => stmts::tag_test(d, p, x) == if parts.len() == 0 {
                stmts::TagTest::Never
            } else {
                stmts::TagTest::When(text::joined(parts, " || "@))
            },
        },
        stmts::tag_conds(d, ps, 0, x) == Some(Seq::<Seq<char>>::empty()),
        match (stmts::tag_conds(d, ps, n, x), stmts::tag_test(d, ps[n], x)) {
            (None, _) => stmts::tag_conds(d, ps, n + 1, x) is None,
            (Some(_), stmts::TagTest::Always) => stmts::tag_conds(d, ps, n + 1, x) is None,
            (Some(parts), stmts::TagTest::Never) => stmts::tag_conds(d, ps, n + 1, x) == Some(parts),
            (Some(parts), stmts::TagTest::When(c)) => stmts::tag_conds(d, ps, n + 1, x) == Some(
                parts.push(c),
            ),
        },
{
    reveal_with_fuel(stmts::tag_conds, 2);
}

/// The payload of a variant is bound to the one name that the pattern gives it: it is
/// read from the union under the number of the variant, and known with its type.
pub proof fn law_payload_binding(st: model::State, p: Pattern, x: Seq<char>, ty_name: Seq<char>)
    ensures
        match p {
            Pattern::VariantPattern { name, bindings } => {
                let d = st.ctx.decls;
                let number = d.values[name@];
                if d.values.dom().contains(name@) && bindings@.len() == 1
                    && d.payloads.dom().contains(ty_name) && 0 <= number < d.payloads[ty_name].len()
                    && d.payloads[ty_name][number as int] is Some {
                    let ty = d.payloads[ty_name][number as int]->0;
                    match model::type_c(d, ty) {
                        Err(f) => stmts::tag_bound_c(st, p, x, ty_name) == lines::fault(f),
                        Ok(t) => stmts::tag_bound_c(st, p, x, ty_name) == reached(
                            lines::wrote(
                                lines::knows(st, bindings@[0]@, ty),
                                t + " "@ + bindings@[0]@ + " = "@ + (x + ".u.v"@ + text::dec_int(
                                    number as int,
                                )) + ";"@,
                                false,
                            ),
                        ),
                    }
                } else {
                    stmts::tag_bound_c(st, p, x, ty_name) == reached(st)
                }
            },
            _ => stmts::tag_bound_c(st, p, x, ty_name) == reached(st),
        },
{
    if let Pattern::VariantPattern { name, bindings } = p {
        let d = st.ctx.decls;
        let number = d.values[name@];
        if d.payloads.dom().contains(ty_name) && 0 <= number < d.payloads[ty_name].len()
            && d.payloads[ty_name][number as int] is Some && bindings@.len() == 1 {
            lines::law_steps(
                st,
                ""@,
                bindings@[0]@,
                d.payloads[ty_name][number as int]->0,
                ""@,
            );
        }
    }
}

/// The arms of a match on an enum with payloads, one by one: an arm whose pattern can
/// apply is the next branch of the chain, with the payload bound at the head of its
/// body; one that always applies takes the rest; one that never does is left out.
pub proof fn law_tagged_arms(
    ch: stmts::Chain,
    arms: Seq<MatchArm>,
    i: int,
    x: Seq<char>,
    ty_name: Seq<char>,
)
    requires
        0 <= i <= arms.len(),
    ensures
        i == arms.len() ==> stmts::tagged_arms_c(ch, arms, i, x, ty_name) == chained(ch),
        i < arms.len() ==> (match stmts::tag_test(ch.st.ctx.decls, arms[i].pattern, x) {
            stmts::TagTest::Never => stmts::tagged_arms_c(ch, arms, i, x, ty_name)
                == stmts::tagged_arms_c(ch, arms, i + 1, x, ty_name),
            stmts::TagTest::Always => stmts::tagged_arms_c(ch, arms, i, x, ty_name)
                == stmts::tagged_arms_c(
                stmts::Chain { st: ch.st, first: ch.first, rest: Some(i) },
                arms,
                i + 1,
                x,
                ty_name,
            ),
            stmts::TagTest::When(c) => {
                let head = lines::wrote(
                    ch.st,
                    (if ch.first {
                        "if ("@
                    } else {
                        "} else if ("@
                    }) + c + ") {"@,
                    false,
                );
                match stmts::tag_bound_c(
                    lines::scope_more(lines::deeper(head)),
                    arms[i].pattern,
                    x,
                    ty_name,
                ) {
                    Err(f) => stmts::tagged_arms_c(ch, arms, i, x, ty_name) == unchained(f),
                    Ok(inner) => match stmts::stmts_c(inner, arms[i].body.statements@, 0) {
                        Err(f) => stmts::tagged_arms_c(ch, arms, i, x, ty_name) == unchained(f),
                        Ok(after) => stmts::tagged_arms_c(ch, arms, i, x, ty_name)
                            == stmts::tagged_arms_c(
                            stmts::Chain {
                                st: lines::back(lines::scope_less(after), ch.st.pad),
                                first: false,
                                rest: ch.rest,
                            },
                            arms,
                            i + 1,
                            x,
                            ty_name,
                        ),
                    },
                }
            },
        }),
{
    if i < arms.len() {
        if let stmts::TagTest::When(c) = stmts::tag_test(ch.st.ctx.decls, arms[i].pattern, x) {
            lemma_branch(ch, c);
            let head = stmts::branch_head(ch, c);
            if let Ok(inner) = stmts::tag_bound_c(
                stmts::inside(head),
                arms[i].pattern,
                x,
                ty_name,
            ) {
                lemma_scoped(inner, arms[i].body.statements@, head.pad);
            }
        }
    }
}

/// A match on an enum with payloads: what is matched, then the chain of all arms from
/// the first on, and its end.
pub proof fn law_tagged_match(st: model::State, s: Spanned<Stmt>, ty_name: Seq<char>)
    requires
        s.node is MatchStmt,
    ensures
        s.node matches Stmt::MatchStmt { value, arms } && (match stmts::bound_c(
            st,
            value,
            model::type_c(st.ctx.decls, ast::Type::Named { name: ty_name, args: Seq::empty() }),
            "e"@,
        ) {
            Err(f) => stmts::tagged_match_c(st, s, ty_name) == lines::fault(f),
            Ok(pair) => match stmts::tagged_arms_c(
                stmts::Chain { st: pair.0, first: true, rest: None },
                arms@,
                0,
                pair.1,
                ty_name,
            ) {
                Err(f) => stmts::tagged_match_c(st, s, ty_name) == lines::fault(f),
                Ok(ch) => stmts::tagged_match_c(st, s, ty_name) == stmts::chain_end_c(ch, arms@),
            },
        }),
{
}

// ---------------------------------------------------------------------------
// Matches on options and results
// ---------------------------------------------------------------------------

/// Which case a pattern stands for: `Some` and `Ok` for the one, `None` and `Err` for
/// the other, a wildcard for whatever is left. Another variant is told.
pub proof fn law_cases(p: Pattern, k: int, met: stmts::Picks)
    ensures
        p matches Pattern::VariantPattern { name, .. } ==> stmts::met_with(p, k, met) == if name@
            == "Some"@ || name@ == "Ok"@ {
            Ok::<stmts::Picks, error::Fault>(
                stmts::Picks { yes: Some(k), no: met.no, rest: met.rest },
            )
        } else if name@ == "None"@ || name@ == "Err"@ {
            Ok::<stmts::Picks, error::Fault>(
                stmts::Picks { yes: met.yes, no: Some(k), rest: met.rest },
            )
        } else {
            Err::<stmts::Picks, error::Fault>(
                error::Fault::Codegen(
                    "C backend does not support match variant "@ + error::debug_text(name@),
                ),
            )
        },
        p is WildcardPattern ==> stmts::met_with(p, k, met) == Ok::<stmts::Picks, error::Fault>(
            stmts::Picks { yes: met.yes, no: met.no, rest: Some(k) },
        ),
        p is LiteralPattern || p is RangePattern ==> stmts::met_with(p, k, met) == Ok::<
            stmts::Picks,
            error::Fault,
        >(met),
{
}

/// Alternatives stand for the cases of each of them.
pub proof fn law_alternative_cases(
    p: Pattern,
    ps: Seq<Pattern>,
    n: int,
    k: int,
    met: stmts::Picks,
)
    requires
        p matches Pattern::OrPattern { alternatives } && alternatives@ == ps,
        0 <= n < ps.len(),
    ensures
        stmts::met_with(p, k, met) == stmts::met_with_all(ps, ps.len() as int, k, met),
        stmts::met_with_all(ps, 0, k, met) == Ok::<stmts::Picks, error::Fault>(met),
        match stmts::met_with_all(ps, n, k, met) {
            Err(f) => stmts::met_with_all(ps, n + 1, k, met) == Err::<stmts::Picks, error::Fault>(f),
            Ok(after) => stmts::met_with_all(ps, n + 1, k, met) == stmts::met_with(ps[n], k, after),
        },
{
    reveal_with_fuel(stmts::met_with_all, 2);
}

/// The arms are gone through from the first to the last; in the end an arm that takes
/// the rest stands in for a case without an arm of its own.
pub proof fn law_picked_arms(arms: Seq<MatchArm>, i: int, met: stmts::Picks)
    requires
        0 <= i <= arms.len(),
    ensures
        stmts::picks(arms) == stmts::picked(
            arms,
            0,
            stmts::Picks { yes: None, no: None, rest: None },
        ),
        i == arms.len() ==> stmts::picked(arms, i, met) == Ok::<
            (Option<int>, Option<int>),
            error::Fault,
        >(
            (
                if met.yes is Some {
                    met.yes
                } else {
                    met.rest
                },
                if met.no is Some {
                    met.no
                } else {
                    met.rest
                },
            ),
        ),
        i < arms.len() ==> (match stmts::met_with(arms[i].pattern, i, met) {
            Err(f) => stmts::picked(arms, i, met) == Err::<(Option<int>, Option<int>), error::Fault>(
                f,
            ),
            Ok(after) => stmts::picked(arms, i, met) == stmts::picked(arms, i + 1, after),
        }),
{
}

/// An arm of a match on an option or result: its first name is bound to the part that
/// its case holds, if it holds one, and its body is written in that scope. Without an
/// arm there is nothing inside.
pub proof fn law_picked_arm(
    st: model::State,
    arms: Seq<MatchArm>,
    k: Option<int>,
    ty: Option<ast::Type>,
    source: Seq<char>,
    pad: Seq<char>,
)
    requires
        k matches Some(j) ==> 0 <= j < arms.len(),
    ensures
        match k {
            None => stmts::arm_c(st, arms, k, ty, source, pad) == reached(
                lines::back(lines::scope_less(st), pad),
            ),
            Some(j) => {
                let body = arms[j].body.statements@;
                match (arms[j].pattern, ty) {
                    (Pattern::VariantPattern { bindings, .. }, Some(held)) => if bindings@.len() > 0 {
                        match model::type_c(st.ctx.decls, held) {
                            Err(f) => stmts::arm_c(st, arms, k, ty, source, pad) == lines::fault(f),
                            Ok(t) => {
                                let inner = lines::wrote(
                                    lines::knows(st, bindings@[0]@, held),
                                    t + " "@ + bindings@[0]@ + " = "@ + source + ";"@,
                                    false,
                                );
                                match stmts::stmts_c(inner, body, 0) {
                                    Err(f) => stmts::arm_c(st, arms, k, ty, source, pad)
                                        == lines::fault(f),
                                    Ok(after) => stmts::arm_c(st, arms, k, ty, source, pad)
                                        == reached(lines::back(lines::scope_less(after), pad)),
                                }
                            },
                        }
                    } else {
                        arm_without(st, arms, k, ty, source, pad, body)
                    },
                    _ => arm_without(st, arms, k, ty, source, pad, body),
                }
            },
        },
{
    if let Some(j) = k {
        if let Pattern::VariantPattern { bindings, .. } = arms[j].pattern {
            if bindings@.len() > 0 && ty is Some {
                lines::law_steps(st, ""@, bindings@[0]@, ty->0, ""@);
            }
        }
    }
}

/// An arm that binds nothing is its body.
pub open spec fn arm_without(
    st: model::State,
    arms: Seq<MatchArm>,
    k: Option<int>,
    ty: Option<ast::Type>,
    source: Seq<char>,
    pad: Seq<char>,
    body: Seq<Spanned<Stmt>>,
) -> bool {
    match stmts::stmts_c(st, body, 0) {
        Err(f) => stmts::arm_c(st, arms, k, ty, source, pad) == lines::fault(f),
        Ok(after) => stmts::arm_c(st, arms, k, ty, source, pad) == reached(
            lines::back(lines::scope_less(after), pad),
        ),
    }
}

/// A match on an option or result: the case with a value stands behind `if`, the other
/// one behind `else` where it has an arm. The value, or the error, is what the arm gets.
pub proof fn law_option_match(
    st: model::State,
    s: Spanned<Stmt>,
    name: Seq<char>,
    args: Seq<ast::Type>,
    yes: Option<int>,
    no: Option<int>,
    begun: model::State,
    x: Seq<char>,
)
    requires
        s.node matches Stmt::MatchStmt { value, arms } && stmts::picks(arms@) == Ok::<
            (Option<int>, Option<int>),
            error::Fault,
        >((yes, no)) && stmts::bound_c(
            st,
            value,
            model::type_c(st.ctx.decls, ast::Type::Named { name, args }),
            "m"@,
        ) == Ok::<(model::State, Seq<char>), error::Fault>((begun, x)),
        name == "Option"@ && args.len() == 1 || name == "Result"@ && args.len() == 2,
    ensures
        s.node matches Stmt::MatchStmt { arms, .. } && ({
            let head = lines::wrote(
                begun,
                "if ("@ + x + "."@ + (if name == "Option"@ {
                    "some"@
                } else {
                    "ok"@
                }) + ") {"@,
                false,
            );
            match stmts::arm_c(
                lines::scope_more(lines::deeper(head)),
                arms@,
                yes,
                Some(args[0]),
                x + ".value"@,
                begun.pad,
            ) {
                Err(f) => stmts::option_match_c(st, s, name, args) == lines::fault(f),
                Ok(done) => if no is None {
                    stmts::option_match_c(st, s, name, args) == reached(
                        lines::wrote(done, "}"@, false),
                    )
                } else {
                    let other = lines::wrote(done, "} else {"@, false);
                    match stmts::arm_c(
                        lines::scope_more(lines::deeper(other)),
                        arms@,
                        no,
                        if name == "Option"@ {
                            None
                        } else {
                            Some(args[1])
                        },
                        x + ".error"@,
                        done.pad,
                    ) {
                        Err(f) => stmts::option_match_c(st, s, name, args) == lines::fault(f),
                        Ok(after) => stmts::option_match_c(st, s, name, args) == reached(
                            lines::wrote(after, "}"@, false),
                        ),
                    }
                },
            }
        }),
{
}

/// What keeps a match on an option or result from being written is told: first a variant
/// that it does not have, then that what is matched cannot be rendered.
pub proof fn law_option_match_faults(
    st: model::State,
    s: Spanned<Stmt>,
    name: Seq<char>,
    args: Seq<ast::Type>,
)
    requires
        s.node is MatchStmt,
    ensures
        s.node matches Stmt::MatchStmt { value, arms } && (match stmts::picks(arms@) {
            Err(f) => stmts::option_match_c(st, s, name, args) == lines::fault(f),
            Ok(_) => stmts::bound_c(
                st,
                value,
                model::type_c(st.ctx.decls, ast::Type::Named { name, args }),
                "m"@,
            ) matches Err(f) ==> stmts::option_match_c(st, s, name, args) == lines::fault(f),
        }),
{
}

} // verus!
