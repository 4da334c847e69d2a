//! The generator: the lines of C that each kind of statement becomes.

use vstd::prelude::*;

use crate::aliases;
use crate::ast;
use crate::ast::{ElseBranch, Expr, Stmt};
use crate::codegen::exprs;
use crate::codegen::model;
use crate::codegen::stmts;
use crate::error;
use crate::source::Spanned;
use crate::text;

verus! {

// ---------------------------------------------------------------------------
// Steps
// ---------------------------------------------------------------------------

/// One line more, at the indentation that holds, of code that calls a TLS builtin or
/// not. All else stays.
pub open spec fn wrote(st: model::State, line: Seq<char>, tls: bool) -> model::State {
    model::State { lines: st.lines.push(st.pad + line), tls: st.tls || tls, ..st }
}

/// Four spaces further in.
pub open spec fn deeper(st: model::State) -> model::State {
    model::State { pad: st.pad + "    "@, ..st }
}

/// A scope more, with nothing in it.
pub open spec fn scope_more(st: model::State) -> model::State {
    model::State {
        ctx: model::Ctx { vars: st.ctx.vars.push(Map::empty()), ..st.ctx },
        ..st
    }
}

/// A scope less.
pub open spec fn scope_less(st: model::State) -> model::State {
    model::State {
        ctx: model::Ctx {
            vars: if st.ctx.vars.len() == 0 {
                st.ctx.vars
            } else {
                st.ctx.vars.drop_last()
            },
            ..st.ctx
        },
        ..st
    }
}

/// Back at an indentation.
pub open spec fn back(st: model::State, pad: Seq<char>) -> model::State {
    model::State { pad, ..st }
}

/// A variable more in the innermost scope.
pub open spec fn knows(st: model::State, name: Seq<char>, ty: ast::Type) -> model::State {
    model::State {
        ctx: model::Ctx {
            vars: if st.ctx.vars.len() == 0 {
                st.ctx.vars
            } else {
                st.ctx.vars.update(st.ctx.vars.len() - 1, st.ctx.vars.last().insert(name, ty))
            },
            ..st.ctx
        },
        ..st
    }
}

/// A temporary more.
pub open spec fn counted(st: model::State) -> model::State {
    model::State { temps: st.temps.wrapping_add(1), ..st }
}

/// The name of the next temporary of a kind.
pub open spec fn next_temp(st: model::State, kind: Seq<char>) -> Seq<char> {
    "__xlang_"@ + kind + text::dec(st.temps as nat)
}

/// A fault in place of a state.
pub open spec fn fault(f: error::Fault) -> model::Outcome<model::State> {
    Err(f)
}

/// The declared variables are in the innermost scope.
proof fn lemma_knows(st: model::State, name: Seq<char>, ty: ast::Type)
    ensures
        model::with_var(st, name, ty) == knows(st, name, ty),
{
    if st.ctx.vars.len() > 0 {
        assert(st.ctx.vars.drop_last().push(st.ctx.vars.last().insert(name, ty))
            =~= st.ctx.vars.update(st.ctx.vars.len() - 1, st.ctx.vars.last().insert(name, ty)));
    }
}

/// The elementary steps: a line is written at the indentation that holds, a block is
/// four spaces further in, and names are declared in the innermost scope.
pub proof fn law_steps(st: model::State, line: Seq<char>, name: Seq<char>, ty: ast::Type, pad: Seq<char>)
    ensures
        model::emitted(st, line) == wrote(st, line, false),
        model::indented(st) == deeper(st),
        model::opened(st) == scope_more(st),
        model::closed_scope(st) == scope_less(st),
        model::at_pad(st, pad) == back(st, pad),
        model::with_var(st, name, ty) == knows(st, name, ty),
        model::with_temp(st) == counted(st),
        model::temp_name(line, st.temps) == next_temp(st, line),
{
    lemma_knows(st, name, ty);
}

/// Lines that are written together stand one below the other, each at the indentation
/// that holds.
pub proof fn law_lines_together(st: model::State, ls: Seq<Seq<char>>, k: int)
    requires
        0 <= k < ls.len(),
    ensures
        model::with_lines(st, ls, 0).lines.len() == st.lines.len() + ls.len(),
        model::with_lines(st, ls, 0).lines[st.lines.len() + k] == st.pad + ls[k],
        model::with_lines(st, ls, 0).lines.take(st.lines.len() as int) == st.lines,
        model::padded(ls, st.pad).len() == ls.len(),
        model::padded(ls, st.pad)[k] == st.pad + ls[k],
{
    model::lemma_lines_appended(st, ls, 0);
    assert(ls.skip(0) =~= ls);
    assert((st.lines + model::padded(ls, st.pad)).take(st.lines.len() as int) =~= st.lines);
}

// ---------------------------------------------------------------------------
// Lists of statements
// ---------------------------------------------------------------------------

/// The statements of a list are written one after the other: each one goes on where
/// the one before it ended, and the first fault ends it.
pub proof fn law_one_after_the_other(st: model::State, ss: Seq<Spanned<Stmt>>, i: int)
    requires
        0 <= i <= ss.len(),
    ensures
        i == ss.len() ==> stmts::stmts_c(st, ss, i) == Ok::<model::State, error::Fault>(st),
        i < ss.len() ==> (match stmts::stmt_c(st, ss[i]) {
            Ok(after) => stmts::stmts_c(st, ss, i) == stmts::stmts_c(after, ss, i + 1),
            Err(f) => stmts::stmts_c(st, ss, i) == fault(f),
        }),
{
}

// ---------------------------------------------------------------------------
// Simple statements
// ---------------------------------------------------------------------------

/// An expression is a line of its own.
pub proof fn law_expression_line(st: model::State, s: Spanned<Stmt>)
    requires
        s.node is ExprStmt,
    ensures
        s.node matches Stmt::ExprStmt { expr } && (match exprs::expr_c(st.ctx, expr) {
            Ok(c) => stmts::stmt_c(st, s) == Ok::<model::State, error::Fault>(
                wrote(st, c.text + ";"@, c.tls),
            ),
            Err(f) => stmts::stmt_c(st, s) == fault(f),
        }),
{
    if let Stmt::ExprStmt { expr } = s.node {
        if let Ok(c) = exprs::expr_c(st.ctx, expr) {
            reveal_strlit("");
            assert(""@ + c.text + ";"@ =~= c.text + ";"@);
        }
    }
}

/// A `return` gives back its value as one of the type of the function, or nothing.
pub proof fn law_return_line(st: model::State, s: Spanned<Stmt>)
    requires
        s.node is ReturnStmt,
    ensures
        s.node matches Stmt::ReturnStmt { value: None } ==> stmts::stmt_c(st, s) == Ok::<
            model::State,
            error::Fault,
        >(wrote(st, "return;"@, false)),
        s.node matches Stmt::ReturnStmt { value: Some(e) } ==> (match exprs::typed_c(
            st.ctx,
            st.ret,
            e,
        ) {
            Ok(c) => stmts::stmt_c(st, s) == Ok::<model::State, error::Fault>(
                wrote(st, "return "@ + c.text + ";"@, c.tls),
            ),
            Err(f) => stmts::stmt_c(st, s) == fault(f),
        }),
{
}

/// `break` and `continue` are those of C.
pub proof fn law_jumps(st: model::State, s: Spanned<Stmt>)
    ensures
        s.node is BreakStmt ==> stmts::stmt_c(st, s) == Ok::<model::State, error::Fault>(
            wrote(st, "break;"@, false),
        ),
        s.node is ContinueStmt ==> stmts::stmt_c(st, s) == Ok::<model::State, error::Fault>(
            wrote(st, "continue;"@, false),
        ),
{
}

// ---------------------------------------------------------------------------
// Declarations
// ---------------------------------------------------------------------------

/// A declaration is a C declaration of the type, with the value as one of that type;
/// afterwards the name is known with the type.
pub proof fn law_let_line(st: model::State, s: Spanned<Stmt>)
    requires
        s.node matches Stmt::LetStmt { value, .. } && !(value.node is ArrayLiteral),
    ensures
        s.node matches Stmt::LetStmt { name, ty, value, .. } && (match (
            model::type_c(st.ctx.decls, ty@),
            exprs::typed_c(st.ctx, Some(ty@), value),
        ) {
            (Ok(t), Ok(v)) => stmts::stmt_c(st, s) == Ok::<model::State, error::Fault>(
                knows(wrote(st, t + " "@ + name@ + " = "@ + v.text + ";"@, v.tls), name@, ty@),
            ),
            (Err(f), _) => stmts::stmt_c(st, s) == fault(f),
            (Ok(_), Err(f)) => stmts::stmt_c(st, s) == fault(f),
        }),
{
    if let Stmt::LetStmt { name, ty, value, .. } = s.node {
        if let Ok(t) = model::type_c(st.ctx.decls, ty@) {
            if let Ok(v) = exprs::typed_c(st.ctx, Some(ty@), value) {
                lemma_knows(
                    wrote(st, t + " "@ + name@ + " = "@ + v.text + ";"@, v.tls),
                    name@,
                    ty@,
                );
            }
        }
    }
}

/// Whether a TLS builtin is called in one of these expressions.
pub open spec fn some_tls(ctx: model::Ctx, elements: Seq<Spanned<Expr>>) -> bool {
    exists|k: int|
        0 <= k < elements.len() && (#[trigger] exprs::expr_c(ctx, elements[k]) matches Ok(c) && c.tls)
}

/// Whether a text is the C for an expression.
pub open spec fn is_c_for(ctx: model::Ctx, e: Spanned<Expr>, t: Seq<char>) -> bool {
    exprs::expr_c(ctx, e) matches Ok(c) && t == c.text
}

proof fn lemma_members(ctx: model::Ctx, elements: Seq<Spanned<Expr>>, cs: Seq<model::Code>)
    requires
        exprs::exprs_c(ctx, elements, elements.len() as int) == Ok::<Seq<model::Code>, error::Fault>(
            cs,
        ),
    ensures
        exprs::code_texts(cs).len() == elements.len(),
        forall|k: int|
            0 <= k < elements.len() ==> is_c_for(
                ctx,
                elements[k],
                #[trigger] exprs::code_texts(cs)[k],
            ),
        exprs::any_tls(cs) == some_tls(ctx, elements),
{
    let n = elements.len() as int;
    crate::laws::operators::law_each_expression(ctx, elements, n);
    assert forall|k: int| 0 <= k < n implies is_c_for(
        ctx,
        elements[k],
        #[trigger] exprs::code_texts(cs)[k],
    ) by {
        assert(exprs::expr_c(ctx, elements[k]) == Ok::<model::Code, error::Fault>(cs[k]));
    }
    if exprs::any_tls(cs) {
        let k = choose|k: int| 0 <= k < cs.len() && (#[trigger] cs[k]).tls;
        assert(exprs::expr_c(ctx, elements[k]) == Ok::<model::Code, error::Fault>(cs[k]));
    }
    if some_tls(ctx, elements) {
        let k = choose|k: int|
            0 <= k < elements.len() && (#[trigger] exprs::expr_c(ctx, elements[k]) matches Ok(c)
                && c.tls);
        assert(exprs::expr_c(ctx, elements[k]) == Ok::<model::Code, error::Fault>(cs[k]));
        assert(cs[k].tls);
    }
}

proof fn lemma_array_let(
    st: model::State,
    name: Seq<char>,
    ty: ast::Type,
    elements: Seq<Spanned<Expr>>,
    cs: Seq<model::Code>,
    t: Seq<char>,
)
    requires
        stmts::array_let_c(st, name, ty, elements) is Ok,
        exprs::exprs_c(st.ctx, elements, elements.len() as int) == Ok::<Seq<model::Code>, error::Fault>(
            cs,
        ),
        model::type_c(st.ctx.decls, ty) == Ok::<Seq<char>, error::Fault>(t),
    ensures
        stmts::array_let_c(st, name, ty, elements) == Ok::<model::State, error::Fault>(
            wrote(
                st,
                t + " "@ + name + " = { .data = {"@ + text::joined(exprs::code_texts(cs), ", "@)
                    + "} };"@,
                exprs::any_tls(cs),
            ),
        ),
{
}

/// The initializer of an array that is declared with a literal is a C list: it has as
/// many members as the literal has elements, with commas between them, and its `k`-th
/// member is the C for the `k`-th element.
pub proof fn law_array_line(
    st: model::State,
    s: Spanned<Stmt>,
    name: Seq<char>,
    ty: ast::Type,
    elements: Seq<Spanned<Expr>>,
) -> (members: Seq<Seq<char>>)
    requires
        s.node matches Stmt::LetStmt { name: n, ty: t, value, .. } && n@ == name && t@ == ty && (
        value.node matches Expr::ArrayLiteral { elements: es } && es@ == elements),
        stmts::stmt_c(st, s) is Ok,
    ensures
        members.len() == elements.len(),
        forall|k: int|
            0 <= k < elements.len() ==> is_c_for(st.ctx, elements[k], #[trigger] members[k]),
        model::type_c(st.ctx.decls, ty) matches Ok(t) && stmts::stmt_c(st, s) == Ok::<
            model::State,
            error::Fault,
        >(
            knows(
                wrote(
                    st,
                    t + " "@ + name + " = { .data = {"@ + text::joined(members, ", "@) + "} };"@,
                    some_tls(st.ctx, elements),
                ),
                name,
                ty,
            ),
        ),
{
    assert(stmts::array_let_c(st, name, ty, elements) is Ok);
    let cs = exprs::exprs_c(st.ctx, elements, elements.len() as int)->Ok_0;
    let t = model::type_c(st.ctx.decls, ty)->Ok_0;
    lemma_array_let(st, name, ty, elements, cs, t);
    lemma_members(st.ctx, elements, cs);
    let after = stmts::array_let_c(st, name, ty, elements)->Ok_0;
    lemma_knows(after, name, ty);
    exprs::code_texts(cs)
}

/// When an array can be declared with a literal: its type is an array of as many
/// elements, whatever it is called. Each other case is told.
pub proof fn law_array_faults(st: model::State, s: Spanned<Stmt>, elements: Seq<Spanned<Expr>>)
    requires
        s.node matches Stmt::LetStmt { value, .. } && (value.node matches Expr::ArrayLiteral {
            elements: es,
        } && es@ == elements),
    ensures
        s.node matches Stmt::LetStmt { ty, .. } && (match aliases::meant(
            st.ctx.decls.aliases,
            ty@,
        ) {
            ast::Type::Const { .. } => stmts::stmt_c(st, s) == fault(
                error::Fault::Codegen(
                    "array literal initializer requires an Array<T, N> type annotation"@,
                ),
            ),
            ast::Type::Named { name, args } => if name != "Array"@ || args.len() != 2 {
                stmts::stmt_c(st, s) == fault(
                    error::Fault::Codegen(
                        "array literal initializer requires Array<T, N>, got "@ + name + "<...>"@,
                    ),
                )
            } else {
                match args[1] {
                    ast::Type::Named { name: n, .. } => stmts::stmt_c(st, s) == fault(
                        error::Fault::Codegen(
                            "Array length"@ + " must be a constant integer, got type "@ + n,
                        ),
                    ),
                    ast::Type::Const { value: len } => match text::number(len, usize::MAX as nat) {
                        None => stmts::stmt_c(st, s) == fault(
                            error::Fault::Codegen(
                                "Array length must fit usize for codegen, got "@ + error::debug_text(
                                    len,
                                ),
                            ),
                        ),
                        Some(n) => if n != elements.len() {
                            stmts::stmt_c(st, s) == fault(
                                error::Fault::Codegen(
                                    "Array literal length mismatch: Array expects "@ + text::dec(n)
                                        + " elements, got "@ + text::dec(elements.len()),
                                ),
                            )
                        } else {
                            stmts::stmt_c(st, s) is Ok <==> model::type_c(st.ctx.decls, ty@) is Ok
                                && forall|k: int|
                                0 <= k < elements.len() ==> #[trigger] exprs::expr_c(
                                    st.ctx,
                                    elements[k],
                                ) is Ok
                        },
                    },
                }
            },
        }),
{
    let n = elements.len() as int;
    crate::laws::operators::law_each_expression(st.ctx, elements, n);
    if let Ok(cs) = exprs::exprs_c(st.ctx, elements, n) {
        assert forall|k: int| 0 <= k < n implies #[trigger] exprs::expr_c(st.ctx, elements[k]) is Ok by {
            assert(exprs::expr_c(st.ctx, elements[k]) == Ok::<model::Code, error::Fault>(cs[k]));
        }
    }
}

/// Where an element cannot be rendered, the fault of the first such element is told, and
/// else that of the type.
pub proof fn law_array_element_fault(
    st: model::State,
    s: Spanned<Stmt>,
    ty: ast::Type,
    elements: Seq<Spanned<Expr>>,
    k: int,
    f: error::Fault,
)
    requires
        s.node matches Stmt::LetStmt { ty: t, value, .. } && t@ == ty && (
        value.node matches Expr::ArrayLiteral { elements: es } && es@ == elements),
        aliases::meant(st.ctx.decls.aliases, ty) matches ast::Type::Named { name, args } && name
            == "Array"@ && args.len() == 2 && (args[1] matches ast::Type::Const { value: len }
            && text::number(len, usize::MAX as nat) == Some(elements.len())),
        0 <= k <= elements.len(),
        forall|j: int| 0 <= j < k ==> #[trigger] exprs::expr_c(st.ctx, elements[j]) is Ok,
    ensures
        k < elements.len() && exprs::expr_c(st.ctx, elements[k]) == Err::<model::Code, error::Fault>(f)
            ==> stmts::stmt_c(st, s) == fault(f),
        k == elements.len() && model::type_c(st.ctx.decls, ty) == Err::<Seq<char>, error::Fault>(f)
            ==> stmts::stmt_c(st, s) == fault(f),
{
    let n = elements.len() as int;
    crate::laws::operators::law_each_expression(st.ctx, elements, n);
    if k < n && exprs::expr_c(st.ctx, elements[k]) is Err {
        match exprs::exprs_c(st.ctx, elements, n) {
            Ok(cs) => {
                assert(exprs::expr_c(st.ctx, elements[k]) == Ok::<model::Code, error::Fault>(cs[k]));
            },
            Err(g) => {
                let i = choose|i: int|
                    0 <= i < n && #[trigger] exprs::expr_c(st.ctx, elements[i]) == Err::<
                        model::Code,
                        error::Fault,
                    >(g) && (forall|j: int|
                        0 <= j < i ==> #[trigger] exprs::expr_c(st.ctx, elements[j]) is Ok);
                assert(i == k);
            },
        }
    }
    if k == n {
        if let Err(g) = exprs::exprs_c(st.ctx, elements, n) {
            let i = choose|i: int|
                0 <= i < n && #[trigger] exprs::expr_c(st.ctx, elements[i]) == Err::<
                    model::Code,
                    error::Fault,
                >(g) && (forall|j: int|
                    0 <= j < i ==> #[trigger] exprs::expr_c(st.ctx, elements[j]) is Ok);
            assert(exprs::expr_c(st.ctx, elements[i]) is Ok);
        }
    }
}

// ---------------------------------------------------------------------------
// Blocks
// ---------------------------------------------------------------------------

/// A `while` loop: the condition stands in its head, and its body is written inside, in
/// a scope of its own.
pub proof fn law_while_lines(st: model::State, s: Spanned<Stmt>)
    requires
        s.node is WhileStmt,
    ensures
        s.node matches Stmt::WhileStmt { condition, body } && (match exprs::expr_c(
            st.ctx,
            condition,
        ) {
            Err(f) => stmts::stmt_c(st, s) == fault(f),
            Ok(c) => {
                let head = wrote(st, "while ("@ + c.text + ") {"@, c.tls);
                match stmts::stmts_c(scope_more(deeper(head)), body.statements@, 0) {
                    Err(f) => stmts::stmt_c(st, s) == fault(f),
                    Ok(after) => stmts::stmt_c(st, s) == Ok::<model::State, error::Fault>(
                        wrote(back(scope_less(after), st.pad), "}"@, false),
                    ),
                }
            },
        }),
{
    reveal_with_fuel(stmts::stmt_c, 2);
}

/// An `if`: the condition stands in its head, what is done otherwise behind `else`; an
/// `else if` is an `if` inside the `else`.
pub proof fn law_if_lines(st: model::State, s: Spanned<Stmt>)
    requires
        s.node is IfStmt,
    ensures
        s.node matches Stmt::IfStmt { condition, then_block, else_branch } && (match exprs::expr_c(
            st.ctx,
            condition,
        ) {
            Err(f) => stmts::stmt_c(st, s) == fault(f),
            Ok(c) => {
                let head = wrote(st, "if ("@ + c.text + ") {"@, c.tls);
                match stmts::stmts_c(deeper(head), then_block.statements@, 0) {
                    Err(f) => stmts::stmt_c(st, s) == fault(f),
                    Ok(done) => match else_branch {
                        None => stmts::stmt_c(st, s) == Ok::<model::State, error::Fault>(
                            wrote(back(done, st.pad), "}"@, false),
                        ),
                        Some(ElseBranch::Block(block)) => {
                            let other = wrote(back(done, st.pad), "} else {"@, false);
                            match stmts::stmts_c(deeper(other), block.statements@, 0) {
                                Err(f) => stmts::stmt_c(st, s) == fault(f),
                                Ok(after) => stmts::stmt_c(st, s) == Ok::<
                                    model::State,
                                    error::Fault,
                                >(wrote(back(after, st.pad), "}"@, false)),
                            }
                        },
                        Some(ElseBranch::IfStmt(inner)) => {
                            let other = wrote(back(done, st.pad), "} else {"@, false);
                            match stmts::stmt_c(deeper(other), *inner) {
                                Err(f) => stmts::stmt_c(st, s) == fault(f),
                                Ok(after) => stmts::stmt_c(st, s) == Ok::<
                                    model::State,
                                    error::Fault,
                                >(wrote(back(after, st.pad), "}"@, false)),
                            }
                        },
                    },
                }
            },
        }),
{
    assert(stmts::stmt_c(st, s) == stmts::if_c(st, s));
}

/// A loop over a range counts in the loop's variable from the start to the end, the end
/// included where the range says so. The end is evaluated once, ahead of the loop.
pub proof fn law_range_loop_lines(st: model::State, s: Spanned<Stmt>)
    requires
        s.node matches Stmt::ForStmt { iterable, .. } && iterable.node is RangeExpr,
    ensures
        s.node matches Stmt::ForStmt { iterator, iterable, body } && (
        iterable.node matches Expr::RangeExpr { start, end, inclusive } && (match (
            exprs::expr_c(st.ctx, *start),
            exprs::expr_c(st.ctx, *end),
        ) {
            (Err(f), _) => stmts::stmt_c(st, s) == fault(f),
            (Ok(_), Err(f)) => stmts::stmt_c(st, s) == fault(f),
            (Ok(from), Ok(to)) => {
                let end_name = next_temp(st, "rg_end"@);
                let it = iterator@;
                let block = deeper(wrote(counted(st), "{"@, from.tls || to.tls));
                let ready = wrote(block, "int32_t "@ + end_name + " = "@ + to.text + ";"@, false);
                let head = wrote(
                    ready,
                    "for (int32_t "@ + it + " = "@ + from.text + "; "@ + it + " "@ + (if inclusive {
                        "<="@
                    } else {
                        "<"@
                    }) + " "@ + end_name + "; "@ + it + "++) {"@,
                    false,
                );
                let inner = knows(
                    scope_more(deeper(head)),
                    it,
                    ast::Type::Named { name: "i32"@, args: Seq::empty() },
                );
                match stmts::stmts_c(inner, body.statements@, 0) {
                    Err(f) => stmts::stmt_c(st, s) == fault(f),
                    Ok(after) => stmts::stmt_c(st, s) == Ok::<model::State, error::Fault>(
                        wrote(
                            back(
                                wrote(back(scope_less(after), block.pad), "}"@, false),
                                st.pad,
                            ),
                            "}"@,
                            false,
                        ),
                    ),
                }
            },
        })),
{
    assert(stmts::stmt_c(st, s) == stmts::range_for_c(st, s));
    if let Stmt::ForStmt { iterator, iterable, body } = s.node {
        if let Expr::RangeExpr { start, end, inclusive } = iterable.node {
            if let Ok(from) = exprs::expr_c(st.ctx, *start) {
                if let Ok(to) = exprs::expr_c(st.ctx, *end) {
                    let end_name = next_temp(st, "rg_end"@);
                    let it = iterator@;
                    let block = deeper(wrote(counted(st), "{"@, from.tls || to.tls));
                    let ready = wrote(block, "int32_t "@ + end_name + " = "@ + to.text + ";"@, false);
                    let op = if inclusive {
                        "<="@
                    } else {
                        "<"@
                    };
                    let head = wrote(
                        ready,
                        "for (int32_t "@ + it + " = "@ + from.text + "; "@ + it + " "@ + op + " "@
                            + end_name + "; "@ + it + "++) {"@,
                        false,
                    );
                    lemma_knows(
                        scope_more(deeper(head)),
                        it,
                        ast::Type::Named { name: "i32"@, args: Seq::empty() },
                    );
                    assert(model::indented(
                        model::emitted(
                            model::noted(model::noted(model::with_temp(st), from), to),
                            "{"@,
                        ),
                    ) =~= block);
                }
            }
        }
    }
}

} // verus!
