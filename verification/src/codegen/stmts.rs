//! Statements and functions in C.

use vstd::prelude::*;

use crate::aliases;
use crate::ast;
use crate::ast::{Block, ElseBranch, Expr, Item, MatchArm, Param, Pattern, Stmt, TypeNode};
use crate::codegen::c::CGen;
use crate::codegen::exprs;
use crate::codegen::model;
use crate::error;
use crate::error::{debug_quoted, XError, XResult};
use crate::laws::statements;
use crate::source::Spanned;
use crate::text;

verus! {

broadcast use crate::codegen::c::lemma_view;

// ---------------------------------------------------------------------------
// What a statement writes
// ---------------------------------------------------------------------------

/// A line made of code between two texts.
pub open spec fn line_c(
    st: model::State,
    p0: Seq<char>,
    c: model::Outcome<model::Code>,
    p1: Seq<char>,
) -> model::Outcome<model::State> {
    match c {
        Ok(c) => Ok(model::emitted(model::noted(st, c), p0 + c.text + p1)),
        Err(f) => Err(f),
    }
}

/// Statements, and then back to indentation `pad`.
pub open spec fn body_c(st: model::State, ss: Seq<Spanned<Stmt>>, pad: Seq<char>) -> model::Outcome<
    model::State,
>
    decreases ss, ss.len() + 1,
{
    match stmts_c(st, ss, 0) {
        Ok(after) => Ok(model::at_pad(after, pad)),
        Err(f) => Err(f),
    }
}

/// Statements, and then the innermost scope closed and back to indentation `pad`.
pub open spec fn scoped_c(st: model::State, ss: Seq<Spanned<Stmt>>, pad: Seq<char>) -> model::Outcome<
    model::State,
>
    decreases ss, ss.len() + 1,
{
    match stmts_c(st, ss, 0) {
        Ok(after) => Ok(model::at_pad(model::closed_scope(after), pad)),
        Err(f) => Err(f),
    }
}

/// One more line where all went well.
pub open spec fn then_line(r: model::Outcome<model::State>, line: Seq<char>) -> model::Outcome<
    model::State,
> {
    match r {
        Ok(st) => Ok(model::emitted(st, line)),
        Err(f) => Err(f),
    }
}

/// A step further in, with a scope of its own.
pub open spec fn inside(st: model::State) -> model::State {
    model::opened(model::indented(st))
}

/// The statements from the `i`-th on.
pub open spec fn stmts_c(st: model::State, ss: Seq<Spanned<Stmt>>, i: int) -> model::Outcome<
    model::State,
>
    decreases ss, ss.len() - i,
{
    if i < 0 || i >= ss.len() {
        Ok(st)
    } else {
        match stmt_c(st, ss[i]) {
            Ok(after) => stmts_c(after, ss, i + 1),
            Err(f) => Err(f),
        }
    }
}

/// What is told where an array length is no number of this machine.
pub open spec fn length_fault(shown: Seq<char>) -> error::Fault {
    error::Fault::Codegen("Array length must fit usize for codegen, got "@ + shown)
}

/// A declaration whose value is an array literal: its type must be an array of
/// as many elements.
pub open spec fn array_let_c(
    st: model::State,
    name: Seq<char>,
    ty: ast::Type,
    elements: Seq<Spanned<Expr>>,
) -> model::Outcome<model::State> {
    match aliases::meant(st.ctx.decls.aliases, ty) {
        ast::Type::Const { .. } => Err(
            error::Fault::Codegen(
                "array literal initializer requires an Array<T, N> type annotation"@,
            ),
        ),
        ast::Type::Named { name: ty_name, args } => if ty_name != "Array"@ || args.len() != 2 {
            Err(
                error::Fault::Codegen(
                    "array literal initializer requires Array<T, N>, got "@ + ty_name + "<...>"@,
                ),
            )
        } else {
            match model::const_arg(args[1], "Array length"@) {
                Err(f) => Err(f),
                Ok(len) => match text::number(len, usize::MAX as nat) {
                    None => Err(length_fault(error::debug_text(len))),
                    Some(n) => if elements.len() != n {
                        Err(
                            error::Fault::Codegen(
                                "Array literal length mismatch: Array expects "@ + text::dec(n)
                                    + " elements, got "@ + text::dec(elements.len()),
                            ),
                        )
                    } else {
                        match exprs::exprs_c(st.ctx, elements, elements.len() as int) {
                            Err(f) => Err(f),
                            Ok(cs) => match model::type_c(st.ctx.decls, ty) {
                                Err(f) => Err(f),
                                Ok(t) => line_c(
                                    st,
                                    t + " "@ + name + " = { .data = {"@,
                                    Ok(
                                        model::Code {
                                            text: text::joined(exprs::code_texts(cs), ", "@),
                                            tls: exprs::any_tls(cs),
                                        },
                                    ),
                                    "} };"@,
                                ),
                            },
                        }
                    },
                },
            }
        },
    }
}

/// A declaration.
pub open spec fn let_c(st: model::State, name: Seq<char>, ty: ast::Type, value: Spanned<Expr>) -> model::Outcome<
    model::State,
> {
    match (match value.node {
        Expr::ArrayLiteral { elements } => array_let_c(st, name, ty, elements@),
        _ => match exprs::constructor_c(st.ctx, ty, value) {
            Err(f) => Err(f),
            Ok(built) => match model::type_c(st.ctx.decls, ty) {
                Err(f) => Err(f),
                Ok(t) => line_c(
                    st,
                    t + " "@ + name + " = "@,
                    exprs::first_of(Ok(built), exprs::expr_c(st.ctx, value)),
                    ";"@,
                ),
            },
        },
    }) {
        Ok(after) => Ok(model::with_var(after, name, ty)),
        Err(f) => Err(f),
    }
}

/// A variable that parts can be read from; `self` may be behind a pointer.
pub open spec fn place_c(ctx: model::Ctx, name: Seq<char>) -> Seq<char> {
    if ctx.mut_self && name == "self"@ {
        "(*self)"@
    } else {
        name
    }
}

/// An expression that parts can be read from: a variable as it is, any other
/// expression through a temporary of the given C type.
pub open spec fn bound_c(
    st: model::State,
    e: Spanned<Expr>,
    ty: model::Outcome<Seq<char>>,
    prefix: Seq<char>,
) -> model::Outcome<(model::State, Seq<char>)> {
    match e.node {
        Expr::Identifier { name } => Ok((st, place_c(st.ctx, name@))),
        _ => match ty {
            Err(f) => Err(f),
            Ok(t) => {
                let temp = model::temp_name(prefix, st.temps);
                match line_c(
                    model::with_temp(st),
                    t + " "@ + temp + " = "@,
                    exprs::expr_c(st.ctx, e),
                    ";"@,
                ) {
                    Ok(after) => Ok((after, temp)),
                    Err(f) => Err(f),
                }
            },
        },
    }
}

/// A loop over a range. The end is evaluated once.
pub open spec fn range_for_c(st: model::State, s: Spanned<Stmt>) -> model::Outcome<model::State>
    decreases s, 1int,
{
    match s.node {
        Stmt::ForStmt { iterator, iterable, body } => match iterable.node {
            Expr::RangeExpr { start, end, inclusive } => match exprs::expr_c(st.ctx, *start) {
                Err(f) => Err(f),
                Ok(from) => match exprs::expr_c(st.ctx, *end) {
                    Err(f) => Err(f),
                    Ok(to) => {
                        let temp = model::temp_name("rg_end"@, st.temps);
                        let op = if inclusive {
                            "<="@
                        } else {
                            "<"@
                        };
                        let it = iterator@;
                        let begun = model::noted(model::noted(model::with_temp(st), from), to);
                        let block = model::indented(model::emitted(begun, "{"@));
                        let looped = model::emitted(
                            model::emitted(block, "int32_t "@ + temp + " = "@ + to.text + ";"@),
                            "for (int32_t "@ + it + " = "@ + from.text + "; "@ + it + " "@ + op
                                + " "@ + temp + "; "@ + it + "++) {"@,
                        );
                        let inner = model::with_var(inside(looped), it, model::i32_ty());
                        match then_line(
                            scoped_c(inner, body.statements@, looped.pad),
                            "}"@,
                        ) {
                            Err(f) => Err(f),
                            Ok(after) => Ok(model::emitted(model::at_pad(after, st.pad), "}"@)),
                        }
                    },
                },
            },
            _ => Ok(st),
        },
        _ => Ok(st),
    }
}

/// What a loop over a value of this type goes through: the type of the elements,
/// how often it runs, and whether that is known only when the program runs.
pub open spec fn loop_over(name: Seq<char>, args: Seq<ast::Type>, source: Seq<char>) -> model::Outcome<
    (ast::Type, Seq<char>, bool),
> {
    if (name == "Slice"@ || name == "Vec"@) && args.len() == 1 {
        Ok((args[0], source + ".len"@, true))
    } else if name == "Array"@ && args.len() == 2 {
        match model::const_arg(args[1], "Array length"@) {
            Ok(n) => Ok((args[0], n, false)),
            Err(f) => Err(f),
        }
    } else {
        Err(
            error::Fault::Codegen(
                "C backend only supports for-in over Slice<T> or Array<T, N>, got "@ + name
                    + "<...>"@,
            ),
        )
    }
}

/// Whether the length of what a loop goes through has to be read ahead, so that it
/// is fixed when the loop is entered: a variable can change in the loop, while
/// nothing changes a temporary.
pub open spec fn read_ahead(iterable: Spanned<Expr>, known_late: bool) -> bool {
    known_late && iterable.node is Identifier
}

/// The head of a loop over a collection, with the names for the index, which is
/// handed out already, and for the length, where that is `measured` ahead.
pub open spec fn loop_head_c(
    st: model::State,
    index: Seq<char>,
    limit: Seq<char>,
    bound: Seq<char>,
    measured: bool,
) -> model::State {
    if measured {
        model::emitted(
            model::with_temp(st),
            "for (size_t "@ + index + " = 0, "@ + limit + " = "@ + bound + "; "@ + index + " < "@
                + limit + "; "@ + index + "++) {"@,
        )
    } else {
        model::emitted(
            st,
            "for (size_t "@ + index + " = 0; "@ + index + " < "@ + bound + "; "@ + index
                + "++) {"@,
        )
    }
}

/// A loop over a collection.
pub open spec fn for_each_c(st: model::State, s: Spanned<Stmt>) -> model::Outcome<model::State>
    decreases s, 1int,
{
    match s.node {
        Stmt::ForStmt { iterator, iterable, body } => match exprs::receiver_type(
            st.ctx,
            iterable,
        ) {
            Some(ast::Type::Named { name, args }) => match bound_c(
                st,
                iterable,
                model::type_c(st.ctx.decls, ast::Type::Named { name, args }),
                "it"@,
            ) {
                Err(f) => Err(f),
                Ok(bound) => match loop_over(name, args, bound.1) {
                    Err(f) => Err(f),
                    Ok(over) => match model::type_c(st.ctx.decls, over.0) {
                        Err(f) => Err(f),
                        Ok(t) => {
                            let index = model::temp_name("i"@, bound.0.temps);
                            let begun = model::with_temp(bound.0);
                            let limit = model::temp_name("n"@, begun.temps);
                            let head = loop_head_c(
                                begun,
                                index,
                                limit,
                                over.1,
                                read_ahead(iterable, over.2),
                            );
                            let inner = model::emitted(
                                model::with_var(inside(head), iterator@, over.0),
                                t + " "@ + iterator@ + " = "@ + bound.1 + ".data["@ + index
                                    + "];"@,
                            );
                            then_line(scoped_c(inner, body.statements@, head.pad), "}"@)
                        },
                    },
                },
            },
            _ => Err(
                error::Fault::Codegen(
                    "for-in iterable has an unknown type (annotate it or bind it to a variable first)"@,
                ),
            ),
        },
        _ => Ok(st),
    }
}

/// What is told where a literal match meets a variant of no enum.
pub open spec fn variant_fault(shown: Seq<char>, ty_name: Seq<char>) -> error::Fault {
    error::Fault::Codegen(
        "variant pattern "@ + shown + " not supported in literal match on "@ + ty_name,
    )
}

/// The condition under which a pattern of a literal match applies; nothing where
/// there is none.
pub open spec fn cond_c(
    d: model::Decls,
    p: Pattern,
    scrut: Seq<char>,
    is_string: bool,
    ty_name: Seq<char>,
) -> model::Outcome<Option<Seq<char>>>
    decreases p, 0int,
{
    match p {
        Pattern::LiteralPattern { value } => if is_string {
            Ok(Some("strcmp("@ + scrut + ", \""@ + value@ + "\") == 0"@))
        } else {
            Ok(Some(scrut + " == "@ + value@))
        },
        Pattern::OrPattern { alternatives } => match conds_c(
            d,
            alternatives@,
            alternatives@.len() as int,
            scrut,
            is_string,
            ty_name,
        ) {
            Err(f) => Err(f),
            Ok(parts) => if parts.len() == 0 {
                Ok(None)
            } else {
                Ok(Some(text::joined(parts, " || "@)))
            },
        },
        Pattern::RangePattern { start, end, inclusive } => if is_string {
            Err(error::Fault::Codegen("range pattern not supported in match on "@ + ty_name))
        } else {
            Ok(
                Some(
                    "("@ + scrut + " >= "@ + start@ + " && "@ + scrut + (if inclusive {
                        " <= "@
                    } else {
                        " < "@
                    }) + end@ + ")"@,
                ),
            )
        },
        Pattern::WildcardPattern => Ok(None),
        Pattern::VariantPattern { name, .. } => if d.values.dom().contains(name@) {
            Ok(Some(scrut + " == "@ + text::dec_int(d.values[name@] as int)))
        } else {
            Err(variant_fault(error::debug_text(name@), ty_name))
        },
    }
}

/// The conditions of the first `n` alternatives that have one.
pub open spec fn conds_c(
    d: model::Decls,
    ps: Seq<Pattern>,
    n: int,
    scrut: Seq<char>,
    is_string: bool,
    ty_name: Seq<char>,
) -> model::Outcome<Seq<Seq<char>>>
    decreases ps, n,
{
    if n <= 0 || n > ps.len() {
        Ok(Seq::empty())
    } else {
        match conds_c(d, ps, n - 1, scrut, is_string, ty_name) {
            Err(f) => Err(f),
            Ok(parts) => match cond_c(d, ps[n - 1], scrut, is_string, ty_name) {
                Err(f) => Err(f),
                Ok(Some(c)) => Ok(parts.push(c)),
                Ok(None) => Ok(parts),
            },
        }
    }
}

/// An `if`/`else if` chain that is being written.
#[verifier::ext_equal]
pub struct Chain {
    pub st: model::State,
    /// Whether no branch is written yet.
    pub first: bool,
    /// The arm that takes what the branches leave; the last such arm counts.
    pub rest: Option<int>,
}

/// The head of the next branch.
pub open spec fn branch_head(ch: Chain, cond: Seq<char>) -> model::State {
    model::emitted(
        ch.st,
        (if ch.first {
            "if ("@
        } else {
            "} else if ("@
        }) + cond + ") {"@,
    )
}

/// The arms of a literal match from the `i`-th on.
pub open spec fn literal_arms_c(
    ch: Chain,
    arms: Seq<MatchArm>,
    i: int,
    scrut: Seq<char>,
    is_string: bool,
    ty_name: Seq<char>,
) -> model::Outcome<Chain>
    decreases arms, arms.len() - i,
{
    if i < 0 || i >= arms.len() {
        Ok(ch)
    } else {
        match cond_c(ch.st.ctx.decls, arms[i].pattern, scrut, is_string, ty_name) {
            Err(f) => Err(f),
            Ok(None) => literal_arms_c(
                Chain { rest: Some(i), ..ch },
                arms,
                i + 1,
                scrut,
                is_string,
                ty_name,
            ),
            Ok(Some(cond)) => {
                let head = branch_head(ch, cond);
                match scoped_c(inside(head), arms[i].body.statements@, head.pad) {
                    Err(f) => Err(f),
                    Ok(after) => literal_arms_c(
                        Chain { st: after, first: false, rest: ch.rest },
                        arms,
                        i + 1,
                        scrut,
                        is_string,
                        ty_name,
                    ),
                }
            },
        }
    }
}

/// A variable bound to a part of what is matched.
pub open spec fn binding_c(
    st: model::State,
    name: Seq<char>,
    ty: ast::Type,
    source: Seq<char>,
) -> model::Outcome<model::State> {
    match model::type_c(st.ctx.decls, ty) {
        Err(f) => Err(f),
        Ok(t) => Ok(
            model::emitted(
                model::with_var(st, name, ty),
                t + " "@ + name + " = "@ + source + ";"@,
            ),
        ),
    }
}

/// The payload of the variant with number `idx`.
pub open spec fn payload_at(d: model::Decls, ty_name: Seq<char>, idx: i32) -> Option<ast::Type> {
    if d.payloads.dom().contains(ty_name) && 0 <= idx < d.payloads[ty_name].len() {
        d.payloads[ty_name][idx as int]
    } else {
        None
    }
}

/// When a pattern of a match on a payload enum applies.
#[verifier::ext_equal]
pub enum TagTest {
    Never,
    Always,
    When(Seq<char>),
}

/// When a pattern of a match on a payload enum applies: a variant goes by the tag,
/// alternatives by either of theirs. A variant of no enum never does.
pub open spec fn tag_test(d: model::Decls, p: Pattern, scrut: Seq<char>) -> TagTest
    decreases p, 0int,
{
    match p {
        Pattern::WildcardPattern => TagTest::Always,
        Pattern::VariantPattern { name, .. } => if d.values.dom().contains(name@) {
            TagTest::When(scrut + ".tag == "@ + text::dec_int(d.values[name@] as int))
        } else {
            TagTest::Never
        },
        Pattern::OrPattern { alternatives } => match tag_conds(
            d,
            alternatives@,
            alternatives@.len() as int,
            scrut,
        ) {
            None => TagTest::Always,
            Some(parts) => if parts.len() == 0 {
                TagTest::Never
            } else {
                TagTest::When(text::joined(parts, " || "@))
            },
        },
        _ => TagTest::Never,
    }
}

/// The conditions of those of the first `n` alternatives that can apply; nothing
/// where one of them always does.
pub open spec fn tag_conds(d: model::Decls, ps: Seq<Pattern>, n: int, scrut: Seq<char>) -> Option<
    Seq<Seq<char>>,
>
    decreases ps, n,
{
    if n <= 0 || n > ps.len() {
        Some(Seq::empty())
    } else {
        match tag_conds(d, ps, n - 1, scrut) {
            None => None,
            Some(parts) => match tag_test(d, ps[n - 1], scrut) {
                TagTest::Never => Some(parts),
                TagTest::Always => None,
                TagTest::When(c) => Some(parts.push(c)),
            },
        }
    }
}

/// The payload of a variant bound to the name that its pattern gives it, if it has
/// a payload and the pattern one name.
pub open spec fn tag_bound_c(
    st: model::State,
    p: Pattern,
    scrut: Seq<char>,
    ty_name: Seq<char>,
) -> model::Outcome<model::State> {
    let d = st.ctx.decls;
    match p {
        Pattern::VariantPattern { name, bindings } => if d.values.dom().contains(name@)
            && bindings@.len() == 1 && payload_at(d, ty_name, d.values[name@]) is Some {
            binding_c(
                st,
                bindings@[0]@,
                payload_at(d, ty_name, d.values[name@])->0,
                scrut + ".u.v"@ + text::dec_int(d.values[name@] as int),
            )
        } else {
            Ok(st)
        },
        _ => Ok(st),
    }
}

/// The arms of a match on a payload enum from the `i`-th on.
pub open spec fn tagged_arms_c(
    ch: Chain,
    arms: Seq<MatchArm>,
    i: int,
    scrut: Seq<char>,
    ty_name: Seq<char>,
) -> model::Outcome<Chain>
    decreases arms, arms.len() - i,
{
    if i < 0 || i >= arms.len() {
        Ok(ch)
    } else {
        match tag_test(ch.st.ctx.decls, arms[i].pattern, scrut) {
            TagTest::Never => tagged_arms_c(ch, arms, i + 1, scrut, ty_name),
            TagTest::Always => tagged_arms_c(
                Chain { rest: Some(i), ..ch },
                arms,
                i + 1,
                scrut,
                ty_name,
            ),
            TagTest::When(cond) => {
                let head = branch_head(ch, cond);
                match tag_bound_c(inside(head), arms[i].pattern, scrut, ty_name) {
                    Err(f) => Err(f),
                    Ok(inner) => match scoped_c(inner, arms[i].body.statements@, head.pad) {
                        Err(f) => Err(f),
                        Ok(after) => tagged_arms_c(
                            Chain { st: after, first: false, rest: ch.rest },
                            arms,
                            i + 1,
                            scrut,
                            ty_name,
                        ),
                    },
                }
            },
        }
    }
}

/// The end of a chain: the arm that takes the rest, if there is one.
pub open spec fn chain_end_c(ch: Chain, arms: Seq<MatchArm>) -> model::Outcome<model::State>
    decreases arms, arms.len() + 1,
{
    match ch.rest {
        Some(k) => if 0 <= k < arms.len() {
            if ch.first {
                scoped_c(model::opened(ch.st), arms[k].body.statements@, ch.st.pad)
            } else {
                let head = model::emitted(ch.st, "} else {"@);
                then_line(scoped_c(inside(head), arms[k].body.statements@, head.pad), "}"@)
            }
        } else {
            Ok(ch.st)
        },
        None => if ch.first {
            Ok(ch.st)
        } else {
            Ok(model::emitted(ch.st, "}"@))
        },
    }
}

/// The type with this name and no arguments.
pub open spec fn named_type(name: Seq<char>) -> ast::Type {
    ast::Type::Named { name, args: Seq::empty() }
}

/// Whether an expression can be evaluated again and again: nothing is called or
/// assigned in it.
pub open spec fn steady(e: Spanned<Expr>) -> bool
    decreases e,
{
    match e.node {
        Expr::IntLiteral { .. } => true,
        Expr::FloatLiteral { .. } => true,
        Expr::StringLiteral { .. } => true,
        Expr::BoolLiteral { .. } => true,
        Expr::Identifier { .. } => true,
        Expr::UnaryExpr { value, .. } => steady(*value),
        Expr::BinaryExpr { left, right, .. } => steady(*left) && steady(*right),
        Expr::FieldAccessExpr { object, .. } => steady(*object),
        Expr::IndexExpr { object, index } => steady(*object) && steady(*index),
        _ => false,
    }
}

/// What a literal match compares in each branch: an expression as it is, or, where
/// something is called or assigned in it, through a temporary, so that this happens
/// once.
pub open spec fn compared_c(st: model::State, value: Spanned<Expr>, ty_name: Seq<char>) -> model::Outcome<
    (model::State, Seq<char>),
> {
    if steady(value) {
        match exprs::expr_c(st.ctx, value) {
            Ok(c) => Ok((model::noted(st, c), c.text)),
            Err(f) => Err(f),
        }
    } else {
        bound_c(st, value, model::type_c(st.ctx.decls, named_type(ty_name)), "m"@)
    }
}

/// A match on numbers, strings, or an enum without payloads.
pub open spec fn literal_match_c(st: model::State, s: Spanned<Stmt>, ty_name: Seq<char>) -> model::Outcome<
    model::State,
>
    decreases s, 1int,
{
    match s.node {
        Stmt::MatchStmt { value, arms } => match compared_c(st, value, ty_name) {
            Err(f) => Err(f),
            Ok(scrut) => match literal_arms_c(
                Chain { st: scrut.0, first: true, rest: None },
                arms@,
                0,
                scrut.1,
                ty_name == "String"@ || ty_name == "Str"@,
                ty_name,
            ) {
                Err(f) => Err(f),
                Ok(ch) => chain_end_c(ch, arms@),
            },
        },
        _ => Ok(st),
    }
}

/// A match on a payload enum.
pub open spec fn tagged_match_c(st: model::State, s: Spanned<Stmt>, ty_name: Seq<char>) -> model::Outcome<
    model::State,
>
    decreases s, 1int,
{
    match s.node {
        Stmt::MatchStmt { value, arms } => match bound_c(
            st,
            value,
            model::type_c(st.ctx.decls, named_type(ty_name)),
            "e"@,
        ) {
            Err(f) => Err(f),
            Ok(bound) => match tagged_arms_c(
                Chain { st: bound.0, first: true, rest: None },
                arms@,
                0,
                bound.1,
                ty_name,
            ) {
                Err(f) => Err(f),
                Ok(ch) => chain_end_c(ch, arms@),
            },
        },
        _ => Ok(st),
    }
}

/// What is told where an option or result is matched with another variant.
pub open spec fn match_variant_fault(shown: Seq<char>) -> error::Fault {
    error::Fault::Codegen("C backend does not support match variant "@ + shown)
}

/// The arms that were met so far in a match on an option or result.
#[verifier::ext_equal]
pub struct Picks {
    /// The arm for `Some`/`Ok`.
    pub yes: Option<int>,
    /// The arm for `None`/`Err`.
    pub no: Option<int>,
    /// The arm for whatever has no arm of its own.
    pub rest: Option<int>,
}

/// One arm, or else another.
pub open spec fn either(a: Option<int>, b: Option<int>) -> Option<int> {
    if a is Some {
        a
    } else {
        b
    }
}

/// The arms that were met, with the `k`-th, whose pattern is `p`.
pub open spec fn met_with(p: Pattern, k: int, met: Picks) -> model::Outcome<Picks>
    decreases p, 0int,
{
    match p {
        Pattern::VariantPattern { name, .. } => if name@ == "Some"@ || name@ == "Ok"@ {
            Ok(Picks { yes: Some(k), ..met })
        } else if name@ == "None"@ || name@ == "Err"@ {
            Ok(Picks { no: Some(k), ..met })
        } else {
            Err(match_variant_fault(error::debug_text(name@)))
        },
        Pattern::WildcardPattern => Ok(Picks { rest: Some(k), ..met }),
        Pattern::OrPattern { alternatives } => met_with_all(
            alternatives@,
            alternatives@.len() as int,
            k,
            met,
        ),
        _ => Ok(met),
    }
}

/// The arms that were met, with the `k`-th, by the first `n` alternatives of its
/// pattern.
pub open spec fn met_with_all(ps: Seq<Pattern>, n: int, k: int, met: Picks) -> model::Outcome<Picks>
    decreases ps, n,
{
    if n <= 0 || n > ps.len() {
        Ok(met)
    } else {
        match met_with_all(ps, n - 1, k, met) {
            Err(f) => Err(f),
            Ok(met) => met_with(ps[n - 1], k, met),
        }
    }
}

/// The arms for `Some`/`Ok` and for `None`/`Err`, with those from the `i`-th on;
/// the last of each counts, and a wildcard stands in for one that is missing.
pub open spec fn picked(arms: Seq<MatchArm>, i: int, met: Picks) -> model::Outcome<
    (Option<int>, Option<int>),
>
    decreases arms.len() - i,
{
    if i < 0 || i >= arms.len() {
        Ok((either(met.yes, met.rest), either(met.no, met.rest)))
    } else {
        match met_with(arms[i].pattern, i, met) {
            Err(f) => Err(f),
            Ok(met) => picked(arms, i + 1, met),
        }
    }
}

/// The arms for `Some`/`Ok` and for `None`/`Err`.
pub open spec fn picks(arms: Seq<MatchArm>) -> model::Outcome<(Option<int>, Option<int>)> {
    picked(arms, 0, Picks { yes: None, no: None, rest: None })
}

/// The first name that a pattern binds.
pub open spec fn first_binding(p: Pattern) -> Option<Seq<char>> {
    match p {
        Pattern::VariantPattern { bindings, .. } => if bindings@.len() > 0 {
            Some(bindings@[0]@)
        } else {
            None
        },
        _ => None,
    }
}

/// The arm `k` of an option or result match, if there is one; its first binding
/// stands for a part of type `ty`.
pub open spec fn arm_c(
    st: model::State,
    arms: Seq<MatchArm>,
    k: Option<int>,
    ty: Option<ast::Type>,
    source: Seq<char>,
    pad: Seq<char>,
) -> model::Outcome<model::State>
    decreases arms, arms.len() + 1,
{
    if k is Some && 0 <= k->0 < arms.len() {
        let arm = arms[k->0];
        match (if ty is Some && first_binding(arm.pattern) is Some {
            binding_c(st, first_binding(arm.pattern)->0, ty->0, source)
        } else {
            Ok(st)
        }) {
            Err(f) => Err(f),
            Ok(inner) => scoped_c(inner, arm.body.statements@, pad),
        }
    } else {
        Ok(model::at_pad(model::closed_scope(st), pad))
    }
}

/// A match on an option or a result of this type.
pub open spec fn option_match_c(
    st: model::State,
    s: Spanned<Stmt>,
    name: Seq<char>,
    args: Seq<ast::Type>,
) -> model::Outcome<model::State>
    decreases s, 1int,
{
    match s.node {
        Stmt::MatchStmt { value, arms } => {
            let is_option = name == "Option"@;
            match picks(arms@) {
                Err(f) => Err(f),
                Ok(pick) => match bound_c(
                    st,
                    value,
                    model::type_c(st.ctx.decls, ast::Type::Named { name, args }),
                    "m"@,
                ) {
                    Err(f) => Err(f),
                    Ok(bound) => {
                        let head = model::emitted(
                            bound.0,
                            "if ("@ + bound.1 + "."@ + (if is_option {
                                "some"@
                            } else {
                                "ok"@
                            }) + ") {"@,
                        );
                        match arm_c(
                            inside(head),
                            arms@,
                            pick.0,
                            Some(args[0]),
                            bound.1 + ".value"@,
                            head.pad,
                        ) {
                            Err(f) => Err(f),
                            Ok(then_done) => if pick.1 is None {
                                Ok(model::emitted(then_done, "}"@))
                            } else {
                                let other = model::emitted(then_done, "} else {"@);
                                then_line(
                                    arm_c(
                                        inside(other),
                                        arms@,
                                        pick.1,
                                        if is_option {
                                            None
                                        } else {
                                            Some(args[1])
                                        },
                                        bound.1 + ".error"@,
                                        other.pad,
                                    ),
                                    "}"@,
                                )
                            },
                        }
                    },
                },
            }
        },
        _ => Ok(st),
    }
}

/// A match.
pub open spec fn match_c(st: model::State, s: Spanned<Stmt>) -> model::Outcome<model::State>
    decreases s, 2int,
{
    match s.node {
        Stmt::MatchStmt { value, arms } => match exprs::receiver_type(st.ctx, value) {
            Some(ast::Type::Named { name, args }) => if name == "i32"@ || name == "String"@ || name
                == "Str"@ || (st.ctx.decls.enums.contains(name) && !model::has_payload(
                st.ctx.decls,
                name,
            )) {
                literal_match_c(st, s, name)
            } else if model::has_payload(st.ctx.decls, name) {
                tagged_match_c(st, s, name)
            } else if (name == "Option"@ && args.len() == 1) || (name == "Result"@ && args.len()
                == 2) {
                option_match_c(st, s, name, args)
            } else {
                Err(
                    error::Fault::Codegen(
                        "match supports Option<T> / Result<T, E>, got "@ + name,
                    ),
                )
            },
            _ => Err(
                error::Fault::Codegen(
                    "match scrutinee has an unknown type (annotate it or bind it to a variable first)"@,
                ),
            ),
        },
        _ => Ok(st),
    }
}

/// An `if`. Its branches are indented but share the scope around them.
pub open spec fn if_c(st: model::State, s: Spanned<Stmt>) -> model::Outcome<model::State>
    decreases s, 1int,
{
    match s.node {
        Stmt::IfStmt { condition, then_block, else_branch } => match line_c(
            st,
            "if ("@,
            exprs::expr_c(st.ctx, condition),
            ") {"@,
        ) {
            Err(f) => Err(f),
            Ok(head) => match body_c(model::indented(head), then_block.statements@, head.pad) {
                Err(f) => Err(f),
                Ok(then_done) => match else_branch {
                    None => Ok(model::emitted(then_done, "}"@)),
                    Some(ElseBranch::Block(block)) => {
                        let other = model::emitted(then_done, "} else {"@);
                        then_line(
                            body_c(model::indented(other), block.statements@, other.pad),
                            "}"@,
                        )
                    },
                    Some(ElseBranch::IfStmt(inner)) => {
                        let other = model::emitted(then_done, "} else {"@);
                        match stmt_c(model::indented(other), *inner) {
                            Err(f) => Err(f),
                            Ok(after) => Ok(
                                model::emitted(model::at_pad(after, other.pad), "}"@),
                            ),
                        }
                    },
                },
            },
        },
        _ => Ok(st),
    }
}

/// A statement.
pub open spec fn stmt_c(st: model::State, s: Spanned<Stmt>) -> model::Outcome<model::State>
    decreases s, 3int,
{
    match s.node {
        Stmt::LetStmt { name, ty, value, .. } => let_c(st, name@, ty@, value),
        Stmt::ReturnStmt { value } => match value {
            Some(e) => line_c(st, "return "@, exprs::typed_c(st.ctx, st.ret, e), ";"@),
            None => Ok(model::emitted(st, "return;"@)),
        },
        Stmt::IfStmt { .. } => if_c(st, s),
        Stmt::WhileStmt { condition, body } => match line_c(
            st,
            "while ("@,
            exprs::expr_c(st.ctx, condition),
            ") {"@,
        ) {
            Err(f) => Err(f),
            Ok(head) => then_line(scoped_c(inside(head), body.statements@, head.pad), "}"@),
        },
        Stmt::ForStmt { iterable, .. } => match iterable.node {
            Expr::RangeExpr { .. } => range_for_c(st, s),
            _ => for_each_c(st, s),
        },
        Stmt::ExprStmt { expr } => line_c(st, ""@, exprs::expr_c(st.ctx, expr), ";"@),
        Stmt::BreakStmt => Ok(model::emitted(st, "break;"@)),
        Stmt::ContinueStmt => Ok(model::emitted(st, "continue;"@)),
        Stmt::MatchStmt { .. } => match_c(st, s),
    }
}

// ---------------------------------------------------------------------------
// What a function writes
// ---------------------------------------------------------------------------

/// The first `n` parameters; `mut self` is passed by pointer.
pub open spec fn params_c(d: model::Decls, params: Seq<Param>, n: int) -> model::Outcome<
    Seq<Seq<char>>,
>
    decreases n,
{
    if n <= 0 || n > params.len() {
        Ok(Seq::empty())
    } else {
        match params_c(d, params, n - 1) {
            Err(f) => Err(f),
            Ok(parts) => {
                let p = params[n - 1];
                match model::type_c(d, p.ty@) {
                    Err(f) => Err(f),
                    Ok(t) => Ok(
                        parts.push(
                            t + (if n == 1 && p.mutable && p.name@ == "self"@ {
                                " *"@
                            } else {
                                " "@
                            }) + p.name@,
                        ),
                    ),
                }
            },
        }
    }
}

/// Whether a function is the entry point.
pub open spec fn is_main(name: Seq<char>, params: Seq<Param>) -> bool {
    name == "main"@ && params.len() == 0
}

/// The head of a function under a given name.
pub open spec fn signature_c(
    d: model::Decls,
    name: Seq<char>,
    params: Seq<Param>,
    return_type: ast::Type,
) -> model::Outcome<Seq<char>> {
    match model::type_c(d, return_type) {
        Err(f) => Err(f),
        Ok(ret) => if is_main(name, params) {
            Ok(ret + " "@ + name + "("@ + "int argc, char** argv"@ + ")"@)
        } else if params.len() == 0 {
            Ok(ret + " "@ + name + "("@ + "void"@ + ")"@)
        } else {
            match params_c(d, params, params.len() as int) {
                Err(f) => Err(f),
                Ok(parts) => Ok(
                    ret + " "@ + name + "("@ + text::joined(parts, ", "@) + ")"@,
                ),
            }
        },
    }
}

/// The variables in scope with the parameters from the `i`-th on.
pub open spec fn with_params(st: model::State, params: Seq<Param>, i: int) -> model::State
    decreases params.len() - i,
{
    if i < 0 || i >= params.len() {
        st
    } else {
        with_params(model::with_var(st, params[i].name@, params[i].ty@), params, i + 1)
    }
}

/// The function that is being written: its return type, and whether its `self`
/// is a pointer.
pub open spec fn in_function(st: model::State, ret: Option<ast::Type>, mut_self: bool) -> model::State {
    model::State { ret, ctx: model::Ctx { mut_self, ..st.ctx }, ..st }
}

/// The prototype of a function.
pub open spec fn prototype_c(st: model::State, item: Item, name: Seq<char>) -> model::Outcome<
    model::State,
> {
    match item {
        Item::FnDecl { params, return_type, .. } => match signature_c(
            st.ctx.decls,
            name,
            params@,
            return_type@,
        ) {
            Err(f) => Err(f),
            Ok(sig) => Ok(model::emitted(st, sig + ";"@)),
        },
        _ => Ok(st),
    }
}

/// A function.
pub open spec fn fn_c(st: model::State, item: Item, name: Seq<char>) -> model::Outcome<
    model::State,
> {
    match item {
        Item::FnDecl { params, return_type, body, .. } => match signature_c(
            st.ctx.decls,
            name,
            params@,
            return_type@,
        ) {
            Err(f) => Err(f),
            Ok(sig) => {
                let head = model::emitted(st, sig + " {"@);
                let known = with_params(inside(head), params@, 0);
                let begun = if is_main(name, params@) {
                    model::emitted(
                        model::emitted(known, "__xlang_argc_g = argc;"@),
                        "__xlang_argv_g = argv;"@,
                    )
                } else {
                    known
                };
                match scoped_c(
                    in_function(begun, Some(return_type@), model::takes_pointer(params@)),
                    body.statements@,
                    head.pad,
                ) {
                    Err(f) => Err(f),
                    Ok(after) => Ok(
                        model::emitted(in_function(after, None, st.ctx.mut_self), "}"@),
                    ),
                }
            },
        },
        _ => Ok(st),
    }
}

// ---------------------------------------------------------------------------
// Writing
// ---------------------------------------------------------------------------

/// An index that may be missing, as a mathematical value.
spec fn place(k: Option<usize>) -> Option<int> {
    match k {
        Some(k) => Some(k as int),
        None => None,
    }
}

/// Whether a step went as the model says. What a step that fails leaves behind is
/// stated where it is known: a declaration that fails leaves all as it was.
pub open spec fn went(
    r: XResult<()>,
    after: model::State,
    wanted: model::Outcome<model::State>,
) -> bool {
    match wanted {
        Ok(st) => r is Ok && after == st,
        Err(f) => r is Err && r->Err_0@ == f,
    }
}

/// The error for an array length that is no number of this machine; `shown` is
/// the length as it is shown to the user.
pub fn length_error(shown: &str) -> (r: XError)
    ensures
        r@ == length_fault(shown@),
{
    XError::Codegen(text::cat2("Array length must fit usize for codegen, got ", shown))
}

/// The error for a variant of no enum in a literal match; `shown` is the variant
/// as it is shown to the user.
pub fn variant_error(shown: &str, ty_name: &str) -> (r: XError)
    ensures
        r@ == variant_fault(shown@, ty_name@),
{
    XError::Codegen(
        text::cat4("variant pattern ", shown, " not supported in literal match on ", ty_name),
    )
}

/// The error for a variant that an option or result does not have; `shown` is the
/// variant as it is shown to the user.
pub fn match_variant_error(shown: &str) -> (r: XError)
    ensures
        r@ == match_variant_fault(shown@),
{
    XError::Codegen(text::cat2("C backend does not support match variant ", shown))
}

/// A condition that may be missing, with its errors by their views.
spec fn cond_shown(r: XResult<Option<String>>) -> model::Outcome<Option<Seq<char>>> {
    match r {
        Ok(Some(c)) => Ok(Some(c@)),
        Ok(None) => Ok(None),
        Err(e) => Err(e@),
    }
}

proof fn lemma_conds_fail(
    d: model::Decls,
    ps: Seq<Pattern>,
    i: int,
    n: int,
    scrut: Seq<char>,
    is_string: bool,
    ty_name: Seq<char>,
)
    requires
        0 <= i <= n <= ps.len(),
        conds_c(d, ps, i, scrut, is_string, ty_name) is Err,
    ensures
        conds_c(d, ps, n, scrut, is_string, ty_name) == conds_c(
            d,
            ps,
            i,
            scrut,
            is_string,
            ty_name,
        ),
    decreases n - i,
{
    if i < n {
        lemma_conds_fail(d, ps, i, n - 1, scrut, is_string, ty_name);
    }
}

proof fn lemma_params_fail(d: model::Decls, params: Seq<Param>, i: int, n: int)
    requires
        0 <= i <= n <= params.len(),
        params_c(d, params, i) is Err,
    ensures
        params_c(d, params, n) == params_c(d, params, i),
    decreases n - i,
{
    if i < n {
        lemma_params_fail(d, params, i, n - 1);
    }
}

/// The type `i32`, which the variable of a loop over a range has.
fn i32_type() -> (r: TypeNode)
    ensures
        r@ == model::i32_ty(),
{
    let r = TypeNode::TypeExpr { name: "i32".to_string(), args: Vec::new() };
    assert(r@->args =~= Seq::<ast::Type>::empty());
    r
}

/// The type with this name and no arguments.
fn named_node(name: &str) -> (r: TypeNode)
    ensures
        r@ == named_type(name@),
{
    let r = TypeNode::TypeExpr { name: name.to_string(), args: Vec::new() };
    assert(r@->args =~= Seq::<ast::Type>::empty());
    r
}

/// Whether a method takes its receiver by pointer.
pub(crate) fn by_pointer(params: &Vec<Param>) -> (r: bool)
    ensures
        r == model::takes_pointer(params@),
{
    params.len() > 0 && params[0].mutable && text::same(params[0].name.as_str(), "self")
}

/// Whether nothing is called or assigned in an expression.
fn is_steady(e: &Spanned<Expr>) -> (r: bool)
    ensures
        r == steady(*e),
    decreases e,
{
    match &e.node {
        Expr::IntLiteral { .. } => true,
        Expr::FloatLiteral { .. } => true,
        Expr::StringLiteral { .. } => true,
        Expr::BoolLiteral { .. } => true,
        Expr::Identifier { .. } => true,
        Expr::UnaryExpr { value, .. } => is_steady(value),
        Expr::BinaryExpr { left, right, .. } => is_steady(left) && is_steady(right),
        Expr::FieldAccessExpr { object, .. } => is_steady(object),
        Expr::IndexExpr { object, index } => is_steady(object) && is_steady(index),
        _ => false,
    }
}

proof fn lemma_met_fails(ps: Seq<Pattern>, i: int, n: int, k: int, met: Picks)
    requires
        0 <= i <= n <= ps.len(),
        met_with_all(ps, i, k, met) is Err,
    ensures
        met_with_all(ps, n, k, met) == met_with_all(ps, i, k, met),
    decreases n - i,
{
    if i < n {
        lemma_met_fails(ps, i, n - 1, k, met);
    }
}

/// The arms that were met so far in a match on an option or result.
#[derive(Clone, Copy)]
struct Met {
    yes: Option<usize>,
    no: Option<usize>,
    rest: Option<usize>,
}

impl Met {
    spec fn picks(self) -> Picks {
        Picks { yes: place(self.yes), no: place(self.no), rest: place(self.rest) }
    }

    /// What was met, with the `k`-th arm, whose pattern is `p`.
    fn with_arm(self, p: &Pattern, k: usize) -> (r: XResult<Met>)
        ensures
            match met_with(*p, k as int, self.picks()) {
                Ok(met) => r is Ok && r->Ok_0.picks() == met,
                Err(f) => r is Err && r->Err_0@ == f,
            },
        decreases p, 0int,
    {
        match p {
            Pattern::VariantPattern { name, .. } => {
                let n = name.as_str();
                if text::same(n, "Some") || text::same(n, "Ok") {
                    Ok(Met { yes: Some(k), no: self.no, rest: self.rest })
                } else if text::same(n, "None") || text::same(n, "Err") {
                    Ok(Met { yes: self.yes, no: Some(k), rest: self.rest })
                } else {
                    let shown = debug_quoted(n);
                    Err(match_variant_error(shown.as_str()))
                }
            },
            Pattern::WildcardPattern => Ok(Met { yes: self.yes, no: self.no, rest: Some(k) }),
            Pattern::OrPattern { alternatives } => self.with_arms(alternatives, k),
            _ => Ok(self),
        }
    }

    /// What was met, with the `k`-th arm, by each alternative of its pattern.
    fn with_arms(self, ps: &Vec<Pattern>, k: usize) -> (r: XResult<Met>)
        ensures
            match met_with_all(ps@, ps@.len() as int, k as int, self.picks()) {
                Ok(met) => r is Ok && r->Ok_0.picks() == met,
                Err(f) => r is Err && r->Err_0@ == f,
            },
        decreases ps@, ps@.len(),
    {
        let mut met = self;
        let mut i: usize = 0;
        while i < ps.len()
            invariant
                i <= ps@.len(),
                met_with_all(ps@, i as int, k as int, self.picks()) == Ok::<Picks, error::Fault>(
                    met.picks(),
                ),
            decreases ps@.len() - i,
        {
            match met.with_arm(&ps[i], k) {
                Ok(next) => {
                    met = next;
                },
                Err(e) => {
                    proof {
                        lemma_met_fails(ps@, i + 1, ps@.len() as int, k as int, self.picks());
                    }
                    return Err(e);
                },
            }
            i += 1;
        }
        Ok(met)
    }
}

/// The arms for `Some`/`Ok` and for `None`/`Err`.
fn pick_arms(arms: &Vec<MatchArm>) -> (r: XResult<(Option<usize>, Option<usize>)>)
    ensures
        match picks(arms@) {
            Ok(pick) => r is Ok && place(r->Ok_0.0) == pick.0 && place(r->Ok_0.1) == pick.1,
            Err(f) => r is Err && r->Err_0@ == f,
        },
{
    let mut met = Met { yes: None, no: None, rest: None };
    let mut i: usize = 0;
    while i < arms.len()
        invariant
            i <= arms@.len(),
            picks(arms@) == picked(arms@, i as int, met.picks()),
        decreases arms@.len() - i,
    {
        met = met.with_arm(&arms[i].pattern, i)?;
        i += 1;
    }
    let yes = if met.yes.is_some() {
        met.yes
    } else {
        met.rest
    };
    let no = if met.no.is_some() {
        met.no
    } else {
        met.rest
    };
    Ok((yes, no))
}

/// When a pattern of a match on a payload enum applies.
enum Tested {
    Never,
    Always,
    When(String),
}

impl Tested {
    spec fn test(self) -> TagTest {
        match self {
            Tested::Never => TagTest::Never,
            Tested::Always => TagTest::Always,
            Tested::When(c) => TagTest::When(c@),
        }
    }
}

proof fn lemma_always(d: model::Decls, ps: Seq<Pattern>, i: int, n: int, scrut: Seq<char>)
    requires
        0 <= i <= n <= ps.len(),
        tag_conds(d, ps, i, scrut) is None,
    ensures
        tag_conds(d, ps, n, scrut) is None,
    decreases n - i,
{
    if i < n {
        lemma_always(d, ps, i, n - 1, scrut);
    }
}

impl CGen {
    /// Write a line at the current indentation.
    pub(crate) fn emit(&mut self, line: &str)
        ensures
            final(self).state() == model::emitted(old(self).state(), line@),
    {
        let full = text::cat2(self.pad.as_str(), line);
        let ghost before = self.lines@;
        self.lines.push(full);
        assert(text::texts(self.lines@) =~= text::texts(before).push(full@));
    }

    /// Go one step further in.
    fn indent(&mut self)
        ensures
            final(self).state() == model::indented(old(self).state()),
    {
        self.pad = text::cat2(self.pad.as_str(), "    ");
    }

    /// Go back to an indentation.
    fn dedent(&mut self, pad: String)
        ensures
            final(self).state() == model::at_pad(old(self).state(), pad@),
    {
        self.pad = pad;
    }

    fn push_scope(&mut self)
        ensures
            final(self).state() == model::opened(old(self).state()),
    {
        self.scopes.push();
    }

    fn pop_scope(&mut self)
        ensures
            final(self).state() == model::closed_scope(old(self).state()),
    {
        self.scopes.pop();
    }

    fn declare_var(&mut self, name: &str, ty: TypeNode)
        ensures
            final(self).state() == model::with_var(old(self).state(), name@, ty@),
    {
        self.scopes.declare(name, ty);
    }

    /// A new temporary.
    fn next_temp(&mut self, prefix: &str) -> (r: String)
        ensures
            final(self).state() == model::with_temp(old(self).state()),
            r@ == model::temp_name(prefix@, old(self).temp_counter),
    {
        let number = text::decimal(self.temp_counter as u64);
        self.temp_counter = self.temp_counter.wrapping_add(1);
        text::cat3("__xlang_", prefix, number.as_str())
    }

    /// Write a line made of code between two texts.
    fn emit_code(&mut self, p0: &str, c: exprs::Rendered, p1: &str)
        ensures
            Ok::<model::State, error::Fault>(final(self).state()) == line_c(
                old(self).state(),
                p0@,
                Ok(c.code()),
                p1@,
            ),
    {
        self.uses_tls = self.uses_tls || c.tls;
        let line = text::cat3(p0, c.text.as_str(), p1);
        self.emit(line.as_str());
    }

    fn gen_stmts(&mut self, ss: &Vec<Spanned<Stmt>>) -> (r: XResult<()>)
        ensures
            went(r, final(self).state(), stmts_c(old(self).state(), ss@, 0)),
        decreases ss@, ss@.len(),
    {
        let mut i: usize = 0;
        while i < ss.len()
            invariant
                i <= ss@.len(),
                stmts_c(old(self).state(), ss@, 0) == stmts_c(self.state(), ss@, i as int),
            decreases ss@.len() - i,
        {
            self.gen_stmt(&ss[i])?;
            i += 1;
        }
        Ok(())
    }

    /// Statements, and then the innermost scope closed and back to an indentation.
    fn gen_scoped(&mut self, ss: &Vec<Spanned<Stmt>>, pad: String) -> (r: XResult<()>)
        ensures
            went(r, final(self).state(), scoped_c(old(self).state(), ss@, pad@)),
        decreases ss@, ss@.len() + 1,
    {
        self.gen_stmts(ss)?;
        self.pop_scope();
        self.dedent(pad);
        Ok(())
    }

    fn gen_let_stmt(&mut self, name: &str, ty: &TypeNode, value: &Spanned<Expr>) -> (r: XResult<()>)
        ensures
            went(r, final(self).state(), let_c(old(self).state(), name@, ty@, *value)),
            r is Err ==> final(self).state() == old(self).state(),
    {
        match &value.node {
            Expr::ArrayLiteral { elements } => {
                self.gen_array_let_stmt(name, ty, elements)?;
            },
            _ => {
                let built = self.try_constructor(ty, value)?;
                let t = self.c_type(ty)?;
                let c = match built {
                    Some(c) => c,
                    None => self.gen_expr(value)?,
                };
                let front = text::cat4(t.as_str(), " ", name, " = ");
                self.emit_code(front.as_str(), c, ";");
            },
        }
        self.declare_var(name, ty.copied());
        Ok(())
    }

    fn gen_array_let_stmt(
        &mut self,
        name: &str,
        ty: &TypeNode,
        elements: &Vec<Spanned<Expr>>,
    ) -> (r: XResult<()>)
        ensures
            went(r, final(self).state(), array_let_c(old(self).state(), name@, ty@, elements@)),
            r is Err ==> final(self).state() == old(self).state(),
    {
        let meant = self.aliases.meaning(ty);
        proof {
            ast::lemma_args(meant);
        }
        let (ty_name, args) = match &meant {
            TypeNode::TypeExpr { name, args } => (name.as_str(), args),
            TypeNode::ConstTypeArg { .. } => {
                return Err(
                    XError::Codegen(
                        "array literal initializer requires an Array<T, N> type annotation".to_string(),
                    ),
                );
            },
        };
        if !text::same(ty_name, "Array") || args.len() != 2 {
            return Err(
                XError::Codegen(
                    text::cat3(
                        "array literal initializer requires Array<T, N>, got ",
                        ty_name,
                        "<...>",
                    ),
                ),
            );
        }
        let len = self.const_type_arg_value(&args[1], "Array length")?;
        let declared: usize = match text::parse_size(len.as_str()) {
            Some(n) => n,
            None => {
                let shown = debug_quoted(len.as_str());
                return Err(length_error(shown.as_str()));
            },
        };
        if elements.len() != declared {
            let wanted = text::decimal(declared as u64);
            let found = text::decimal(elements.len() as u64);
            return Err(
                XError::Codegen(
                    text::cat4(
                        "Array literal length mismatch: Array expects ",
                        wanted.as_str(),
                        " elements, got ",
                        found.as_str(),
                    ),
                ),
            );
        }
        let list = self.gen_exprs(elements, elements.len())?;
        let t = self.c_type(ty)?;
        let front = text::cat4(t.as_str(), " ", name, " = { .data = {");
        let inside = text::join(&list.texts, ", ");
        self.emit_code(front.as_str(), exprs::Rendered { text: inside, tls: list.tls }, "} };");
        Ok(())
    }

    /// An expression that parts can be read from.
    fn gen_bound(&mut self, e: &Spanned<Expr>, ty: &TypeNode, prefix: &str) -> (r: XResult<String>)
        ensures
            match bound_c(
                old(self).state(),
                *e,
                model::type_c(old(self).decls(), ty@),
                prefix@,
            ) {
                Ok(bound) => r is Ok && final(self).state() == bound.0 && r->Ok_0@ == bound.1,
                Err(f) => r is Err && r->Err_0@ == f,
            },
    {
        match &e.node {
            Expr::Identifier { name } => if self.in_mut_self && text::same(name.as_str(), "self") {
                Ok("(*self)".to_string())
            } else {
                Ok(name.clone())
            },
            _ => {
                let t = self.c_type(ty)?;
                let temp = self.next_temp(prefix);
                let init = self.gen_expr(e)?;
                let front = text::cat4(t.as_str(), " ", temp.as_str(), " = ");
                self.emit_code(front.as_str(), init, ";");
                Ok(temp)
            },
        }
    }

    /// A loop over a range.
    fn gen_range_for(&mut self, stmt: &Spanned<Stmt>) -> (r: XResult<()>)
        ensures
            went(r, final(self).state(), range_for_c(old(self).state(), *stmt)),
        decreases stmt, 1int,
    {
        let (iterator, iterable, body) = match &stmt.node {
            Stmt::ForStmt { iterator, iterable, body } => (iterator.as_str(), iterable, body),
            _ => {
                return Ok(());
            },
        };
        match &iterable.node {
            Expr::RangeExpr { start, end, inclusive } => {
                let from = self.gen_expr(start)?;
                let to = self.gen_expr(end)?;
                let temp = self.next_temp("rg_end");
                let op = if *inclusive {
                    "<="
                } else {
                    "<"
                };
                self.uses_tls = self.uses_tls || from.tls || to.tls;
                let outer = self.pad.clone();
                self.emit("{");
                self.indent();
                let captured = text::cat5(
                    "int32_t ",
                    temp.as_str(),
                    " = ",
                    to.text.as_str(),
                    ";",
                );
                self.emit(captured.as_str());
                let front = text::cat6(
                    "for (int32_t ",
                    iterator,
                    " = ",
                    from.text.as_str(),
                    "; ",
                    iterator,
                );
                let head = text::cat7(
                    front.as_str(),
                    " ",
                    op,
                    " ",
                    temp.as_str(),
                    "; ",
                    iterator,
                );
                let head = text::cat2(head.as_str(), "++) {");
                self.emit(head.as_str());
                let pad = self.pad.clone();
                self.indent();
                self.push_scope();
                self.declare_var(iterator, i32_type());
                self.gen_scoped(&body.statements, pad)?;
                self.emit("}");
                self.dedent(outer);
                self.emit("}");
                Ok(())
            },
            _ => Ok(()),
        }
    }

    /// The head of a loop over a collection, whose index has a name already.
    fn emit_loop_head(&mut self, index: &str, bound: &str, measured: bool)
        ensures
            final(self).state() == loop_head_c(
                old(self).state(),
                index@,
                model::temp_name("n"@, old(self).temp_counter),
                bound@,
                measured,
            ),
    {
        if measured {
            let limit = self.next_temp("n");
            let front = text::cat6(
                "for (size_t ",
                index,
                " = 0, ",
                limit.as_str(),
                " = ",
                bound,
            );
            let front = text::cat5(front.as_str(), "; ", index, " < ", limit.as_str());
            let head = text::cat4(front.as_str(), "; ", index, "++) {");
            self.emit(head.as_str());
        } else {
            let front = text::cat5("for (size_t ", index, " = 0; ", index, " < ");
            let head = text::cat5(front.as_str(), bound, "; ", index, "++) {");
            self.emit(head.as_str());
        }
    }

    /// A loop over a collection.
    fn gen_for_stmt(&mut self, stmt: &Spanned<Stmt>) -> (r: XResult<()>)
        ensures
            went(r, final(self).state(), for_each_c(old(self).state(), *stmt)),
        decreases stmt, 1int,
    {
        let (iterator, iterable, body) = match &stmt.node {
            Stmt::ForStmt { iterator, iterable, body } => (iterator.as_str(), iterable, body),
            _ => {
                return Ok(());
            },
        };
        let ty = match self.receiver_type(iterable) {
            Some(TypeNode::TypeExpr { name, args }) => Some(TypeNode::TypeExpr { name, args }),
            _ => None,
        };
        let ty = match ty {
            Some(t) => t,
            None => {
                return Err(
                    XError::Codegen(
                        "for-in iterable has an unknown type (annotate it or bind it to a variable first)".to_string(),
                    ),
                );
            },
        };
        proof {
            ast::lemma_args(ty);
        }
        let source = self.gen_bound(iterable, &ty, "it")?;
        let (elem_ty, bound, known_late) = self.loop_bound(&ty, source.as_str())?;
        let measured = known_late && match &iterable.node {
            Expr::Identifier { .. } => true,
            _ => false,
        };
        let t = self.c_type(&elem_ty)?;
        let index = self.next_temp("i");
        self.emit_loop_head(index.as_str(), bound.as_str(), measured);
        let pad = self.pad.clone();
        self.indent();
        self.push_scope();
        self.declare_var(iterator, elem_ty);
        let front = text::cat5(t.as_str(), " ", iterator, " = ", source.as_str());
        let element = text::cat4(front.as_str(), ".data[", index.as_str(), "];");
        self.emit(element.as_str());
        self.gen_scoped(&body.statements, pad)?;
        self.emit("}");
        Ok(())
    }

    /// What a loop over a value of this type goes through.
    fn loop_bound(&self, ty: &TypeNode, source: &str) -> (r: XResult<(TypeNode, String, bool)>)
        requires
            ty is TypeExpr,
        ensures
            match loop_over(ty@->name, ty@->args, source@) {
                Ok(over) => r is Ok && r->Ok_0.0@ == over.0 && r->Ok_0.1@ == over.1 && r->Ok_0.2
                    == over.2,
                Err(f) => r is Err && r->Err_0@ == f,
            },
    {
        proof {
            ast::lemma_args(*ty);
        }
        match ty {
            TypeNode::TypeExpr { name, args } => {
                let n = name.as_str();
                if (text::same(n, "Slice") || text::same(n, "Vec")) && args.len() == 1 {
                    Ok((args[0].copied(), text::cat2(source, ".len"), true))
                } else if text::same(n, "Array") && args.len() == 2 {
                    let len = self.const_type_arg_value(&args[1], "Array length")?;
                    Ok((args[0].copied(), len.clone(), false))
                } else {
                    Err(
                        XError::Codegen(
                            text::cat3(
                                "C backend only supports for-in over Slice<T> or Array<T, N>, got ",
                                n,
                                "<...>",
                            ),
                        ),
                    )
                }
            },
            TypeNode::ConstTypeArg { .. } => Err(XError::Codegen(String::new())),
        }
    }

    /// The condition under which a pattern of a literal match applies.
    fn pattern_cond(&self, pattern: &Pattern, scrut: &str, is_string: bool, ty_name: &str) -> (r:
        XResult<Option<String>>)
        ensures
            cond_shown(r) == cond_c(self.decls(), *pattern, scrut@, is_string, ty_name@),
        decreases pattern, 0int,
    {
        match pattern {
            Pattern::LiteralPattern { value } => if is_string {
                Ok(Some(text::cat5("strcmp(", scrut, ", \"", value.as_str(), "\") == 0")))
            } else {
                Ok(Some(text::cat3(scrut, " == ", value.as_str())))
            },
            Pattern::OrPattern { alternatives } => {
                let parts = self.pattern_conds(alternatives, scrut, is_string, ty_name)?;
                assert(text::texts(parts@).len() == parts@.len());
                if parts.len() == 0 {
                    Ok(None)
                } else {
                    Ok(Some(text::join(&parts, " || ")))
                }
            },
            Pattern::RangePattern { start, end, inclusive } => if is_string {
                Err(
                    XError::Codegen(
                        text::cat2("range pattern not supported in match on ", ty_name),
                    ),
                )
            } else {
                let op = if *inclusive {
                    " <= "
                } else {
                    " < "
                };
                let front = text::cat6("(", scrut, " >= ", start.as_str(), " && ", scrut);
                Ok(Some(text::cat4(front.as_str(), op, end.as_str(), ")")))
            },
            Pattern::WildcardPattern => Ok(None),
            Pattern::VariantPattern { name, .. } => match self.enum_values.get(name.as_str()) {
                Some(v) => {
                    let number = text::decimal_signed(*v);
                    Ok(Some(text::cat3(scrut, " == ", number.as_str())))
                },
                None => {
                    let shown = debug_quoted(name.as_str());
                    Err(variant_error(shown.as_str(), ty_name))
                },
            },
        }
    }

    /// The conditions of the alternatives that have one.
    fn pattern_conds(
        &self,
        ps: &Vec<Pattern>,
        scrut: &str,
        is_string: bool,
        ty_name: &str,
    ) -> (r: XResult<Vec<String>>)
        ensures
            match conds_c(
                self.decls(),
                ps@,
                ps@.len() as int,
                scrut@,
                is_string,
                ty_name@,
            ) {
                Ok(parts) => r is Ok && text::texts(r->Ok_0@) == parts,
                Err(f) => r is Err && r->Err_0@ == f,
            },
        decreases ps@, ps@.len(),
    {
        let mut parts: Vec<String> = Vec::new();
        let mut i: usize = 0;
        assert(text::texts(parts@) =~= Seq::<Seq<char>>::empty());
        while i < ps.len()
            invariant
                i <= ps@.len(),
                conds_c(self.decls(), ps@, i as int, scrut@, is_string, ty_name@) == Ok::<
                    Seq<Seq<char>>,
                    error::Fault,
                >(text::texts(parts@)),
            decreases ps@.len() - i,
        {
            match self.pattern_cond(&ps[i], scrut, is_string, ty_name) {
                Ok(Some(c)) => {
                    let ghost before = parts@;
                    parts.push(c);
                    assert(text::texts(parts@) =~= text::texts(before).push(c@));
                },
                Ok(None) => {},
                Err(e) => {
                    proof {
                        lemma_conds_fail(
                            self.decls(),
                            ps@,
                            i + 1,
                            ps@.len() as int,
                            scrut@,
                            is_string,
                            ty_name@,
                        );
                    }
                    return Err(e);
                },
            }
            i += 1;
        }
        Ok(parts)
    }

    /// The head of the next branch of a chain.
    fn emit_branch(&mut self, first: bool, cond: &str, Ghost(rest): Ghost<Option<int>>)
        ensures
            final(self).state() == branch_head(
                Chain { st: old(self).state(), first, rest },
                cond@,
            ),
    {
        let front = if first {
            "if ("
        } else {
            "} else if ("
        };
        let line = text::cat3(front, cond, ") {");
        self.emit(line.as_str());
    }

    /// The end of a chain.
    fn gen_chain_end(&mut self, first: bool, rest: Option<usize>, arms: &Vec<MatchArm>) -> (r:
        XResult<()>)
        ensures
            went(
                r,
                final(self).state(),
                chain_end_c(Chain { st: old(self).state(), first, rest: place(rest) }, arms@),
            ),
        decreases arms@, arms@.len() + 1,
    {
        match rest {
            Some(k) => if k < arms.len() {
                assert(decreases_to!(arms@ => arms@[k as int]));
                let pad = self.pad.clone();
                if first {
                    self.push_scope();
                    self.gen_scoped(&arms[k].body.statements, pad)
                } else {
                    self.emit("} else {");
                    self.indent();
                    self.push_scope();
                    self.gen_scoped(&arms[k].body.statements, pad)?;
                    self.emit("}");
                    Ok(())
                }
            } else {
                Ok(())
            },
            None => {
                if !first {
                    self.emit("}");
                }
                Ok(())
            },
        }
    }

    /// A match on numbers, strings, or an enum without payloads.
    fn gen_literal_match(&mut self, stmt: &Spanned<Stmt>, ty_name: &str) -> (r: XResult<()>)
        ensures
            went(r, final(self).state(), literal_match_c(old(self).state(), *stmt, ty_name@)),
        decreases stmt, 1int,
    {
        let (value, arms) = match &stmt.node {
            Stmt::MatchStmt { value, arms } => (value, arms),
            _ => {
                return Ok(());
            },
        };
        let scrut = if is_steady(value) {
            let c = self.gen_expr(value)?;
            self.uses_tls = self.uses_tls || c.tls;
            c.text
        } else {
            let ty = named_node(ty_name);
            self.gen_bound(value, &ty, "m")?
        };
        let is_string = text::same(ty_name, "String") || text::same(ty_name, "Str");
        let (first, rest) = self.gen_literal_arms(arms, scrut.as_str(), is_string, ty_name)?;
        self.gen_chain_end(first, rest, arms)
    }

    fn gen_literal_arms(
        &mut self,
        arms: &Vec<MatchArm>,
        scrut: &str,
        is_string: bool,
        ty_name: &str,
    ) -> (r: XResult<(bool, Option<usize>)>)
        ensures
            match literal_arms_c(
                Chain { st: old(self).state(), first: true, rest: None },
                arms@,
                0,
                scrut@,
                is_string,
                ty_name@,
            ) {
                Ok(ch) => r is Ok && ch == (Chain {
                    st: final(self).state(),
                    first: r->Ok_0.0,
                    rest: place(r->Ok_0.1),
                }),
                Err(f) => r is Err && r->Err_0@ == f,
            },
        decreases arms@, arms@.len(),
    {
        let mut first = true;
        let mut rest: Option<usize> = None;
        let mut i: usize = 0;
        while i < arms.len()
            invariant
                i <= arms@.len(),
                literal_arms_c(
                    Chain { st: old(self).state(), first: true, rest: None },
                    arms@,
                    0,
                    scrut@,
                    is_string,
                    ty_name@,
                ) == literal_arms_c(
                    Chain { st: self.state(), first, rest: place(rest) },
                    arms@,
                    i as int,
                    scrut@,
                    is_string,
                    ty_name@,
                ),
            decreases arms@.len() - i,
        {
            assert(decreases_to!(arms@ => arms@[i as int]));
            match self.pattern_cond(&arms[i].pattern, scrut, is_string, ty_name)? {
                Some(cond) => {
                    let pad = self.pad.clone();
                    self.emit_branch(first, cond.as_str(), Ghost(place(rest)));
                    first = false;
                    self.indent();
                    self.push_scope();
                    self.gen_scoped(&arms[i].body.statements, pad)?;
                },
                None => {
                    rest = Some(i);
                },
            }
            i += 1;
        }
        Ok((first, rest))
    }

    /// A variable bound to a part of what is matched.
    fn gen_binding(&mut self, name: &str, ty: &TypeNode, source: &str) -> (r: XResult<()>)
        ensures
            went(r, final(self).state(), binding_c(old(self).state(), name@, ty@, source@)),
    {
        let t = self.c_type(ty)?;
        self.declare_var(name, ty.copied());
        let line = text::cat6(t.as_str(), " ", name, " = ", source, ";");
        self.emit(line.as_str());
        Ok(())
    }

    /// The payload of the variant with number `idx`.
    fn payload_type(&self, ty_name: &str, idx: i32) -> (r: Option<TypeNode>)
        ensures
            model::payload_type(r) == payload_at(self.decls(), ty_name@, idx),
    {
        match self.enum_payloads.get(ty_name) {
            Some(payloads) => if idx >= 0 && (idx as usize) < payloads.list.len() {
                let k: usize = idx as usize;
                assert(payloads@[k as int] == model::payload_type(payloads.list@[k as int]));
                match &payloads.list[k] {
                    Some(t) => Some(t.copied()),
                    None => None,
                }
            } else {
                None
            },
            None => None,
        }
    }

    /// When a pattern of a match on a payload enum applies.
    fn test_tag(&self, p: &Pattern, scrut: &str) -> (r: Tested)
        ensures
            r.test() == tag_test(self.decls(), *p, scrut@),
        decreases p, 0int,
    {
        match p {
            Pattern::WildcardPattern => Tested::Always,
            Pattern::VariantPattern { name, .. } => match self.enum_values.get(name.as_str()) {
                Some(v) => {
                    let number = text::decimal_signed(*v);
                    Tested::When(text::cat3(scrut, ".tag == ", number.as_str()))
                },
                None => Tested::Never,
            },
            Pattern::OrPattern { alternatives } => match self.test_tags(alternatives, scrut) {
                None => Tested::Always,
                Some(parts) => {
                    assert(text::texts(parts@).len() == parts@.len());
                    if parts.len() == 0 {
                        Tested::Never
                    } else {
                        Tested::When(text::join(&parts, " || "))
                    }
                },
            },
            _ => Tested::Never,
        }
    }

    /// The conditions of the alternatives that can apply, unless one always does.
    fn test_tags(&self, ps: &Vec<Pattern>, scrut: &str) -> (r: Option<Vec<String>>)
        ensures
            match tag_conds(self.decls(), ps@, ps@.len() as int, scrut@) {
                Some(parts) => r is Some && text::texts(r->0@) == parts,
                None => r is None,
            },
        decreases ps@, ps@.len(),
    {
        let mut parts: Vec<String> = Vec::new();
        let mut i: usize = 0;
        assert(text::texts(parts@) =~= Seq::<Seq<char>>::empty());
        while i < ps.len()
            invariant
                i <= ps@.len(),
                tag_conds(self.decls(), ps@, i as int, scrut@) == Some(text::texts(parts@)),
            decreases ps@.len() - i,
        {
            match self.test_tag(&ps[i], scrut) {
                Tested::Never => {},
                Tested::Always => {
                    proof {
                        lemma_always(self.decls(), ps@, i + 1, ps@.len() as int, scrut@);
                    }
                    return None;
                },
                Tested::When(c) => {
                    let ghost before = parts@;
                    parts.push(c);
                    assert(text::texts(parts@) =~= text::texts(before).push(c@));
                },
            }
            i += 1;
        }
        Some(parts)
    }

    /// Bind the payload of a variant, if its pattern names it.
    fn gen_tag_binding(&mut self, p: &Pattern, scrut: &str, ty_name: &str) -> (r: XResult<()>)
        ensures
            went(r, final(self).state(), tag_bound_c(old(self).state(), *p, scrut@, ty_name@)),
    {
        if let Pattern::VariantPattern { name, bindings } = p {
            let idx: Option<i32> = match self.enum_values.get(name.as_str()) {
                Some(v) => Some(*v),
                None => None,
            };
            if let Some(idx) = idx {
                if bindings.len() == 1 {
                    if let Some(ty) = self.payload_type(ty_name, idx) {
                        let number = text::decimal_signed(idx);
                        let source = text::cat3(scrut, ".u.v", number.as_str());
                        return self.gen_binding(bindings[0].as_str(), &ty, source.as_str());
                    }
                }
            }
        }
        Ok(())
    }

    /// A match on a payload enum: on the tag, with the payload bound in each arm.
    fn gen_enum_struct_match(&mut self, stmt: &Spanned<Stmt>, ty_name: &str) -> (r: XResult<()>)
        ensures
            went(r, final(self).state(), tagged_match_c(old(self).state(), *stmt, ty_name@)),
        decreases stmt, 1int,
    {
        let (value, arms) = match &stmt.node {
            Stmt::MatchStmt { value, arms } => (value, arms),
            _ => {
                return Ok(());
            },
        };
        let ty = named_node(ty_name);
        let scrut = self.gen_bound(value, &ty, "e")?;
        let (first, rest) = self.gen_tagged_arms(arms, scrut.as_str(), ty_name)?;
        self.gen_chain_end(first, rest, arms)
    }

    fn gen_tagged_arms(&mut self, arms: &Vec<MatchArm>, scrut: &str, ty_name: &str) -> (r: XResult<
        (bool, Option<usize>),
    >)
        ensures
            match tagged_arms_c(
                Chain { st: old(self).state(), first: true, rest: None },
                arms@,
                0,
                scrut@,
                ty_name@,
            ) {
                Ok(ch) => r is Ok && ch == (Chain {
                    st: final(self).state(),
                    first: r->Ok_0.0,
                    rest: place(r->Ok_0.1),
                }),
                Err(f) => r is Err && r->Err_0@ == f,
            },
        decreases arms@, arms@.len(),
    {
        let mut first = true;
        let mut rest: Option<usize> = None;
        let mut i: usize = 0;
        while i < arms.len()
            invariant
                i <= arms@.len(),
                tagged_arms_c(
                    Chain { st: old(self).state(), first: true, rest: None },
                    arms@,
                    0,
                    scrut@,
                    ty_name@,
                ) == tagged_arms_c(
                    Chain { st: self.state(), first, rest: place(rest) },
                    arms@,
                    i as int,
                    scrut@,
                    ty_name@,
                ),
            decreases arms@.len() - i,
        {
            assert(decreases_to!(arms@ => arms@[i as int]));
            match self.test_tag(&arms[i].pattern, scrut) {
                Tested::Never => {},
                Tested::Always => {
                    rest = Some(i);
                },
                Tested::When(cond) => {
                    let pad = self.pad.clone();
                    self.emit_branch(first, cond.as_str(), Ghost(place(rest)));
                    first = false;
                    self.indent();
                    self.push_scope();
                    self.gen_tag_binding(&arms[i].pattern, scrut, ty_name)?;
                    self.gen_scoped(&arms[i].body.statements, pad)?;
                },
            }
            i += 1;
        }
        Ok((first, rest))
    }

    /// One arm of an option or result match.
    fn gen_arm(
        &mut self,
        arms: &Vec<MatchArm>,
        k: Option<usize>,
        ty: Option<&TypeNode>,
        source: &str,
        pad: String,
    ) -> (r: XResult<()>)
        ensures
            went(
                r,
                final(self).state(),
                arm_c(
                    old(self).state(),
                    arms@,
                    place(k),
                    match ty {
                        Some(t) => Some(t@),
                        None => None,
                    },
                    source@,
                    pad@,
                ),
            ),
        decreases arms@, arms@.len() + 1,
    {
        if let Some(k) = k {
            if k < arms.len() {
                assert(decreases_to!(arms@ => arms@[k as int]));
                if let Some(ty) = ty {
                    if let Pattern::VariantPattern { bindings, .. } = &arms[k].pattern {
                        if bindings.len() > 0 {
                            self.gen_binding(bindings[0].as_str(), ty, source)?;
                        }
                    }
                }
                return self.gen_scoped(&arms[k].body.statements, pad);
            }
        }
        self.pop_scope();
        self.dedent(pad);
        Ok(())
    }

    /// A match on an option or a result.
    fn gen_option_match(&mut self, stmt: &Spanned<Stmt>, ty: &TypeNode) -> (r: XResult<()>)
        requires
            ty is TypeExpr,
            (ty@->name == "Option"@ && ty@->args.len() == 1) || (ty@->name == "Result"@
                && ty@->args.len() == 2),
        ensures
            went(
                r,
                final(self).state(),
                option_match_c(old(self).state(), *stmt, ty@->name, ty@->args),
            ),
        decreases stmt, 1int,
    {
        proof {
            ast::lemma_args(*ty);
            reveal_strlit("Option");
            reveal_strlit("Result");
        }
        let (value, arms) = match &stmt.node {
            Stmt::MatchStmt { value, arms } => (value, arms),
            _ => {
                return Ok(());
            },
        };
        let (name, args) = match ty {
            TypeNode::TypeExpr { name, args } => (name.as_str(), args),
            TypeNode::ConstTypeArg { .. } => {
                return Ok(());
            },
        };
        let is_option = text::same(name, "Option");
        let (yes, no) = pick_arms(arms)?;
        let scrut = self.gen_bound(value, ty, "m")?;
        let test = if is_option {
            "some"
        } else {
            "ok"
        };
        let head = text::cat5("if (", scrut.as_str(), ".", test, ") {");
        let pad = self.pad.clone();
        self.emit(head.as_str());
        self.indent();
        self.push_scope();
        let payload = text::cat2(scrut.as_str(), ".value");
        self.gen_arm(arms, yes, Some(&args[0]), payload.as_str(), pad)?;
        if no.is_some() {
            let pad = self.pad.clone();
            self.emit("} else {");
            self.indent();
            self.push_scope();
            let failure = text::cat2(scrut.as_str(), ".error");
            if is_option {
                self.gen_arm(arms, no, None, failure.as_str(), pad)?;
            } else {
                self.gen_arm(arms, no, Some(&args[1]), failure.as_str(), pad)?;
            }
        }
        self.emit("}");
        Ok(())
    }

    fn gen_match_stmt(&mut self, stmt: &Spanned<Stmt>) -> (r: XResult<()>)
        ensures
            went(r, final(self).state(), match_c(old(self).state(), *stmt)),
        decreases stmt, 2int,
    {
        let value = match &stmt.node {
            Stmt::MatchStmt { value, .. } => value,
            _ => {
                return Ok(());
            },
        };
        let ty = match self.receiver_type(value) {
            Some(TypeNode::TypeExpr { name, args }) => Some(TypeNode::TypeExpr { name, args }),
            _ => None,
        };
        let ty = match ty {
            Some(t) => t,
            None => {
                return Err(
                    XError::Codegen(
                        "match scrutinee has an unknown type (annotate it or bind it to a variable first)".to_string(),
                    ),
                );
            },
        };
        proof {
            ast::lemma_args(ty);
        }
        match &ty {
            TypeNode::TypeExpr { name, args } => {
                let n = name.as_str();
                if text::same(n, "i32") || text::same(n, "String") || text::same(n, "Str") || (
                self.enum_names.contains(n) && !self.enum_has_payload(n)) {
                    self.gen_literal_match(stmt, n)
                } else if self.enum_has_payload(n) {
                    self.gen_enum_struct_match(stmt, n)
                } else if (text::same(n, "Option") && args.len() == 1) || (text::same(n, "Result")
                    && args.len() == 2) {
                    self.gen_option_match(stmt, &ty)
                } else {
                    Err(
                        XError::Codegen(
                            text::cat2("match supports Option<T> / Result<T, E>, got ", n),
                        ),
                    )
                }
            },
            TypeNode::ConstTypeArg { .. } => Ok(()),
        }
    }

    fn gen_if(&mut self, stmt: &Spanned<Stmt>) -> (r: XResult<()>)
        ensures
            went(r, final(self).state(), if_c(old(self).state(), *stmt)),
        decreases stmt, 1int,
    {
        match &stmt.node {
            Stmt::IfStmt { condition, then_block, else_branch } => {
                let c = self.gen_expr(condition)?;
                let pad = self.pad.clone();
                self.emit_code("if (", c, ") {");
                self.indent();
                self.gen_stmts(&then_block.statements)?;
                self.dedent(pad);
                match else_branch {
                    None => {},
                    Some(ElseBranch::Block(block)) => {
                        let pad = self.pad.clone();
                        self.emit("} else {");
                        self.indent();
                        self.gen_stmts(&block.statements)?;
                        self.dedent(pad);
                    },
                    Some(ElseBranch::IfStmt(inner)) => {
                        let pad = self.pad.clone();
                        self.emit("} else {");
                        self.indent();
                        self.gen_stmt(inner)?;
                        self.dedent(pad);
                    },
                }
                self.emit("}");
                Ok(())
            },
            _ => Ok(()),
        }
    }

    /// Write a statement. Where one without a block in it fails, nothing is written.
    /// One that is written only adds to what there is, and declares only in the
    /// innermost scope, if at all.
    pub fn gen_stmt(&mut self, stmt: &Spanned<Stmt>) -> (r: XResult<()>)
        ensures
            went(r, final(self)@, stmt_c(old(self)@, *stmt)),
            r is Err && (stmt.node is LetStmt || stmt.node is ReturnStmt || stmt.node is ExprStmt)
                ==> final(self)@ == old(self)@,
            r is Ok ==> statements::kept(old(self)@, final(self)@),
            r is Ok && !(stmt.node is LetStmt) && !(stmt.node is IfStmt) ==> statements::closed_off(
                old(self)@,
                final(self)@,
            ),
        decreases stmt, 3int,
    {
        proof {
            statements::law_statement_only_adds(self.state(), *stmt);
        }
        match &stmt.node {
            Stmt::LetStmt { name, ty, value, .. } => self.gen_let_stmt(name.as_str(), ty, value),
            Stmt::ReturnStmt { value } => {
                match value {
                    Some(e) => {
                        let wanted = match &self.fn_return {
                            Some(t) => Some(t),
                            None => None,
                        };
                        let c = self.gen_typed(wanted, e)?;
                        self.emit_code("return ", c, ";");
                    },
                    None => {
                        self.emit("return;");
                    },
                }
                Ok(())
            },
            Stmt::IfStmt { .. } => self.gen_if(stmt),
            Stmt::WhileStmt { condition, body } => {
                let c = self.gen_expr(condition)?;
                let pad = self.pad.clone();
                self.emit_code("while (", c, ") {");
                self.indent();
                self.push_scope();
                self.gen_scoped(&body.statements, pad)?;
                self.emit("}");
                Ok(())
            },
            Stmt::ForStmt { iterable, .. } => match &iterable.node {
                Expr::RangeExpr { .. } => self.gen_range_for(stmt),
                _ => self.gen_for_stmt(stmt),
            },
            Stmt::ExprStmt { expr } => {
                let c = self.gen_expr(expr)?;
                self.emit_code("", c, ";");
                Ok(())
            },
            Stmt::BreakStmt => {
                self.emit("break;");
                Ok(())
            },
            Stmt::ContinueStmt => {
                self.emit("continue;");
                Ok(())
            },
            Stmt::MatchStmt { .. } => self.gen_match_stmt(stmt),
        }
    }

    fn gen_params(&self, params: &Vec<Param>) -> (r: XResult<Vec<String>>)
        ensures
            match params_c(self.decls(), params@, params@.len() as int) {
                Ok(parts) => r is Ok && text::texts(r->Ok_0@) == parts,
                Err(f) => r is Err && r->Err_0@ == f,
            },
    {
        let mut parts: Vec<String> = Vec::new();
        let mut i: usize = 0;
        assert(text::texts(parts@) =~= Seq::<Seq<char>>::empty());
        while i < params.len()
            invariant
                i <= params@.len(),
                params_c(self.decls(), params@, i as int) == Ok::<Seq<Seq<char>>, error::Fault>(
                    text::texts(parts@),
                ),
            decreases params@.len() - i,
        {
            let name = params[i].name.as_str();
            match self.c_type(&params[i].ty) {
                Ok(t) => {
                    let middle = if i == 0 && params[i].mutable && text::same(name, "self") {
                        " *"
                    } else {
                        " "
                    };
                    let ghost before = parts@;
                    let part = text::cat3(t.as_str(), middle, name);
                    parts.push(part);
                    assert(text::texts(parts@) =~= text::texts(before).push(part@));
                },
                Err(e) => {
                    proof {
                        lemma_params_fail(self.decls(), params@, i + 1, params@.len() as int);
                    }
                    return Err(e);
                },
            }
            i += 1;
        }
        Ok(parts)
    }

    fn gen_signature(&self, name: &str, params: &Vec<Param>, return_type: &TypeNode) -> (r: XResult<
        String,
    >)
        ensures
            error::outcome(r) == signature_c(self.decls(), name@, params@, return_type@),
    {
        let ret = self.c_type(return_type)?;
        let inside = if text::same(name, "main") && params.len() == 0 {
            "int argc, char** argv".to_string()
        } else if params.len() == 0 {
            "void".to_string()
        } else {
            let parts = self.gen_params(params)?;
            text::join(&parts, ", ")
        };
        Ok(text::cat6(ret.as_str(), " ", name, "(", inside.as_str(), ")"))
    }

    /// A forward declaration, so that functions may stand in any order.
    pub(crate) fn gen_fn_prototype(&mut self, item: &Item, name: &str) -> (r: XResult<()>)
        ensures
            went(r, final(self).state(), prototype_c(old(self).state(), *item, name@)),
    {
        match item {
            Item::FnDecl { params, return_type, .. } => {
                let sig = self.gen_signature(name, params, return_type)?;
                let line = text::cat2(sig.as_str(), ";");
                self.emit(line.as_str());
                Ok(())
            },
            _ => Ok(()),
        }
    }

    /// A function.
    pub(crate) fn gen_fn(&mut self, item: &Item, name: &str) -> (r: XResult<()>)
        ensures
            went(r, final(self).state(), fn_c(old(self).state(), *item, name@)),
    {
        match item {
            Item::FnDecl { params, return_type, body, .. } => {
                let sig = self.gen_signature(name, params, return_type)?;
                let outer = self.in_mut_self;
                let pad = self.pad.clone();
                let line = text::cat2(sig.as_str(), " {");
                self.emit(line.as_str());
                self.indent();
                self.push_scope();
                let ghost opened = self.state();
                let mut i: usize = 0;
                while i < params.len()
                    invariant
                        i <= params@.len(),
                        with_params(opened, params@, 0) == with_params(
                            self.state(),
                            params@,
                            i as int,
                        ),
                    decreases params@.len() - i,
                {
                    self.declare_var(params[i].name.as_str(), params[i].ty.copied());
                    i += 1;
                }
                if text::same(name, "main") && params.len() == 0 {
                    self.emit("__xlang_argc_g = argc;");
                    self.emit("__xlang_argv_g = argv;");
                }
                self.in_mut_self = by_pointer(params);
                self.fn_return = Some(return_type.copied());
                self.gen_scoped(&body.statements, pad)?;
                self.fn_return = None;
                self.in_mut_self = outer;
                self.emit("}");
                Ok(())
            },
            _ => Ok(()),
        }
    }
}

} // verus!
