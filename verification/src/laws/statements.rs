//! The generator: what writing a statement keeps.

use vstd::prelude::*;

use crate::ast;
use crate::ast::{ElseBranch, Expr, Item, MatchArm, Param, Pattern, Stmt};
use crate::codegen::exprs;
use crate::codegen::model;
use crate::codegen::stmts;
use crate::scopes;
use crate::source::Spanned;
use crate::text;

verus! {

/// Whether the count of temporaries does not fall, and rises by no more than the
/// number of lines, unless so many lines take it around the end of its range.
pub open spec fn counted(a: model::State, b: model::State) -> bool {
    a.temps + (b.lines.len() - a.lines.len()) <= usize::MAX ==> a.temps <= b.temps <= a.temps + (
    b.lines.len() - a.lines.len())
}

/// Whether `b` is `a` with more written: the lines of `a` come first in `b`, what
/// is known of the program is the same, the count of temporaries does not fall, and
/// a TLS call that was noted still is.
pub open spec fn grown(a: model::State, b: model::State) -> bool {
    &&& a.lines.len() <= b.lines.len()
    &&& forall|i: int|
        #![trigger a.lines[i]]
        #![trigger b.lines[i]]
        0 <= i < a.lines.len() ==> a.lines[i] == b.lines[i]
    &&& a.ctx.decls == b.ctx.decls
    &&& a.ctx.mut_self == b.ctx.mut_self
    &&& a.ret == b.ret
    &&& counted(a, b)
    &&& a.tls ==> b.tls
}

/// Whether two stacks of scopes differ at most in the innermost scope.
pub open spec fn outer_same(
    a: Seq<Map<Seq<char>, ast::Type>>,
    b: Seq<Map<Seq<char>, ast::Type>>,
) -> bool {
    a.len() == b.len() && forall|i: int|
        #![trigger a[i]]
        #![trigger b[i]]
        0 <= i < a.len() - 1 ==> a[i] == b[i]
}

/// Whether `b` is `a` with more written, at the same indentation and in the same
/// scopes, but for what the innermost scope declares.
pub open spec fn kept(a: model::State, b: model::State) -> bool {
    grown(a, b) && a.pad == b.pad && outer_same(a.ctx.vars, b.ctx.vars)
}

/// Whether `b` is `a` with more written, at the same indentation and in exactly the
/// same scopes.
pub open spec fn closed_off(a: model::State, b: model::State) -> bool {
    kept(a, b) && a.ctx.vars == b.ctx.vars
}

proof fn lemma_left(inner: Seq<Map<Seq<char>, ast::Type>>, after: Seq<Map<Seq<char>, ast::Type>>)
    requires
        outer_same(inner, after),
    ensures
        scopes::left(after) == scopes::left(inner),
{
    assert(scopes::left(after) =~= scopes::left(inner));
}

proof fn lemma_inside(vars: Seq<Map<Seq<char>, ast::Type>>)
    ensures
        scopes::left(scopes::entered(vars)) == vars,
        forall|name: Seq<char>, ty: ast::Type|
            scopes::left(#[trigger] scopes::declared(scopes::entered(vars), name, ty)) == vars,
{
    assert(scopes::left(scopes::entered(vars)) =~= vars);
    assert forall|name: Seq<char>, ty: ast::Type|
        scopes::left(#[trigger] scopes::declared(scopes::entered(vars), name, ty)) == vars by {
        assert(scopes::left(scopes::declared(scopes::entered(vars), name, ty)) =~= vars);
    }
}

proof fn lemma_bound(
    st: model::State,
    e: Spanned<Expr>,
    ty: model::Outcome<Seq<char>>,
    prefix: Seq<char>,
)
    ensures
        stmts::bound_c(st, e, ty, prefix) is Ok ==> kept(
            st,
            stmts::bound_c(st, e, ty, prefix)->Ok_0.0,
        ) && stmts::bound_c(st, e, ty, prefix)->Ok_0.0.ctx.vars == st.ctx.vars,
{
}

/// Statements, with the innermost scope closed at the end, leave the scopes that
/// were around them, and the wanted indentation.
proof fn lemma_scoped(st: model::State, ss: Seq<Spanned<Stmt>>, pad: Seq<char>)
    ensures
        stmts::scoped_c(st, ss, pad) is Ok ==> {
            let after = stmts::scoped_c(st, ss, pad)->Ok_0;
            grown(st, after) && after.pad == pad && after.ctx.vars == scopes::left(st.ctx.vars)
        },
    decreases ss, ss.len() + 1,
{
    lemma_stmts(st, ss, 0);
    if stmts::stmts_c(st, ss, 0) is Ok {
        lemma_left(st.ctx.vars, stmts::stmts_c(st, ss, 0)->Ok_0.ctx.vars);
    }
}

proof fn lemma_stmts(st: model::State, ss: Seq<Spanned<Stmt>>, i: int)
    ensures
        stmts::stmts_c(st, ss, i) is Ok ==> kept(st, stmts::stmts_c(st, ss, i)->Ok_0),
    decreases ss, ss.len() - i,
{
    if 0 <= i < ss.len() {
        law_statement_only_adds(st, ss[i]);
        if stmts::stmt_c(st, ss[i]) is Ok {
            lemma_stmts(stmts::stmt_c(st, ss[i])->Ok_0, ss, i + 1);
        }
    }
}

proof fn lemma_literal_arms(
    ch: stmts::Chain,
    arms: Seq<MatchArm>,
    i: int,
    scrut: Seq<char>,
    is_string: bool,
    ty_name: Seq<char>,
)
    ensures
        stmts::literal_arms_c(ch, arms, i, scrut, is_string, ty_name) is Ok ==> {
            let after = stmts::literal_arms_c(ch, arms, i, scrut, is_string, ty_name)->Ok_0;
            kept(ch.st, after.st) && after.st.ctx.vars == ch.st.ctx.vars
        },
    decreases arms, arms.len() - i,
{
    if 0 <= i < arms.len() {
        match stmts::cond_c(ch.st.ctx.decls, arms[i].pattern, scrut, is_string, ty_name) {
            Err(_) => {},
            Ok(None) => {
                lemma_literal_arms(
                    stmts::Chain { rest: Some(i), ..ch },
                    arms,
                    i + 1,
                    scrut,
                    is_string,
                    ty_name,
                );
            },
            Ok(Some(cond)) => {
                let head = stmts::branch_head(ch, cond);
                let ss = arms[i].body.statements@;
                lemma_inside(head.ctx.vars);
                lemma_scoped(stmts::inside(head), ss, head.pad);
                if stmts::scoped_c(stmts::inside(head), ss, head.pad) is Ok {
                    let after = stmts::scoped_c(stmts::inside(head), ss, head.pad)->Ok_0;
                    lemma_literal_arms(
                        stmts::Chain { st: after, first: false, rest: ch.rest },
                        arms,
                        i + 1,
                        scrut,
                        is_string,
                        ty_name,
                    );
                }
            },
        }
    }
}

proof fn lemma_tagged_arms(
    ch: stmts::Chain,
    arms: Seq<MatchArm>,
    i: int,
    scrut: Seq<char>,
    ty_name: Seq<char>,
)
    ensures
        stmts::tagged_arms_c(ch, arms, i, scrut, ty_name) is Ok ==> {
            let after = stmts::tagged_arms_c(ch, arms, i, scrut, ty_name)->Ok_0;
            kept(ch.st, after.st) && after.st.ctx.vars == ch.st.ctx.vars
        },
    decreases arms, arms.len() - i,
{
    if 0 <= i < arms.len() {
        let p = arms[i].pattern;
        match stmts::tag_test(ch.st.ctx.decls, p, scrut) {
            stmts::TagTest::Never => {
                lemma_tagged_arms(ch, arms, i + 1, scrut, ty_name);
            },
            stmts::TagTest::Always => {
                lemma_tagged_arms(
                    stmts::Chain { rest: Some(i), ..ch },
                    arms,
                    i + 1,
                    scrut,
                    ty_name,
                );
            },
            stmts::TagTest::When(cond) => {
                let head = stmts::branch_head(ch, cond);
                let ss = arms[i].body.statements@;
                let begun = stmts::tag_bound_c(stmts::inside(head), p, scrut, ty_name);
                lemma_inside(head.ctx.vars);
                if begun is Ok {
                    let inner = begun->Ok_0;
                    lemma_scoped(inner, ss, head.pad);
                    if stmts::scoped_c(inner, ss, head.pad) is Ok {
                        let after = stmts::scoped_c(inner, ss, head.pad)->Ok_0;
                        lemma_tagged_arms(
                            stmts::Chain { st: after, first: false, rest: ch.rest },
                            arms,
                            i + 1,
                            scrut,
                            ty_name,
                        );
                    }
                }
            },
        }
    }
}

proof fn lemma_chain_end(ch: stmts::Chain, arms: Seq<MatchArm>)
    ensures
        stmts::chain_end_c(ch, arms) is Ok ==> closed_off(ch.st, stmts::chain_end_c(ch, arms)->Ok_0),
    decreases arms, arms.len() + 1,
{
    if let Some(k) = ch.rest {
        if 0 <= k < arms.len() {
            let ss = arms[k].body.statements@;
            lemma_inside(ch.st.ctx.vars);
            if ch.first {
                lemma_scoped(model::opened(ch.st), ss, ch.st.pad);
            } else {
                let head = model::emitted(ch.st, "} else {"@);
                lemma_scoped(stmts::inside(head), ss, head.pad);
            }
        }
    }
}

proof fn lemma_arm(
    st: model::State,
    arms: Seq<MatchArm>,
    k: Option<int>,
    ty: Option<ast::Type>,
    source: Seq<char>,
    pad: Seq<char>,
    vars: Seq<Map<Seq<char>, ast::Type>>,
)
    requires
        st.ctx.vars == scopes::entered(vars),
    ensures
        stmts::arm_c(st, arms, k, ty, source, pad) is Ok ==> {
            let after = stmts::arm_c(st, arms, k, ty, source, pad)->Ok_0;
            grown(st, after) && after.pad == pad && after.ctx.vars == vars
        },
    decreases arms, arms.len() + 1,
{
    lemma_inside(vars);
    if k is Some && 0 <= k->0 < arms.len() {
        let arm = arms[k->0];
        let begun = if ty is Some && stmts::first_binding(arm.pattern) is Some {
            stmts::binding_c(st, stmts::first_binding(arm.pattern)->0, ty->0, source)
        } else {
            Ok(st)
        };
        if begun is Ok {
            lemma_scoped(begun->Ok_0, arm.body.statements@, pad);
        }
    }
}

proof fn lemma_option_match(
    st: model::State,
    s: Spanned<Stmt>,
    name: Seq<char>,
    args: Seq<ast::Type>,
)
    ensures
        stmts::option_match_c(st, s, name, args) is Ok ==> closed_off(
            st,
            stmts::option_match_c(st, s, name, args)->Ok_0,
        ),
    decreases s, 1int,
{
    if let Stmt::MatchStmt { value, arms } = s.node {
        let is_option = name == "Option"@;
        let ty = model::type_c(st.ctx.decls, ast::Type::Named { name, args });
        let pick = stmts::picks(arms@);
        let bound = stmts::bound_c(st, value, ty, "m"@);
        lemma_bound(st, value, ty, "m"@);
        if pick is Ok && bound is Ok {
            let (begun, scrut) = bound->Ok_0;
            let head = model::emitted(
                begun,
                "if ("@ + scrut + "."@ + (if is_option {
                    "some"@
                } else {
                    "ok"@
                }) + ") {"@,
            );
            let yes = stmts::arm_c(
                stmts::inside(head),
                arms@,
                pick->Ok_0.0,
                Some(args[0]),
                scrut + ".value"@,
                head.pad,
            );
            lemma_arm(
                stmts::inside(head),
                arms@,
                pick->Ok_0.0,
                Some(args[0]),
                scrut + ".value"@,
                head.pad,
                head.ctx.vars,
            );
            if yes is Ok {
                let other = model::emitted(yes->Ok_0, "} else {"@);
                lemma_arm(
                    stmts::inside(other),
                    arms@,
                    pick->Ok_0.1,
                    if is_option {
                        None
                    } else {
                        Some(args[1])
                    },
                    scrut + ".error"@,
                    other.pad,
                    other.ctx.vars,
                );
            }
        }
    }
}

proof fn lemma_match(st: model::State, s: Spanned<Stmt>)
    ensures
        stmts::match_c(st, s) is Ok ==> closed_off(st, stmts::match_c(st, s)->Ok_0),
    decreases s, 2int,
{
    if let Stmt::MatchStmt { value, arms } = s.node {
        if let Some(ast::Type::Named { name, args }) = exprs::receiver_type(st.ctx, value) {
            lemma_option_match(st, s, name, args);
            // On literals.
            let known = model::type_c(st.ctx.decls, stmts::named_type(name));
            lemma_bound(st, value, known, "m"@);
            if stmts::compared_c(st, value, name) is Ok {
                let (begun, scrut) = stmts::compared_c(st, value, name)->Ok_0;
                let ch = stmts::Chain { st: begun, first: true, rest: None };
                let is_string = name == "String"@ || name == "Str"@;
                lemma_literal_arms(ch, arms@, 0, scrut, is_string, name);
                let written = stmts::literal_arms_c(
                    ch,
                    arms@,
                    0,
                    scrut,
                    is_string,
                    name,
                );
                if written is Ok {
                    lemma_chain_end(written->Ok_0, arms@);
                }
            }
            // On a tag.
            lemma_bound(st, value, known, "e"@);
            if stmts::bound_c(st, value, known, "e"@) is Ok {
                let (begun, scrut) = stmts::bound_c(st, value, known, "e"@)->Ok_0;
                let ch = stmts::Chain { st: begun, first: true, rest: None };
                lemma_tagged_arms(ch, arms@, 0, scrut, name);
                let written = stmts::tagged_arms_c(ch, arms@, 0, scrut, name);
                if written is Ok {
                    lemma_chain_end(written->Ok_0, arms@);
                }
            }
        }
    }
}

proof fn lemma_for(st: model::State, s: Spanned<Stmt>)
    ensures
        stmts::for_each_c(st, s) is Ok ==> closed_off(st, stmts::for_each_c(st, s)->Ok_0),
    decreases s, 1int,
{
    if let Stmt::ForStmt { iterator, iterable, body } = s.node {
        if let Some(ast::Type::Named { name, args }) = exprs::receiver_type(st.ctx, iterable) {
            let ty = model::type_c(st.ctx.decls, ast::Type::Named { name, args });
            lemma_bound(st, iterable, ty, "it"@);
            let bound = stmts::bound_c(st, iterable, ty, "it"@);
            if bound is Ok {
                let over = stmts::loop_over(name, args, bound->Ok_0.1);
                if over is Ok && model::type_c(st.ctx.decls, over->Ok_0.0) is Ok {
                    let t = model::type_c(st.ctx.decls, over->Ok_0.0)->Ok_0;
                    let index = model::temp_name("i"@, bound->Ok_0.0.temps);
                    let begun = model::with_temp(bound->Ok_0.0);
                    let limit = model::temp_name("n"@, begun.temps);
                    let head = stmts::loop_head_c(
                        begun,
                        index,
                        limit,
                        over->Ok_0.1,
                        stmts::read_ahead(iterable, over->Ok_0.2),
                    );
                    let inner = model::emitted(
                        model::with_var(stmts::inside(head), iterator@, over->Ok_0.0),
                        t + " "@ + iterator@ + " = "@ + bound->Ok_0.1 + ".data["@ + index + "];"@,
                    );
                    lemma_inside(head.ctx.vars);
                    lemma_scoped(inner, body.statements@, head.pad);
                }
            }
        }
    }
}

proof fn lemma_range_for(st: model::State, s: Spanned<Stmt>)
    ensures
        stmts::range_for_c(st, s) is Ok ==> closed_off(st, stmts::range_for_c(st, s)->Ok_0),
    decreases s, 1int,
{
    if let Stmt::ForStmt { iterator, iterable, body } = s.node {
        if let Expr::RangeExpr { start, end, inclusive } = iterable.node {
            if exprs::expr_c(st.ctx, *start) is Ok && exprs::expr_c(st.ctx, *end) is Ok {
                let from = exprs::expr_c(st.ctx, *start)->Ok_0;
                let to = exprs::expr_c(st.ctx, *end)->Ok_0;
                let temp = model::temp_name("rg_end"@, st.temps);
                let op = if inclusive {
                    "<="@
                } else {
                    "<"@
                };
                let it = iterator@;
                let begun = model::noted(model::noted(model::with_temp(st), from), to);
                let block = model::indented(model::emitted(begun, "{"@));
                let looped = model::emitted(
                    model::emitted(block, "int32_t "@ + temp + " = "@ + to.text + ";"@),
                    "for (int32_t "@ + it + " = "@ + from.text + "; "@ + it + " "@ + op + " "@
                        + temp + "; "@ + it + "++) {"@,
                );
                lemma_inside(looped.ctx.vars);
                lemma_scoped(
                    model::with_var(stmts::inside(looped), it, model::i32_ty()),
                    body.statements@,
                    looped.pad,
                );
            }
        }
    }
}

proof fn lemma_if(st: model::State, s: Spanned<Stmt>)
    ensures
        stmts::if_c(st, s) is Ok ==> kept(st, stmts::if_c(st, s)->Ok_0),
    decreases s, 1int,
{
    if let Stmt::IfStmt { condition, then_block, else_branch } = s.node {
        let first = stmts::line_c(st, "if ("@, exprs::expr_c(st.ctx, condition), ") {"@);
        if first is Ok {
            let head = first->Ok_0;
            lemma_stmts(model::indented(head), then_block.statements@, 0);
            let done = stmts::body_c(model::indented(head), then_block.statements@, head.pad);
            if done is Ok {
                let other = model::emitted(done->Ok_0, "} else {"@);
                match else_branch {
                    Some(ElseBranch::Block(block)) => {
                        lemma_stmts(model::indented(other), block.statements@, 0);
                    },
                    Some(ElseBranch::IfStmt(inner)) => {
                        law_statement_only_adds(model::indented(other), *inner);
                    },
                    None => {},
                }
            }
        }
    }
}

/// Writing a statement only adds lines: what was written before stays, no number of
/// a temporary is used again, the indentation is the same after it, no scope stays
/// open or is lost, and it declares only in the innermost scope. A statement that is
/// neither a declaration nor an `if`, whose branches share the scope around them,
/// declares nothing there.
#[verifier::rlimit(50)]
pub proof fn law_statement_only_adds(st: model::State, s: Spanned<Stmt>)
    ensures
        stmts::stmt_c(st, s) is Ok ==> kept(st, stmts::stmt_c(st, s)->Ok_0),
        stmts::stmt_c(st, s) is Ok && !(s.node is LetStmt) && !(s.node is IfStmt) ==> closed_off(
            st,
            stmts::stmt_c(st, s)->Ok_0,
        ),
    decreases s, 3int,
{
    match s.node {
        Stmt::IfStmt { .. } => lemma_if(st, s),
        Stmt::WhileStmt { condition, body } => {
            let first = stmts::line_c(st, "while ("@, exprs::expr_c(st.ctx, condition), ") {"@);
            if first is Ok {
                let head = first->Ok_0;
                lemma_inside(head.ctx.vars);
                lemma_scoped(stmts::inside(head), body.statements@, head.pad);
            }
        },
        Stmt::ForStmt { iterable, .. } => {
            lemma_for(st, s);
            lemma_range_for(st, s);
        },
        Stmt::MatchStmt { .. } => lemma_match(st, s),
        _ => {},
    }
}

proof fn lemma_params(st: model::State, params: Seq<Param>, i: int)
    ensures
        stmts::with_params(st, params, i) == model::with_vars(
            st,
            stmts::with_params(st, params, i).ctx.vars,
        ),
        outer_same(st.ctx.vars, stmts::with_params(st, params, i).ctx.vars),
    decreases params.len() - i,
{
    if 0 <= i < params.len() {
        let next = model::with_var(st, params[i].name@, params[i].ty@);
        lemma_params(next, params, i + 1);
    }
}

/// Whether `b` is `a` with more written and nothing else changed, but for the
/// count of temporaries and the note of TLS calls.
pub open spec fn continued(a: model::State, b: model::State) -> bool {
    grown(a, b) && a.pad == b.pad && a.ctx == b.ctx
}

/// Writing a function only adds lines, and what it declares is gone after it. Its
/// first line is its signature and an opening brace, its last line the closing
/// brace.
pub proof fn law_function_only_adds(st: model::State, item: Item, name: Seq<char>)
    requires
        st.ret is None,
    ensures
        stmts::fn_c(st, item, name) is Ok ==> continued(st, stmts::fn_c(st, item, name)->Ok_0),
        item matches Item::FnDecl { params, return_type, .. } ==> stmts::fn_c(
            st,
            item,
            name,
        ) is Ok ==> {
            let after = stmts::fn_c(st, item, name)->Ok_0;
            let sig = stmts::signature_c(st.ctx.decls, name, params@, return_type@);
            &&& sig is Ok
            &&& after.lines.len() >= st.lines.len() + 2
            &&& after.lines[st.lines.len() as int] == st.pad + (sig->Ok_0 + " {"@)
            &&& after.lines.last() == st.pad + "}"@
        },
{
    if let Item::FnDecl { params, return_type, body, .. } = item {
        let sig = stmts::signature_c(st.ctx.decls, name, params@, return_type@);
        if sig is Ok {
            let head = model::emitted(st, sig->Ok_0 + " {"@);
            let known = stmts::with_params(stmts::inside(head), params@, 0);
            lemma_inside(head.ctx.vars);
            lemma_params(stmts::inside(head), params@, 0);
            let begun = if stmts::is_main(name, params@) {
                model::emitted(
                    model::emitted(known, "__xlang_argc_g = argc;"@),
                    "__xlang_argv_g = argv;"@,
                )
            } else {
                known
            };
            let inner = stmts::in_function(
                begun,
                Some(return_type@),
                model::takes_pointer(params@),
            );
            lemma_left(stmts::inside(head).ctx.vars, inner.ctx.vars);
            lemma_scoped(inner, body.statements@, head.pad);
            let done = stmts::scoped_c(inner, body.statements@, head.pad);
            if done is Ok {
                let k = st.lines.len() as int;
                assert(head.lines[k] == st.pad + (sig->Ok_0 + " {"@));
                assert(inner.lines[k] == head.lines[k]);
                assert(done->Ok_0.lines[k] == inner.lines[k]);
                assert forall|i: int| 0 <= i < st.lines.len() implies st.lines[i]
                    == #[trigger] done->Ok_0.lines[i] by {
                    assert(inner.lines[i] == head.lines[i]);
                }
            }
        }
    }
}

} // verus!
