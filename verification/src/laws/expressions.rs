//! The generator: operators, names, method calls and temporaries.

use vstd::prelude::*;

use crate::ast;
use crate::ast::Expr;
use crate::codegen::exprs;
use crate::codegen::model;
use crate::error;
use crate::source::{Span, Spanned};
use crate::text;

verus! {

/// Without types every operator is that of C: it stands between its operands, in
/// brackets.
pub proof fn law_untyped_operators_stay(ctx: model::Ctx, e: Spanned<Expr>)
    requires
        ctx.decls.types.dom() == Set::<Span>::empty(),
        e.node is BinaryExpr,
    ensures
        exprs::expr_c(ctx, e) == exprs::glued(
            "("@,
            exprs::expr_c(ctx, *e.node->left),
            " "@ + e.node->BinaryExpr_op@ + " "@,
            exprs::expr_c(ctx, *e.node->right),
            ")"@,
        ),
{
    assert(exprs::expr_c(ctx, e) == exprs::binary_c(ctx, e));
}

/// With a string operand, `+` concatenates and comparisons compare contents; with
/// none, both are those of C.
pub proof fn law_string_operators(ctx: model::Ctx, e: Spanned<Expr>)
    requires
        e.node is BinaryExpr,
    ensures
        ({
            let op = e.node->BinaryExpr_op@;
            let l = exprs::expr_c(ctx, *e.node->left);
            let r = exprs::expr_c(ctx, *e.node->right);
            let on_string = exprs::holds_string(ctx, *e.node->left)
                || exprs::holds_string(ctx, *e.node->right);
            &&& on_string && op == "+"@ ==> exprs::expr_c(ctx, e) == exprs::glued(
                "__xlang_str_concat("@,
                l,
                ", "@,
                r,
                ")"@,
            )
            &&& on_string && exprs::compares(op) ==> exprs::expr_c(ctx, e) == exprs::glued(
                "(strcmp("@,
                l,
                ", "@,
                r,
                ") "@ + op + " 0)"@,
            )
            &&& !on_string ==> exprs::expr_c(ctx, e) == exprs::glued(
                "("@,
                l,
                " "@ + op + " "@,
                r,
                ")"@,
            )
        }),
{
    assert(exprs::expr_c(ctx, e) == exprs::binary_c(ctx, e));
    reveal_strlit("+");
    reveal_strlit("*");
    reveal_strlit("<");
    reveal_strlit("<=");
    reveal_strlit(">");
    reveal_strlit(">=");
    reveal_strlit("==");
    reveal_strlit("!=");
    let op = e.node->BinaryExpr_op@;
    if exprs::compares(op) {
        assert(op != "+"@ && op != "*"@) by {
            assert("+"@[0] == '+' && "*"@[0] == '*');
            assert("<"@[0] == '<' && "<="@[0] == '<' && ">"@[0] == '>' && ">="@[0] == '>');
            assert("=="@[0] == '=' && "!="@[0] == '!');
        }
    }
}

/// `self` is taken through the pointer in the body of a method with `mut self`,
/// and stands for itself in any other.
pub proof fn law_self_behind_pointer(ctx: model::Ctx)
    requires
        !ctx.decls.values.dom().contains("self"@),
    ensures
        ctx.mut_self ==> exprs::name_c(ctx, "self"@) == "(*self)"@,
        !ctx.mut_self ==> exprs::name_c(ctx, "self"@) == "self"@,
{
}

/// Temporaries do not clash: those with one prefix differ where their numbers do.
pub proof fn law_temporaries_differ(prefix: Seq<char>, m: usize, n: usize)
    requires
        m != n,
    ensures
        model::temp_name(prefix, m) != model::temp_name(prefix, n),
{
    let front = "__xlang_"@ + prefix;
    let a = text::dec(m as nat);
    let b = text::dec(n as nat);
    text::law_decimal_value(m as nat);
    text::law_decimal_value(n as nat);
    if front + a == front + b {
        assert(a =~= (front + a).skip(front.len() as int));
        assert(b =~= (front + b).skip(front.len() as int));
        assert(false);
    }
}

/// Whether a receiver is a collection, whose built-in methods come first.
pub open spec fn on_collection(ctx: model::Ctx, object: Spanned<Expr>) -> bool {
    exprs::receiver_type(ctx, object) matches Some(ast::Type::Named { name, args })
        && exprs::is_collection(name, args.len())
}

/// A call of a declared method becomes a call of its function with the receiver
/// in front: by value, or by address where the method takes `mut self`, so that
/// what it changes stays changed for the caller.
pub proof fn law_method_dispatch(ctx: model::Ctx, e: Spanned<Expr>)
    requires
        e.node is CallExpr,
        e.node->callee.node is FieldAccessExpr,
        !on_collection(ctx, *e.node->callee.node->FieldAccessExpr_object),
        exprs::method_owner(
            ctx,
            *e.node->callee.node->FieldAccessExpr_object,
            e.node->callee.node->field@,
        ) is Some,
    ensures
        ({
            let object = *e.node->callee.node->FieldAccessExpr_object;
            let field = e.node->callee.node->field@;
            let args = e.node->args@;
            let target = exprs::method_owner(ctx, object, field)->0;
            let receiver = exprs::expr_c(ctx, object);
            let rest = exprs::exprs_c(ctx, args, args.len() as int);
            let prefix = if ctx.decls.by_pointer.contains((target, field)) {
                "&"@
            } else {
                ""@
            };
            &&& receiver is Ok && rest is Ok ==> exprs::expr_c(ctx, e) is Ok && exprs::expr_c(
                ctx,
                e,
            )->Ok_0.text == model::method_name(target, field) + "("@ + text::joined(
                seq![prefix + receiver->Ok_0.text] + exprs::code_texts(rest->Ok_0),
                ", "@,
            ) + ")"@
            &&& receiver is Err ==> exprs::expr_c(ctx, e) == receiver
            &&& receiver is Ok && rest is Err ==> exprs::expr_c(ctx, e) is Err && exprs::expr_c(
                ctx,
                e,
            )->Err_0 == rest->Err_0
        }),
{
    assert(exprs::expr_c(ctx, e) == exprs::call_c(ctx, e));
    assert(exprs::push_c(ctx, e) == Ok::<Option<model::Code>, error::Fault>(None));
    assert(exprs::pop_c(ctx, e) == Ok::<Option<model::Code>, error::Fault>(None));
    assert(exprs::length_c(ctx, e) == Ok::<Option<model::Code>, error::Fault>(None));
}

/// A variant without a payload is its number where no variant of its enum has
/// one, and a struct with its number as the tag where one has.
pub proof fn law_variant_constants(ctx: model::Ctx, name: Seq<char>)
    requires
        ctx.decls.values.dom().contains(name),
        ctx.decls.owners.dom().contains(name),
        name != "self"@,
    ensures
        ({
            let number = text::dec_int(ctx.decls.values[name] as int);
            let owner = ctx.decls.owners[name];
            exprs::name_c(ctx, name) == if model::has_payload(ctx.decls, owner) {
                "("@ + owner + "){ .tag = "@ + number + " }"@
            } else {
                number
            }
        }),
{
}

} // verus!
