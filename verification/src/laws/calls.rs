//! The generator: what each kind of call becomes.

use vstd::prelude::*;

use crate::aliases;
use crate::ast;
use crate::ast::Expr;
use crate::codegen::builtins;
use crate::codegen::exprs;
use crate::codegen::model;
use crate::error;
use crate::laws::operators;
use crate::source::Spanned;
use crate::text;

verus! {

/// A fault in place of code.
pub open spec fn fault(f: error::Fault) -> model::Outcome<model::Code> {
    Err(f)
}

/// Whether an expression is a call of a function by this name with these arguments.
pub open spec fn is_call(e: Spanned<Expr>, name: Seq<char>, args: Seq<Spanned<Expr>>) -> bool {
    e.node matches Expr::CallExpr { callee, args: v } && v@ == args && (
    callee.node matches Expr::Identifier { name: n } && n@ == name)
}

/// Whether an expression is a call of a method by this name on an object.
pub open spec fn is_method_call(
    e: Spanned<Expr>,
    object: Spanned<Expr>,
    name: Seq<char>,
    args: Seq<Spanned<Expr>>,
) -> bool {
    e.node matches Expr::CallExpr { callee, args: v } && v@ == args && (
    callee.node matches Expr::FieldAccessExpr { object: o, field } && *o == object && field@ == name)
}

/// Whether a call of a name is one of a builtin.
pub open spec fn is_builtin(name: Seq<char>, n: nat) -> bool {
    ||| n == 0 && builtins::plain_text(name) is Some
    ||| n == 1 && builtins::print_text(name, ""@) is Some
    ||| builtins::call_arity(name) matches Some(k) && k <= n
}

proof fn lemma_print_any(name: Seq<char>, a: Seq<char>, b: Seq<char>)
    ensures
        builtins::print_text(name, a) is Some <==> builtins::print_text(name, b) is Some,
{
    reveal(builtins::print_text);
}

/// A builtin without arguments is written as its table says.
pub proof fn law_plain_call(ctx: model::Ctx, e: Spanned<Expr>, name: Seq<char>, c: Seq<char>)
    requires
        is_call(e, name, Seq::empty()),
        builtins::plain_text(name) == Some(c),
    ensures
        exprs::expr_c(ctx, e) == operators::code(c, false),
{
    assert(exprs::expr_c(ctx, e) == exprs::call_c(ctx, e));
}

/// A print builtin is written around its argument.
pub proof fn law_print_call(
    ctx: model::Ctx,
    e: Spanned<Expr>,
    name: Seq<char>,
    args: Seq<Spanned<Expr>>,
)
    requires
        is_call(e, name, args),
        args.len() == 1,
        builtins::print_text(name, ""@) is Some,
        !builtins::is_tls(name),
    ensures
        match exprs::expr_c(ctx, args[0]) {
            Ok(a) => builtins::print_text(name, a.text) matches Some(t) && exprs::expr_c(ctx, e)
                == operators::code(t, a.tls),
            Err(f) => exprs::expr_c(ctx, e) == fault(f),
        },
{
    assert(exprs::expr_c(ctx, e) == exprs::call_c(ctx, e));
    if let Ok(a) = exprs::expr_c(ctx, args[0]) {
        lemma_print_any(name, ""@, a.text);
    }
}

/// Any other builtin is written around as many arguments as it takes; those beyond are
/// dropped. A TLS builtin is noted.
pub proof fn law_builtin_call(
    ctx: model::Ctx,
    e: Spanned<Expr>,
    name: Seq<char>,
    args: Seq<Spanned<Expr>>,
    n: nat,
)
    requires
        is_call(e, name, args),
        builtins::call_arity(name) == Some(n),
        n <= args.len(),
        args.len() == 1 ==> builtins::print_text(name, ""@) is None,
        args.len() == 0 ==> builtins::plain_text(name) is None,
    ensures
        match exprs::exprs_c(ctx, args, n as int) {
            Ok(cs) => exprs::expr_c(ctx, e) == operators::code(
                builtins::call_text(name, exprs::code_texts(cs)),
                exprs::any_tls(cs) || args.len() > 0 && builtins::is_tls(name),
            ),
            Err(f) => exprs::expr_c(ctx, e) == fault(f),
        },
{
    assert(exprs::expr_c(ctx, e) == exprs::call_c(ctx, e));
    if args.len() == 1 {
        builtins::law_arity(name);
        assert(n == 1);
        reveal_with_fuel(exprs::exprs_c, 2);
        if let Ok(a) = exprs::expr_c(ctx, args[0]) {
            lemma_print_any(name, ""@, a.text);
        }
    }
}

/// An ordinary function is called with its arguments in order and commas between them.
pub proof fn law_function_call(
    ctx: model::Ctx,
    e: Spanned<Expr>,
    name: Seq<char>,
    args: Seq<Spanned<Expr>>,
)
    requires
        is_call(e, name, args),
        !is_builtin(name, args.len()),
        !ctx.decls.values.dom().contains(name),
        !(ctx.mut_self && name == "self"@),
        !builtins::is_tls(name),
    ensures
        match exprs::exprs_c(ctx, args, args.len() as int) {
            Ok(cs) => exprs::expr_c(ctx, e) == operators::code(
                name + "("@ + text::joined(exprs::code_texts(cs), ", "@) + ")"@,
                exprs::any_tls(cs),
            ),
            Err(f) => exprs::expr_c(ctx, e) == fault(f),
        },
{
    assert(exprs::expr_c(ctx, e) == exprs::call_c(ctx, e));
    if args.len() == 1 {
        reveal_with_fuel(exprs::exprs_c, 2);
        if let Ok(a) = exprs::expr_c(ctx, args[0]) {
            lemma_print_any(name, ""@, a.text);
        }
    }
    assert(exprs::apply_c(ctx, e) == match exprs::exprs_c(ctx, args, args.len() as int) {
        Ok(cs) => operators::code(
            name + "("@ + text::joined(exprs::code_texts(cs), ", "@) + ")"@,
            exprs::any_tls(cs),
        ),
        Err(f) => fault(f),
    }) by {
        reveal_strlit("");
        reveal_with_fuel(exprs::expr_c, 2);
        if let Ok(cs) = exprs::exprs_c(ctx, args, args.len() as int) {
            let inside = "("@ + text::joined(exprs::code_texts(cs), ", "@) + ")"@;
            assert(""@ + name + inside =~= name + "("@ + text::joined(exprs::code_texts(cs), ", "@)
                + ")"@);
        }
    }
}

/// A variant with a payload is a struct with its number as the tag and the payload in
/// the union under that number.
pub proof fn law_variant_call(
    ctx: model::Ctx,
    e: Spanned<Expr>,
    name: Seq<char>,
    args: Seq<Spanned<Expr>>,
)
    requires
        is_call(e, name, args),
        args.len() == 1,
        !is_builtin(name, 1),
        !builtins::is_tls(name),
        ctx.decls.values.dom().contains(name),
        ctx.decls.owners.dom().contains(name),
        model::has_payload(ctx.decls, ctx.decls.owners[name]),
    ensures
        ({
            let number = text::dec_int(ctx.decls.values[name] as int);
            match exprs::expr_c(ctx, args[0]) {
                Ok(v) => exprs::expr_c(ctx, e) == operators::code(
                    "("@ + ctx.decls.owners[name] + "){ .tag = "@ + number + ", .u.v"@ + number
                        + " = "@ + v.text + " }"@,
                    v.tls,
                ),
                Err(f) => exprs::expr_c(ctx, e) == fault(f),
            }
        }),
{
    assert(exprs::expr_c(ctx, e) == exprs::call_c(ctx, e));
    if let Ok(a) = exprs::expr_c(ctx, args[0]) {
        lemma_print_any(name, ""@, a.text);
    }
}

// ---------------------------------------------------------------------------
// Methods
// ---------------------------------------------------------------------------

/// Whether a receiver is a vector of elements of this type.
pub open spec fn on_vector(ctx: model::Ctx, object: Spanned<Expr>, element: ast::Type) -> bool {
    exprs::receiver_type(ctx, object) matches Some(ast::Type::Named { name, args }) && name == "Vec"@
        && args.len() == 1 && args[0] == element
}

/// Whether a receiver has a length: it is a vector, a slice or an array.
pub open spec fn has_length(ctx: model::Ctx, object: Spanned<Expr>) -> bool {
    exprs::receiver_type(ctx, object) matches Some(ast::Type::Named { name, args }) && (name
        == "Vec"@ && args.len() == 1 || name == "Slice"@ && args.len() == 1 || name == "Array"@
        && args.len() == 2)
}

proof fn lemma_no_builtin(ctx: model::Ctx, e: Spanned<Expr>, object: Spanned<Expr>, name: Seq<char>, args: Seq<Spanned<Expr>>)
    requires
        is_method_call(e, object, name, args),
    ensures
        exprs::expr_c(ctx, e) == exprs::first_of(
            exprs::push_c(ctx, e),
            exprs::first_of(
                exprs::pop_c(ctx, e),
                exprs::first_of(
                    exprs::length_c(ctx, e),
                    exprs::first_of(
                        exprs::method_c(ctx, e),
                        exprs::first_of(exprs::variant_c(ctx, e), exprs::apply_c(ctx, e)),
                    ),
                ),
            ),
        ),
{
    assert(exprs::expr_c(ctx, e) == exprs::call_c(ctx, e));
    let rest = exprs::first_of(
        exprs::push_c(ctx, e),
        exprs::first_of(
            exprs::pop_c(ctx, e),
            exprs::first_of(
                exprs::length_c(ctx, e),
                exprs::first_of(
                    exprs::method_c(ctx, e),
                    exprs::first_of(exprs::variant_c(ctx, e), exprs::apply_c(ctx, e)),
                ),
            ),
        ),
    );
    assert(exprs::tls_noted(rest, false) == rest);
}

/// `push` on a vector calls the function for its elements, with the vector by address.
pub proof fn law_push(
    ctx: model::Ctx,
    e: Spanned<Expr>,
    object: Spanned<Expr>,
    args: Seq<Spanned<Expr>>,
    element: ast::Type,
)
    requires
        is_method_call(e, object, "push"@, args),
        args.len() == 1,
        on_vector(ctx, object, element),
    ensures
        match (
            model::suffix_c(ctx.decls, element),
            exprs::expr_c(ctx, object),
            exprs::expr_c(ctx, args[0]),
        ) {
            (Ok(s), Ok(o), Ok(a)) => exprs::expr_c(ctx, e) == operators::code(
                "__xlang_vec_push_"@ + s + "(&"@ + o.text + ", "@ + a.text + ")"@,
                o.tls || a.tls,
            ),
            (Err(f), _, _) => exprs::expr_c(ctx, e) == fault(f),
            (Ok(_), Err(f), _) => exprs::expr_c(ctx, e) == fault(f),
            (Ok(_), Ok(_), Err(f)) => exprs::expr_c(ctx, e) == fault(f),
        },
{
    lemma_no_builtin(ctx, e, object, "push"@, args);
}

/// `pop` on a vector calls the function for its elements, with the vector by address.
pub proof fn law_pop(
    ctx: model::Ctx,
    e: Spanned<Expr>,
    object: Spanned<Expr>,
    element: ast::Type,
)
    requires
        is_method_call(e, object, "pop"@, Seq::empty()),
        on_vector(ctx, object, element),
    ensures
        match (model::suffix_c(ctx.decls, element), exprs::expr_c(ctx, object)) {
            (Ok(s), Ok(o)) => exprs::expr_c(ctx, e) == operators::code(
                "__xlang_vec_pop_"@ + s + "(&"@ + o.text + ")"@,
                o.tls,
            ),
            (Err(f), _) => exprs::expr_c(ctx, e) == fault(f),
            (Ok(_), Err(f)) => exprs::expr_c(ctx, e) == fault(f),
        },
{
    lemma_no_builtin(ctx, e, object, "pop"@, Seq::empty());
    reveal_strlit("push");
    reveal_strlit("pop");
    assert("push"@.len() == 4 && "pop"@.len() == 3);
    assert(exprs::push_c(ctx, e) == Ok::<Option<model::Code>, error::Fault>(None));
}

proof fn lemma_words()
    ensures
        "push"@.len() == 4,
        "pop"@.len() == 3,
        "len"@.len() == 3 && "len"@[0] == 'l',
        "pop"@[0] == 'p',
        "is_empty"@.len() == 8,
        "insert"@.len() == 6,
        "remove_at"@.len() == 9,
{
    reveal_strlit("push");
    reveal_strlit("pop");
    reveal_strlit("len");
    reveal_strlit("is_empty");
    reveal_strlit("insert");
    reveal_strlit("remove_at");
}

proof fn lemma_measured(ctx: model::Ctx, e: Spanned<Expr>, object: Spanned<Expr>, name: Seq<char>, args: Seq<Spanned<Expr>>)
    requires
        is_method_call(e, object, name, args),
        name != "push"@,
        name != "pop"@,
    ensures
        exprs::expr_c(ctx, e) == exprs::first_of(
            exprs::length_c(ctx, e),
            exprs::first_of(
                exprs::method_c(ctx, e),
                exprs::first_of(exprs::variant_c(ctx, e), exprs::apply_c(ctx, e)),
            ),
        ),
{
    lemma_no_builtin(ctx, e, object, name, args);
    assert(exprs::push_c(ctx, e) == Ok::<Option<model::Code>, error::Fault>(None));
    assert(exprs::pop_c(ctx, e) == Ok::<Option<model::Code>, error::Fault>(None));
}

/// `len` reads the length of a collection, and `is_empty` holds where that is zero.
pub proof fn law_length(ctx: model::Ctx, e: Spanned<Expr>, object: Spanned<Expr>, name: Seq<char>)
    requires
        is_method_call(e, object, name, Seq::empty()),
        name == "len"@ || name == "is_empty"@,
        has_length(ctx, object),
    ensures
        match exprs::expr_c(ctx, object) {
            Ok(o) => exprs::expr_c(ctx, e) == operators::code(
                if name == "len"@ {
                    "("@ + o.text + ".len)"@
                } else {
                    "("@ + o.text + ".len == 0)"@
                },
                o.tls,
            ),
            Err(f) => exprs::expr_c(ctx, e) == fault(f),
        },
{
    lemma_words();
    lemma_measured(ctx, e, object, name, Seq::empty());
}

/// `insert` on a vector calls the function for its elements with the vector by address,
/// the place and the element.
pub proof fn law_insert(
    ctx: model::Ctx,
    e: Spanned<Expr>,
    object: Spanned<Expr>,
    args: Seq<Spanned<Expr>>,
    element: ast::Type,
)
    requires
        is_method_call(e, object, "insert"@, args),
        args.len() == 2,
        on_vector(ctx, object, element),
    ensures
        match (
            exprs::expr_c(ctx, object),
            model::suffix_c(ctx.decls, element),
            exprs::expr_c(ctx, args[0]),
            exprs::expr_c(ctx, args[1]),
        ) {
            (Ok(o), Ok(s), Ok(a), Ok(b)) => exprs::expr_c(ctx, e) == operators::code(
                "__xlang_vec_insert_"@ + s + "(&"@ + o.text + ", "@ + a.text + ", "@ + b.text + ")"@,
                o.tls || a.tls || b.tls,
            ),
            (Err(f), _, _, _) => exprs::expr_c(ctx, e) == fault(f),
            (Ok(_), Err(f), _, _) => exprs::expr_c(ctx, e) == fault(f),
            (Ok(_), Ok(_), Err(f), _) => exprs::expr_c(ctx, e) == fault(f),
            (Ok(_), Ok(_), Ok(_), Err(f)) => exprs::expr_c(ctx, e) == fault(f),
        },
{
    lemma_words();
    lemma_measured(ctx, e, object, "insert"@, args);
}

/// `remove_at` on a vector calls the function for its elements with the vector by
/// address and the place.
pub proof fn law_remove_at(
    ctx: model::Ctx,
    e: Spanned<Expr>,
    object: Spanned<Expr>,
    args: Seq<Spanned<Expr>>,
    element: ast::Type,
)
    requires
        is_method_call(e, object, "remove_at"@, args),
        args.len() == 1,
        on_vector(ctx, object, element),
    ensures
        match (
            exprs::expr_c(ctx, object),
            model::suffix_c(ctx.decls, element),
            exprs::expr_c(ctx, args[0]),
        ) {
            (Ok(o), Ok(s), Ok(a)) => exprs::expr_c(ctx, e) == operators::code(
                "__xlang_vec_remove_"@ + s + "(&"@ + o.text + ", "@ + a.text + ")"@,
                o.tls || a.tls,
            ),
            (Err(f), _, _) => exprs::expr_c(ctx, e) == fault(f),
            (Ok(_), Err(f), _) => exprs::expr_c(ctx, e) == fault(f),
            (Ok(_), Ok(_), Err(f)) => exprs::expr_c(ctx, e) == fault(f),
        },
{
    lemma_words();
    lemma_measured(ctx, e, object, "remove_at"@, args);
}

/// Whose method a call names: that of the type recorded for the receiver, under its own
/// name where there is such a method, else under the name of what it stands for.
pub proof fn law_method_owner(ctx: model::Ctx, object: Spanned<Expr>, field: Seq<char>, recorded: ast::Type, name: Seq<char>)
    requires
        ctx.decls.types.dom().contains(object.span),
        ctx.decls.types[object.span] == recorded,
        recorded == (ast::Type::Named { name, args: Seq::empty() }),
    ensures
        ctx.decls.methods.contains((name, field)) ==> exprs::method_owner(ctx, object, field) == Some(
            name,
        ),
        !ctx.decls.methods.contains((name, field)) ==> (match aliases::meant(
            ctx.decls.aliases,
            recorded,
        ) {
            ast::Type::Named { name: m, args } => if args.len() == 0 && ctx.decls.methods.contains(
                (m, field),
            ) {
                exprs::method_owner(ctx, object, field) == Some(m)
            } else {
                exprs::method_owner(ctx, object, field) is None
            },
            _ => exprs::method_owner(ctx, object, field) is None,
        }),
{
}

/// An object without a recorded type has no method.
pub proof fn law_no_owner(ctx: model::Ctx, object: Spanned<Expr>, field: Seq<char>)
    requires
        !ctx.decls.types.dom().contains(object.span),
    ensures
        exprs::method_owner(ctx, object, field) is None,
{
}

/// The struct or enum that a literal or an `impl` block is for goes by the name of what
/// its name stands for.
pub proof fn law_owner(d: model::Decls, name: Seq<char>)
    ensures
        model::owner_name(d, name) == aliases::meant_name(d.aliases, name),
{
}

/// A declared method is the function that is named after its type and itself, with the
/// receiver before the arguments: by address where the method takes `mut self`.
pub proof fn law_method_call(
    ctx: model::Ctx,
    e: Spanned<Expr>,
    object: Spanned<Expr>,
    name: Seq<char>,
    args: Seq<Spanned<Expr>>,
    owner: Seq<char>,
)
    requires
        is_method_call(e, object, name, args),
        !has_length(ctx, object),
        exprs::method_owner(ctx, object, name) == Some(owner),
    ensures
        match (exprs::expr_c(ctx, object), exprs::exprs_c(ctx, args, args.len() as int)) {
            (Ok(o), Ok(cs)) => exprs::expr_c(ctx, e) == operators::code(
                "__xlang_method_"@ + owner + "_"@ + name + "("@ + text::joined(
                    seq![
                        if ctx.decls.by_pointer.contains((owner, name)) {
                            "&"@ + o.text
                        } else {
                            o.text
                        },
                    ] + exprs::code_texts(cs),
                    ", "@,
                ) + ")"@,
                o.tls || exprs::any_tls(cs),
            ),
            (Err(f), _) => exprs::expr_c(ctx, e) == fault(f),
            (Ok(_), Err(f)) => exprs::expr_c(ctx, e) == fault(f),
        },
{
    lemma_no_builtin(ctx, e, object, name, args);
    assert(exprs::push_c(ctx, e) == Ok::<Option<model::Code>, error::Fault>(None));
    assert(exprs::pop_c(ctx, e) == Ok::<Option<model::Code>, error::Fault>(None));
    assert(exprs::length_c(ctx, e) == Ok::<Option<model::Code>, error::Fault>(None));
    if let Ok(o) = exprs::expr_c(ctx, object) {
        reveal_strlit("");
        assert(""@ + o.text =~= o.text);
    }
}

/// Any other call of a method, or of something that is not named, is a C call of what is
/// called; the fault of an argument goes before that of what is called.
pub proof fn law_other_call(ctx: model::Ctx, e: Spanned<Expr>)
    requires
        e.node matches Expr::CallExpr { callee, .. } && !(callee.node is Identifier) && (
        callee.node matches Expr::FieldAccessExpr { object, field } ==> !has_length(ctx, *object)
            && exprs::method_owner(ctx, *object, field@) is None),
    ensures
        e.node matches Expr::CallExpr { callee, args } && (match (
            exprs::exprs_c(ctx, args@, args@.len() as int),
            exprs::expr_c(ctx, *callee),
        ) {
            (Ok(cs), Ok(c)) => exprs::expr_c(ctx, e) == operators::code(
                c.text + "("@ + text::joined(exprs::code_texts(cs), ", "@) + ")"@,
                c.tls || exprs::any_tls(cs),
            ),
            (Err(f), _) => exprs::expr_c(ctx, e) == fault(f),
            (Ok(_), Err(f)) => exprs::expr_c(ctx, e) == fault(f),
        }),
{
    assert(exprs::expr_c(ctx, e) == exprs::call_c(ctx, e));
    assert(exprs::push_c(ctx, e) == Ok::<Option<model::Code>, error::Fault>(None));
    assert(exprs::pop_c(ctx, e) == Ok::<Option<model::Code>, error::Fault>(None));
    assert(exprs::length_c(ctx, e) == Ok::<Option<model::Code>, error::Fault>(None));
    assert(exprs::method_c(ctx, e) == Ok::<Option<model::Code>, error::Fault>(None));
    if let Expr::CallExpr { callee, args } = e.node {
        if let Ok(cs) = exprs::exprs_c(ctx, args@, args@.len() as int) {
            if let Ok(c) = exprs::expr_c(ctx, *callee) {
                reveal_strlit("");
                let inside = "("@ + text::joined(exprs::code_texts(cs), ", "@) + ")"@;
                assert(""@ + c.text + inside =~= c.text + "("@ + text::joined(
                    exprs::code_texts(cs),
                    ", "@,
                ) + ")"@);
            }
        }
    }
}

} // verus!
