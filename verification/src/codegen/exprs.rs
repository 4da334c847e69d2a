//! Expressions in C.

use vstd::prelude::*;

use crate::aliases;
use crate::ast;
use crate::ast::{Expr, FieldInit, TypeNode};
use crate::codegen::builtins;
use crate::codegen::c::CGen;
use crate::codegen::model;
use crate::error;
use crate::error::{XError, XResult};
use crate::json;
use crate::scopes;
use crate::source::Spanned;
use crate::text;
use crate::typecheck;

verus! {

broadcast use crate::codegen::c::lemma_view;

// ---------------------------------------------------------------------------
// What the C for an expression is
// ---------------------------------------------------------------------------

/// Code without a TLS call.
pub open spec fn bare(t: Seq<char>) -> model::Code {
    model::Code { text: t, tls: false }
}

/// Code between two texts.
pub open spec fn around(
    p0: Seq<char>,
    a: model::Outcome<model::Code>,
    p1: Seq<char>,
) -> model::Outcome<model::Code> {
    match a {
        Ok(a) => Ok(model::Code { text: p0 + a.text + p1, tls: a.tls }),
        Err(f) => Err(f),
    }
}

/// Two pieces of code with texts before, between and after them.
pub open spec fn glued(
    p0: Seq<char>,
    a: model::Outcome<model::Code>,
    p1: Seq<char>,
    b: model::Outcome<model::Code>,
    p2: Seq<char>,
) -> model::Outcome<model::Code> {
    match a {
        Ok(a) => match b {
            Ok(b) => Ok(
                model::Code { text: p0 + a.text + p1 + b.text + p2, tls: a.tls || b.tls },
            ),
            Err(f) => Err(f),
        },
        Err(f) => Err(f),
    }
}

/// A piece of code that is there, else another.
pub open spec fn first_of(
    a: model::Outcome<Option<model::Code>>,
    b: model::Outcome<model::Code>,
) -> model::Outcome<model::Code> {
    match a {
        Ok(Some(c)) => Ok(c),
        Ok(None) => b,
        Err(f) => Err(f),
    }
}

/// A piece of code as one that is there.
pub open spec fn there(a: model::Outcome<model::Code>) -> model::Outcome<Option<model::Code>> {
    match a {
        Ok(c) => Ok(Some(c)),
        Err(f) => Err(f),
    }
}

/// Code that calls a TLS builtin where `tls` says so.
pub open spec fn tls_noted(a: model::Outcome<model::Code>, tls: bool) -> model::Outcome<
    model::Code,
> {
    match a {
        Ok(c) => Ok(model::Code { text: c.text, tls: c.tls || tls }),
        Err(f) => Err(f),
    }
}

/// The texts of pieces of code.
pub open spec fn code_texts(cs: Seq<model::Code>) -> Seq<Seq<char>> {
    cs.map_values(|c: model::Code| c.text)
}

/// Whether a TLS builtin is called in one of them.
pub open spec fn any_tls(cs: Seq<model::Code>) -> bool {
    exists|i: int| 0 <= i < cs.len() && (#[trigger] cs[i]).tls
}

/// A string literal: its JSON form, but with `\x1b` for the escape character.
pub open spec fn string_c(value: Seq<char>) -> Seq<char> {
    text::replaced(json::string_text(value), "\\u001b"@, "\\x1b"@)
}

/// A name in an expression: `self` behind a pointer, a variant's number or
/// tagged struct, or the name itself.
pub open spec fn name_c(ctx: model::Ctx, name: Seq<char>) -> Seq<char> {
    if ctx.mut_self && name == "self"@ {
        "(*self)"@
    } else if ctx.decls.values.dom().contains(name) {
        let number = text::dec_int(ctx.decls.values[name] as int);
        if ctx.decls.owners.dom().contains(name) && model::has_payload(
            ctx.decls,
            ctx.decls.owners[name],
        ) {
            "("@ + ctx.decls.owners[name] + "){ .tag = "@ + number + " }"@
        } else {
            number
        }
    } else {
        name
    }
}

/// The type of a receiver: that of the variable, where it is one, else the
/// recorded type of the expression.
pub open spec fn receiver_type(ctx: model::Ctx, object: Spanned<Expr>) -> Option<ast::Type> {
    aliases::meant_if(
        ctx.decls.aliases,
        match object.node {
            Expr::Identifier { name } => scopes::found(ctx.vars, name@),
            _ => typecheck::type_at(ctx.decls.types, object),
        },
    )
}

/// The name of a type, where it takes no arguments.
pub open spec fn bare_name(t: Option<ast::Type>) -> Option<Seq<char>> {
    match t {
        Some(ast::Type::Named { name, args }) => if args.len() == 0 {
            Some(name)
        } else {
            None
        },
        _ => None,
    }
}

/// Whether the recorded type of an expression is a string type.
pub open spec fn holds_string(ctx: model::Ctx, e: Spanned<Expr>) -> bool {
    let name = bare_name(
        aliases::meant_if(ctx.decls.aliases, typecheck::type_at(ctx.decls.types, e)),
    );
    name == Some("String"@) || name == Some("Str"@)
}

/// The type whose method a call names: the recorded type of the receiver where it
/// has such a method, else what that type stands for where that has one.
pub open spec fn method_owner(ctx: model::Ctx, object: Spanned<Expr>, field: Seq<char>) -> Option<
    Seq<char>,
> {
    let recorded = typecheck::type_at(ctx.decls.types, object);
    let direct = bare_name(recorded);
    let meant = bare_name(aliases::meant_if(ctx.decls.aliases, recorded));
    if direct is Some && ctx.decls.methods.contains((direct->0, field)) {
        direct
    } else if meant is Some && ctx.decls.methods.contains((meant->0, field)) {
        meant
    } else {
        None
    }
}

/// Whether an operator compares.
pub open spec fn compares(op: Seq<char>) -> bool {
    op == "<"@ || op == "<="@ || op == ">"@ || op == ">="@ || op == "=="@ || op == "!="@
}

/// A call of a builtin without arguments.
pub open spec fn plain_call_c(e: Spanned<Expr>) -> model::Outcome<Option<model::Code>> {
    match e.node {
        Expr::CallExpr { callee, args } => match callee.node {
            Expr::Identifier { name } => if args@.len() == 0 {
                match builtins::plain_text(name@) {
                    Some(t) => Ok(Some(bare(t))),
                    None => Ok(None),
                }
            } else {
                Ok(None)
            },
            _ => Ok(None),
        },
        _ => Ok(None),
    }
}

/// A call of a print builtin.
pub open spec fn print_call_c(ctx: model::Ctx, e: Spanned<Expr>) -> model::Outcome<
    Option<model::Code>,
>
    decreases e, 1int,
{
    match e.node {
        Expr::CallExpr { callee, args } => match callee.node {
            Expr::Identifier { name } => if args@.len() == 1 {
                match expr_c(ctx, args@[0]) {
                    Ok(a) => match builtins::print_text(name@, a.text) {
                        Some(t) => Ok(Some(model::Code { text: t, tls: a.tls })),
                        None => Ok(None),
                    },
                    Err(f) => Err(f),
                }
            } else {
                Ok(None)
            },
            _ => Ok(None),
        },
        _ => Ok(None),
    }
}

/// A call of one of the other builtins, with enough arguments.
pub open spec fn builtin_call_c(ctx: model::Ctx, e: Spanned<Expr>) -> model::Outcome<
    Option<model::Code>,
>
    decreases e, 1int,
{
    match e.node {
        Expr::CallExpr { callee, args } => match callee.node {
            Expr::Identifier { name } => match builtins::call_arity(name@) {
                Some(n) => if n <= args@.len() {
                    match exprs_c(ctx, args@, n as int) {
                        Ok(cs) => Ok(
                            Some(
                                model::Code {
                                    text: builtins::call_text(name@, code_texts(cs)),
                                    tls: any_tls(cs),
                                },
                            ),
                        ),
                        Err(f) => Err(f),
                    }
                } else {
                    Ok(None)
                },
                None => Ok(None),
            },
            _ => Ok(None),
        },
        _ => Ok(None),
    }
}

/// Whether a call turns the TLS part of the runtime on.
pub open spec fn calls_tls(e: Spanned<Expr>) -> bool {
    match e.node {
        Expr::CallExpr { callee, args } => match callee.node {
            Expr::Identifier { name } => args@.len() > 0 && builtins::is_tls(name@),
            _ => false,
        },
        _ => false,
    }
}

/// `v.push(x)` on a vector.
pub open spec fn push_c(ctx: model::Ctx, e: Spanned<Expr>) -> model::Outcome<Option<model::Code>>
    decreases e, 1int,
{
    match e.node {
        Expr::CallExpr { callee, args } => match callee.node {
            Expr::FieldAccessExpr { object, field } => if field@ == "push"@ && args@.len() == 1 {
                match receiver_type(ctx, *object) {
                    Some(ast::Type::Named { name, args: targs }) => if name == "Vec"@
                        && targs.len() == 1 {
                        match model::suffix_c(ctx.decls, targs[0]) {
                            Ok(s) => there(
                                glued(
                                    "__xlang_vec_push_"@ + s + "(&"@,
                                    expr_c(ctx, *object),
                                    ", "@,
                                    expr_c(ctx, args@[0]),
                                    ")"@,
                                ),
                            ),
                            Err(f) => Err(f),
                        }
                    } else {
                        Ok(None)
                    },
                    _ => Ok(None),
                }
            } else {
                Ok(None)
            },
            _ => Ok(None),
        },
        _ => Ok(None),
    }
}

/// `v.pop()` on a vector.
pub open spec fn pop_c(ctx: model::Ctx, e: Spanned<Expr>) -> model::Outcome<Option<model::Code>>
    decreases e, 1int,
{
    match e.node {
        Expr::CallExpr { callee, args } => match callee.node {
            Expr::FieldAccessExpr { object, field } => if field@ == "pop"@ && args@.len() == 0 {
                match receiver_type(ctx, *object) {
                    Some(ast::Type::Named { name, args: targs }) => if name == "Vec"@
                        && targs.len() == 1 {
                        match model::suffix_c(ctx.decls, targs[0]) {
                            Ok(s) => there(
                                around(
                                    "__xlang_vec_pop_"@ + s + "(&"@,
                                    expr_c(ctx, *object),
                                    ")"@,
                                ),
                            ),
                            Err(f) => Err(f),
                        }
                    } else {
                        Ok(None)
                    },
                    _ => Ok(None),
                }
            } else {
                Ok(None)
            },
            _ => Ok(None),
        },
        _ => Ok(None),
    }
}

/// Whether a type is a collection with a length.
pub open spec fn is_collection(name: Seq<char>, n: nat) -> bool {
    ||| name == "Vec"@ && n == 1
    ||| name == "Slice"@ && n == 1
    ||| name == "Array"@ && n == 2
}

/// `len()` and `is_empty()` on a collection, `insert(i, x)` and `remove_at(i)` on
/// a vector.
pub open spec fn length_c(ctx: model::Ctx, e: Spanned<Expr>) -> model::Outcome<
    Option<model::Code>,
>
    decreases e, 1int,
{
    match e.node {
        Expr::CallExpr { callee, args } => match callee.node {
            Expr::FieldAccessExpr { object, field } => match receiver_type(ctx, *object) {
                Some(ast::Type::Named { name, args: targs }) => if is_collection(
                    name,
                    targs.len(),
                ) {
                    match expr_c(ctx, *object) {
                        Err(f) => Err(f),
                        Ok(o) => if field@ == "len"@ && args@.len() == 0 {
                            there(around("("@, Ok(o), ".len)"@))
                        } else if field@ == "is_empty"@ && args@.len() == 0 {
                            there(around("("@, Ok(o), ".len == 0)"@))
                        } else if name == "Vec"@ && targs.len() == 1 {
                            match model::suffix_c(ctx.decls, targs[0]) {
                                Err(f) => Err(f),
                                Ok(s) => if field@ == "insert"@ && args@.len() == 2 {
                                    there(
                                        glued(
                                            "__xlang_vec_insert_"@ + s + "(&"@ + o.text + ", "@,
                                            tls_noted(expr_c(ctx, args@[0]), o.tls),
                                            ", "@,
                                            expr_c(ctx, args@[1]),
                                            ")"@,
                                        ),
                                    )
                                } else if field@ == "remove_at"@ && args@.len() == 1 {
                                    there(
                                        around(
                                            "__xlang_vec_remove_"@ + s + "(&"@ + o.text + ", "@,
                                            tls_noted(expr_c(ctx, args@[0]), o.tls),
                                            ")"@,
                                        ),
                                    )
                                } else {
                                    Ok(None)
                                },
                            }
                        } else {
                            Ok(None)
                        },
                    }
                } else {
                    Ok(None)
                },
                _ => Ok(None),
            },
            _ => Ok(None),
        },
        _ => Ok(None),
    }
}

/// A call of a method of an `impl` block: the receiver comes first, by address
/// where the method takes `mut self`.
pub open spec fn method_c(ctx: model::Ctx, e: Spanned<Expr>) -> model::Outcome<
    Option<model::Code>,
>
    decreases e, 1int,
{
    match e.node {
        Expr::CallExpr { callee, args } => match callee.node {
            Expr::FieldAccessExpr { object, field } => match method_owner(ctx, *object, field@) {
                Some(target) => match expr_c(ctx, *object) {
                    Err(f) => Err(f),
                    Ok(o) => match exprs_c(ctx, args@, args@.len() as int) {
                        Err(f) => Err(f),
                        Ok(cs) => {
                            let prefix = if ctx.decls.by_pointer.contains((target, field@)) {
                                "&"@
                            } else {
                                ""@
                            };
                            Ok(
                                Some(
                                    model::Code {
                                        text: model::method_name(target, field@) + "("@
                                            + text::joined(
                                            seq![prefix + o.text] + code_texts(cs),
                                            ", "@,
                                        ) + ")"@,
                                        tls: o.tls || any_tls(cs),
                                    },
                                ),
                            )
                        },
                    },
                },
                None => Ok(None),
            },
            _ => Ok(None),
        },
        _ => Ok(None),
    }
}

/// A variant of a payload enum applied to its payload.
pub open spec fn variant_c(ctx: model::Ctx, e: Spanned<Expr>) -> model::Outcome<
    Option<model::Code>,
>
    decreases e, 1int,
{
    match e.node {
        Expr::CallExpr { callee, args } => match callee.node {
            Expr::Identifier { name } => if ctx.decls.values.dom().contains(name@)
                && ctx.decls.owners.dom().contains(name@) && model::has_payload(
                ctx.decls,
                ctx.decls.owners[name@],
            ) && args@.len() == 1 {
                let number = text::dec_int(ctx.decls.values[name@] as int);
                there(
                    around(
                        "("@ + ctx.decls.owners[name@] + "){ .tag = "@ + number + ", .u.v"@ + number
                            + " = "@,
                        expr_c(ctx, args@[0]),
                        " }"@,
                    ),
                )
            } else {
                Ok(None)
            },
            _ => Ok(None),
        },
        _ => Ok(None),
    }
}

/// Any other call: the arguments are rendered before the callee.
pub open spec fn apply_c(ctx: model::Ctx, e: Spanned<Expr>) -> model::Outcome<model::Code>
    decreases e, 1int,
{
    match e.node {
        Expr::CallExpr { callee, args } => match exprs_c(ctx, args@, args@.len() as int) {
            Err(f) => Err(f),
            Ok(cs) => around(
                ""@,
                tls_noted(expr_c(ctx, *callee), any_tls(cs)),
                "("@ + text::joined(code_texts(cs), ", "@) + ")"@,
            ),
        },
        _ => Ok(bare(""@)),
    }
}

/// A call. A builtin goes before a collection method, that before a declared
/// method, that before an enum variant, and that before an ordinary function.
pub open spec fn call_c(ctx: model::Ctx, e: Spanned<Expr>) -> model::Outcome<model::Code>
    decreases e, 2int,
{
    tls_noted(
        first_of(
            plain_call_c(e),
            first_of(
                print_call_c(ctx, e),
                first_of(
                    builtin_call_c(ctx, e),
                    first_of(
                        push_c(ctx, e),
                        first_of(
                            pop_c(ctx, e),
                            first_of(
                                length_c(ctx, e),
                                first_of(
                                    method_c(ctx, e),
                                    first_of(variant_c(ctx, e), apply_c(ctx, e)),
                                ),
                            ),
                        ),
                    ),
                ),
            ),
        ),
        calls_tls(e),
    )
}

/// `Some`, `None`, `Ok`, `Err` or `vec_new` where a value of an option, result or
/// vector type is wanted; nothing for any other value.
pub open spec fn constructor_c(ctx: model::Ctx, ty: ast::Type, value: Spanned<Expr>) -> model::Outcome<
    Option<model::Code>,
>
    decreases value, 1int,
{
    match aliases::meant(ctx.decls.aliases, ty) {
        ast::Type::Const { .. } => Ok(None),
        ast::Type::Named { name, args } => match model::type_c(ctx.decls, ty) {
            Err(f) => Err(f),
            Ok(alias) => match value.node {
                Expr::Identifier { name: n } => if name == "Option"@ && args.len() == 1 && n@
                    == "None"@ {
                    Ok(Some(bare("("@ + alias + "){ .some = false }"@)))
                } else {
                    Ok(None)
                },
                Expr::CallExpr { callee, args: cargs } => match callee.node {
                    Expr::Identifier { name: n } => if name == "Option"@ && args.len() == 1 && n@
                        == "Some"@ && cargs@.len() == 1 {
                        there(
                            around(
                                "("@ + alias + "){ .some = true, .value = "@,
                                expr_c(ctx, cargs@[0]),
                                " }"@,
                            ),
                        )
                    } else if name == "Result"@ && args.len() == 2 && n@ == "Ok"@ && cargs@.len()
                        == 1 {
                        there(
                            around(
                                "("@ + alias + "){ .ok = true, .value = "@,
                                expr_c(ctx, cargs@[0]),
                                " }"@,
                            ),
                        )
                    } else if name == "Result"@ && args.len() == 2 && n@ == "Err"@ && cargs@.len()
                        == 1 {
                        there(
                            around(
                                "("@ + alias + "){ .ok = false, .error = "@,
                                expr_c(ctx, cargs@[0]),
                                " }"@,
                            ),
                        )
                    } else if name == "Vec"@ && args.len() == 1 && n@ == "vec_new"@ && cargs@.len()
                        == 0 {
                        Ok(Some(bare("("@ + alias + "){ .data = 0, .len = 0, .cap = 0 }"@)))
                    } else {
                        Ok(None)
                    },
                    _ => Ok(None),
                },
                _ => Ok(None),
            },
        },
    }
}

/// The first field, from the `i`-th on, that has this name.
pub open spec fn field_type(fields: Seq<(Seq<char>, ast::Type)>, name: Seq<char>, i: int) -> Option<
    ast::Type,
>
    decreases fields.len() - i,
{
    if i < 0 || i >= fields.len() {
        None
    } else if fields[i].0 == name {
        Some(fields[i].1)
    } else {
        field_type(fields, name, i + 1)
    }
}

/// The declared type of a field.
pub open spec fn declared_field(d: model::Decls, owner: Seq<char>, name: Seq<char>) -> Option<
    ast::Type,
> {
    if d.fields.dom().contains(owner) {
        field_type(d.fields[owner], name, 0)
    } else {
        None
    }
}

/// A value where one of type `ty` is wanted, if that is known.
pub open spec fn typed_c(ctx: model::Ctx, ty: Option<ast::Type>, value: Spanned<Expr>) -> model::Outcome<
    model::Code,
>
    decreases value, 4int,
{
    match ty {
        Some(t) => first_of(constructor_c(ctx, t, value), expr_c(ctx, value)),
        None => expr_c(ctx, value),
    }
}

/// The first `n` fields of a struct literal.
pub open spec fn inits_c(ctx: model::Ctx, owner: Seq<char>, fields: Seq<FieldInit>, n: int) -> model::Outcome<
    Seq<model::Code>,
>
    decreases fields, n,
{
    if n <= 0 || n > fields.len() {
        Ok(Seq::empty())
    } else {
        match inits_c(ctx, owner, fields, n - 1) {
            Err(f) => Err(f),
            Ok(cs) => {
                let f = fields[n - 1];
                match around(
                    "."@ + f.name@ + " = "@,
                    typed_c(ctx, declared_field(ctx.decls, owner, f.name@), f.value),
                    ""@,
                ) {
                    Err(e) => Err(e),
                    Ok(c) => Ok(cs.push(c)),
                }
            },
        }
    }
}

/// The first `n` of a list of expressions.
pub open spec fn exprs_c(ctx: model::Ctx, es: Seq<Spanned<Expr>>, n: int) -> model::Outcome<
    Seq<model::Code>,
>
    decreases es, n,
{
    if n <= 0 || n > es.len() {
        Ok(Seq::empty())
    } else {
        match exprs_c(ctx, es, n - 1) {
            Err(f) => Err(f),
            Ok(cs) => match expr_c(ctx, es[n - 1]) {
                Err(f) => Err(f),
                Ok(c) => Ok(cs.push(c)),
            },
        }
    }
}

/// A binary operation. With a string operand `+` concatenates, `*` repeats and
/// comparisons compare contents.
pub open spec fn binary_c(ctx: model::Ctx, e: Spanned<Expr>) -> model::Outcome<model::Code>
    decreases e, 2int,
{
    match e.node {
        Expr::BinaryExpr { op, left, right } => {
            let on_string = holds_string(ctx, *left) || holds_string(ctx, *right);
            if op@ == "+"@ && on_string {
                glued(
                    "__xlang_str_concat("@,
                    expr_c(ctx, *left),
                    ", "@,
                    expr_c(ctx, *right),
                    ")"@,
                )
            } else if op@ == "*"@ && on_string {
                if holds_string(ctx, *left) {
                    glued(
                        "__xlang_str_repeat("@,
                        expr_c(ctx, *left),
                        ", "@,
                        expr_c(ctx, *right),
                        ")"@,
                    )
                } else {
                    glued(
                        "__xlang_str_repeat("@,
                        expr_c(ctx, *right),
                        ", "@,
                        expr_c(ctx, *left),
                        ")"@,
                    )
                }
            } else if compares(op@) && on_string {
                glued(
                    "(strcmp("@,
                    expr_c(ctx, *left),
                    ", "@,
                    expr_c(ctx, *right),
                    ") "@ + op@ + " 0)"@,
                )
            } else {
                glued("("@, expr_c(ctx, *left), " "@ + op@ + " "@, expr_c(ctx, *right), ")"@)
            }
        },
        _ => Ok(bare(""@)),
    }
}

/// An index into a string, which gives a byte, or into a collection. The index
/// is rendered before the object.
pub open spec fn index_c(ctx: model::Ctx, e: Spanned<Expr>) -> model::Outcome<model::Code>
    decreases e, 2int,
{
    match e.node {
        Expr::IndexExpr { object, index } => match expr_c(ctx, *index) {
            Err(f) => Err(f),
            Ok(i) => if holds_string(ctx, *object) {
                around(
                    "((int32_t)(unsigned char)"@,
                    tls_noted(expr_c(ctx, *object), i.tls),
                    "["@ + i.text + "])"@,
                )
            } else {
                around(
                    ""@,
                    tls_noted(expr_c(ctx, *object), i.tls),
                    ".data["@ + i.text + "]"@,
                )
            },
        },
        _ => Ok(bare(""@)),
    }
}

/// An expression.
pub open spec fn expr_c(ctx: model::Ctx, e: Spanned<Expr>) -> model::Outcome<model::Code>
    decreases e, 3int,
{
    match e.node {
        Expr::IntLiteral { value } => Ok(bare(value@)),
        Expr::FloatLiteral { value } => Ok(bare(value@)),
        Expr::StringLiteral { value } => Ok(bare(string_c(value@))),
        Expr::BoolLiteral { value } => Ok(
            bare(
                if value {
                    "true"@
                } else {
                    "false"@
                },
            ),
        ),
        Expr::Identifier { name } => Ok(bare(name_c(ctx, name@))),
        Expr::ArrayLiteral { .. } => Err(
            error::Fault::Codegen(
                "array literals are only supported in typed Array<T, N> let initializers"@,
            ),
        ),
        Expr::BinaryExpr { .. } => binary_c(ctx, e),
        Expr::UnaryExpr { op, value } => around("("@ + op@, expr_c(ctx, *value), ")"@),
        Expr::AssignmentExpr { target, value } => glued(
            "("@,
            expr_c(ctx, *target),
            " = "@,
            expr_c(ctx, *value),
            ")"@,
        ),
        Expr::CallExpr { .. } => call_c(ctx, e),
        Expr::FieldAccessExpr { object, field } => around(
            ""@,
            expr_c(ctx, *object),
            "."@ + field@,
        ),
        Expr::StructLiteral { name, fields } => match inits_c(
            ctx,
            model::owner_name(ctx.decls, name@),
            fields@,
            fields@.len() as int,
        ) {
            Err(f) => Err(f),
            Ok(cs) => Ok(
                model::Code {
                    text: "("@ + model::owner_name(ctx.decls, name@) + "){ "@ + text::joined(code_texts(cs), ", "@) + " }"@,
                    tls: any_tls(cs),
                },
            ),
        },
        Expr::IndexExpr { .. } => index_c(ctx, e),
        Expr::RangeExpr { .. } => Err(
            error::Fault::Codegen(
                "range expressions (a..b) are only supported as the iterable of a `for` loop"@,
            ),
        ),
    }
}

// ---------------------------------------------------------------------------
// Rendering
// ---------------------------------------------------------------------------

/// A piece of C, and whether a TLS builtin is called in it.
pub struct Rendered {
    pub text: String,
    pub tls: bool,
}

impl Rendered {
    /// The piece as a mathematical value.
    pub open spec fn code(self) -> model::Code {
        model::Code { text: self.text@, tls: self.tls }
    }
}

/// Rendered code with its errors by their views.
pub(crate) open spec fn rendered(r: XResult<Rendered>) -> model::Outcome<model::Code> {
    match r {
        Ok(c) => Ok(c.code()),
        Err(e) => Err(e@),
    }
}

/// Rendered code that may be missing, with its errors by their views.
pub open spec fn perhaps(r: XResult<Option<Rendered>>) -> model::Outcome<
    Option<model::Code>,
> {
    match r {
        Ok(Some(c)) => Ok(Some(c.code())),
        Ok(None) => Ok(None),
        Err(e) => Err(e@),
    }
}

/// The pieces of a list.
pub(crate) struct RenderedList {
    pub(crate) texts: Vec<String>,
    pub(crate) tls: bool,
}

impl RenderedList {
    /// Whether the list holds these pieces.
    pub(crate) open spec fn holds(self, cs: Seq<model::Code>) -> bool {
        text::texts(self.texts@) == code_texts(cs) && self.tls == any_tls(cs)
    }
}

/// Code without a TLS call.
fn bare_code(t: String) -> (r: Rendered)
    ensures
        r.code() == bare(t@),
{
    Rendered { text: t, tls: false }
}

/// Code between two texts.
fn wrap(p0: &str, a: Rendered, p1: &str) -> (r: Rendered)
    ensures
        Ok::<model::Code, error::Fault>(r.code()) == around(p0@, Ok(a.code()), p1@),
{
    Rendered { text: text::cat3(p0, a.text.as_str(), p1), tls: a.tls }
}

/// Two pieces of code with texts before, between and after them.
fn glue(p0: &str, a: Rendered, p1: &str, b: Rendered, p2: &str) -> (r: Rendered)
    ensures
        Ok::<model::Code, error::Fault>(r.code()) == glued(
            p0@,
            Ok(a.code()),
            p1@,
            Ok(b.code()),
            p2@,
        ),
{
    Rendered {
        text: text::cat5(p0, a.text.as_str(), p1, b.text.as_str(), p2),
        tls: a.tls || b.tls,
    }
}

/// Code that calls a TLS builtin where `tls` says so.
fn note(c: Rendered, tls: bool) -> (r: Rendered)
    ensures
        Ok::<model::Code, error::Fault>(r.code()) == tls_noted(Ok(c.code()), tls),
{
    Rendered { text: c.text, tls: c.tls || tls }
}

/// The C function that a method becomes. The prefix keeps it apart from the
/// functions of the program.
pub(crate) fn method_fn_name(target: &str, name: &str) -> (r: String)
    ensures
        r@ == model::method_name(target@, name@),
{
    text::cat4("__xlang_method_", target, "_", name)
}

/// Whether an operator compares.
fn comparing(op: &str) -> (r: bool)
    ensures
        r == compares(op@),
{
    text::same(op, "<") || text::same(op, "<=") || text::same(op, ">") || text::same(op, ">=")
        || text::same(op, "==") || text::same(op, "!=")
}

/// A string literal.
fn string_literal(value: &str) -> (r: String)
    ensures
        r@ == string_c(value@),
{
    let quoted = json::quoted(value);
    proof {
        reveal_strlit("\\u001b");
    }
    text::replace_all(quoted.as_str(), "\\u001b", "\\x1b")
}

proof fn lemma_exprs_len(ctx: model::Ctx, es: Seq<Spanned<Expr>>, n: int)
    requires
        0 <= n <= es.len(),
    ensures
        exprs_c(ctx, es, n) is Ok ==> exprs_c(ctx, es, n)->Ok_0.len() == n,
    decreases n,
{
    if n > 0 {
        lemma_exprs_len(ctx, es, n - 1);
    }
}

proof fn lemma_exprs_fail(ctx: model::Ctx, es: Seq<Spanned<Expr>>, i: int, n: int)
    requires
        0 <= i <= n <= es.len(),
        exprs_c(ctx, es, i) is Err,
    ensures
        exprs_c(ctx, es, n) == exprs_c(ctx, es, i),
    decreases n - i,
{
    if i < n {
        lemma_exprs_fail(ctx, es, i, n - 1);
    }
}

proof fn lemma_inits_fail(ctx: model::Ctx, owner: Seq<char>, fields: Seq<FieldInit>, i: int, n: int)
    requires
        0 <= i <= n <= fields.len(),
        inits_c(ctx, owner, fields, i) is Err,
    ensures
        inits_c(ctx, owner, fields, n) == inits_c(ctx, owner, fields, i),
    decreases n - i,
{
    if i < n {
        lemma_inits_fail(ctx, owner, fields, i, n - 1);
    }
}

/// A list with one more piece.
fn with_piece(list: RenderedList, c: Rendered, Ghost(cs): Ghost<Seq<model::Code>>) -> (r: RenderedList)
    requires
        list.holds(cs),
    ensures
        r.holds(cs.push(c.code())),
{
    let mut texts = list.texts;
    let tls = list.tls || c.tls;
    let ghost before = texts@;
    texts.push(c.text);
    let r = RenderedList { texts, tls };
    proof {
        let after = cs.push(c.code());
        assert(text::texts(r.texts@) =~= text::texts(before).push(c.text@));
        assert(code_texts(after) =~= code_texts(cs).push(c.text@));
        if any_tls(cs) {
            let k = choose|k: int| 0 <= k < cs.len() && (#[trigger] cs[k]).tls;
            assert(after[k].tls);
        }
        assert(after[cs.len() as int] == c.code());
        if any_tls(after) {
            let k = choose|k: int| 0 <= k < after.len() && (#[trigger] after[k]).tls;
            if k < cs.len() {
                assert(cs[k].tls);
            }
        }
    }
    r
}

impl CGen {
    /// The type of a receiver.
    pub(crate) fn receiver_type(&self, object: &Spanned<Expr>) -> (r: Option<TypeNode>)
        ensures
            model::payload_type(r) == receiver_type(self.ctx(), *object),
    {
        let found = match &object.node {
            Expr::Identifier { name } => self.scopes.lookup(name.as_str()),
            _ => self.types.type_node(object),
        };
        match found {
            Some(t) => Some(self.aliases.meaning(t)),
            None => None,
        }
    }

    /// What the recorded type of an expression stands for.
    fn recorded_type(&self, e: &Spanned<Expr>) -> (r: Option<TypeNode>)
        ensures
            model::payload_type(r) == aliases::meant_if(
                self.decls().aliases,
                typecheck::type_at(self.types@, *e),
            ),
    {
        match self.types.type_node(e) {
            Some(t) => Some(self.aliases.meaning(t)),
            None => None,
        }
    }

    /// Whether an expression is a string.
    fn is_string(&self, e: &Spanned<Expr>) -> (r: bool)
        ensures
            r == holds_string(self.ctx(), *e),
    {
        match self.recorded_type(e) {
            Some(t) => {
                proof {
                    ast::lemma_args(t);
                }
                match &t {
                    TypeNode::TypeExpr { name, args } => args.len() == 0 && (text::same(
                        name.as_str(),
                        "String",
                    ) || text::same(name.as_str(), "Str")),
                    TypeNode::ConstTypeArg { .. } => false,
                }
            },
            None => false,
        }
    }

    /// The name of a type, where it has no arguments and a method `field`.
    fn owner_named(&self, t: &TypeNode, field: &str) -> (r: Option<String>)
        ensures
            match bare_name(Some(t@)) {
                Some(n) => if self.decls().methods.contains((n, field@)) {
                    r is Some && r->0@ == n
                } else {
                    r is None
                },
                None => r is None,
            },
    {
        proof {
            ast::lemma_args(*t);
        }
        match t {
            TypeNode::TypeExpr { name, args } => if args.len() == 0 && self.methods.contains(
                name.as_str(),
                field,
            ) {
                Some(name.clone())
            } else {
                None
            },
            TypeNode::ConstTypeArg { .. } => None,
        }
    }

    /// The type whose method a call names.
    fn method_owner(&self, object: &Spanned<Expr>, field: &str) -> (r: Option<String>)
        ensures
            (match r {
                Some(n) => Some(n@),
                None => None,
            }) == method_owner(self.ctx(), *object, field@),
    {
        match self.types.type_node(object) {
            Some(t) => match self.owner_named(t, field) {
                Some(n) => Some(n),
                None => {
                    let meant = self.aliases.meaning(t);
                    self.owner_named(&meant, field)
                },
            },
            None => None,
        }
    }

    /// The element type of a receiver that is a vector.
    fn vec_element(&self, object: &Spanned<Expr>) -> (r: Option<TypeNode>)
        ensures
            match receiver_type(self.ctx(), *object) {
                Some(ast::Type::Named { name, args }) => if name == "Vec"@ && args.len() == 1 {
                    r is Some && r->0@ == args[0]
                } else {
                    r is None
                },
                _ => r is None,
            },
    {
        match self.receiver_type(object) {
            Some(t) => {
                proof {
                    ast::lemma_args(t);
                }
                match &t {
                    TypeNode::TypeExpr { name, args } => if text::same(name.as_str(), "Vec")
                        && args.len() == 1 {
                        Some(args[0].copied())
                    } else {
                        None
                    },
                    TypeNode::ConstTypeArg { .. } => None,
                }
            },
            None => None,
        }
    }

    /// The first `n` of a list of expressions.
    pub(crate) fn gen_exprs(&self, es: &Vec<Spanned<Expr>>, n: usize) -> (r: XResult<RenderedList>)
        requires
            n <= es@.len(),
        ensures
            match exprs_c(self.ctx(), es@, n as int) {
                Ok(cs) => r is Ok && r->Ok_0.holds(cs),
                Err(f) => r is Err && r->Err_0@ == f,
            },
        decreases es@, es@.len(),
    {
        let mut out = RenderedList { texts: Vec::new(), tls: false };
        let mut i: usize = 0;
        let ghost mut done: Seq<model::Code> = Seq::empty();
        proof {
            assert(text::texts(out.texts@) =~= code_texts(done));
        }
        while i < n
            invariant
                i <= n <= es@.len(),
                exprs_c(self.ctx(), es@, i as int) == Ok::<Seq<model::Code>, error::Fault>(done),
                out.holds(done),
            decreases n - i,
        {
            match self.gen_expr(&es[i]) {
                Ok(c) => {
                    let ghost code = c.code();
                    out = with_piece(out, c, Ghost(done));
                    proof {
                        done = done.push(code);
                    }
                },
                Err(e) => {
                    proof {
                        lemma_exprs_fail(self.ctx(), es@, i + 1, n as int);
                    }
                    return Err(e);
                },
            }
            i += 1;
        }
        Ok(out)
    }

    /// The declared type of a field.
    fn field_type(&self, owner: &str, name: &str) -> (r: Option<&TypeNode>)
        ensures
            (match r {
                Some(t) => Some(t@),
                None => None,
            }) == declared_field(self.decls(), owner@, name@),
    {
        match self.struct_fields.get(owner) {
            None => None,
            Some(fields) => {
                let mut i: usize = 0;
                while i < fields.list.len()
                    invariant
                        i <= fields.list@.len(),
                        declared_field(self.decls(), owner@, name@) == field_type(
                            fields@,
                            name@,
                            i as int,
                        ),
                    decreases fields.list@.len() - i,
                {
                    assert(fields@[i as int] == (
                        fields.list@[i as int].0@,
                        fields.list@[i as int].1@,
                    ));
                    if text::same(fields.list[i].0.as_str(), name) {
                        return Some(&fields.list[i].1);
                    }
                    i += 1;
                }
                None
            },
        }
    }

    /// The fields of a struct literal.
    fn gen_inits(&self, owner: &str, fields: &Vec<FieldInit>) -> (r: XResult<RenderedList>)
        ensures
            match inits_c(self.ctx(), owner@, fields@, fields@.len() as int) {
                Ok(cs) => r is Ok && r->Ok_0.holds(cs),
                Err(f) => r is Err && r->Err_0@ == f,
            },
        decreases fields@, fields@.len(),
    {
        let mut out = RenderedList { texts: Vec::new(), tls: false };
        let mut i: usize = 0;
        let ghost mut done: Seq<model::Code> = Seq::empty();
        proof {
            assert(text::texts(out.texts@) =~= code_texts(done));
        }
        while i < fields.len()
            invariant
                i <= fields@.len(),
                inits_c(self.ctx(), owner@, fields@, i as int) == Ok::<
                    Seq<model::Code>,
                    error::Fault,
                >(done),
                out.holds(done),
            decreases fields@.len() - i,
        {
            assert(decreases_to!(fields@ => fields@[i as int]));
            let name = fields[i].name.as_str();
            let ty = self.field_type(owner, name);
            match self.gen_typed(ty, &fields[i].value) {
                Ok(c) => {
                    let front = text::cat3(".", name, " = ");
                    let c = wrap(front.as_str(), c, "");
                    let ghost code = c.code();
                    out = with_piece(out, c, Ghost(done));
                    proof {
                        done = done.push(code);
                    }
                },
                Err(e) => {
                    proof {
                        lemma_inits_fail(
                            self.ctx(),
                            owner@,
                            fields@,
                            i + 1,
                            fields@.len() as int,
                        );
                    }
                    return Err(e);
                },
            }
            i += 1;
        }
        Ok(out)
    }

    /// A value where one of a given type is wanted, if that is known.
    pub(crate) fn gen_typed(&self, ty: Option<&TypeNode>, value: &Spanned<Expr>) -> (r: XResult<
        Rendered,
    >)
        ensures
            rendered(r) == typed_c(
                self.ctx(),
                match ty {
                    Some(t) => Some(t@),
                    None => None,
                },
                *value,
            ),
        decreases value, 4int,
    {
        if let Some(t) = ty {
            if let Some(c) = self.try_constructor(t, value)? {
                return Ok(c);
            }
        }
        self.gen_expr(value)
    }

    /// If `value` is a Some/None/Ok/Err constructor for the Option/Result `ty`, or
    /// `vec_new()` for a Vec, the C compound literal; otherwise nothing.
    pub(crate) fn try_constructor(&self, ty: &TypeNode, value: &Spanned<Expr>) -> (r: XResult<
        Option<Rendered>,
    >)
        ensures
            perhaps(r) == constructor_c(self.ctx(), ty@, *value),
        decreases value, 1int,
    {
        let meant = self.aliases.meaning(ty);
        proof {
            ast::lemma_args(meant);
        }
        let (name, args) = match &meant {
            TypeNode::TypeExpr { name, args } => (name.as_str(), args),
            TypeNode::ConstTypeArg { .. } => {
                return Ok(None);
            },
        };
        let alias = self.c_type(ty)?;
        let is_option = text::same(name, "Option") && args.len() == 1;
        let is_result = text::same(name, "Result") && args.len() == 2;
        let is_vec = text::same(name, "Vec") && args.len() == 1;
        match &value.node {
            Expr::Identifier { name: n } => if is_option && text::same(n.as_str(), "None") {
                Ok(Some(bare_code(text::cat3("(", alias.as_str(), "){ .some = false }"))))
            } else {
                Ok(None)
            },
            Expr::CallExpr { callee, args: cargs } => match &callee.node {
                Expr::Identifier { name: n } => {
                    let n = n.as_str();
                    if is_option && text::same(n, "Some") && cargs.len() == 1 {
                        let v = self.gen_expr(&cargs[0])?;
                        let front = text::cat3("(", alias.as_str(), "){ .some = true, .value = ");
                        Ok(Some(wrap(front.as_str(), v, " }")))
                    } else if is_result && text::same(n, "Ok") && cargs.len() == 1 {
                        let v = self.gen_expr(&cargs[0])?;
                        let front = text::cat3("(", alias.as_str(), "){ .ok = true, .value = ");
                        Ok(Some(wrap(front.as_str(), v, " }")))
                    } else if is_result && text::same(n, "Err") && cargs.len() == 1 {
                        let v = self.gen_expr(&cargs[0])?;
                        let front = text::cat3("(", alias.as_str(), "){ .ok = false, .error = ");
                        Ok(Some(wrap(front.as_str(), v, " }")))
                    } else if is_vec && text::same(n, "vec_new") && cargs.len() == 0 {
                        Ok(
                            Some(
                                bare_code(
                                    text::cat3(
                                        "(",
                                        alias.as_str(),
                                        "){ .data = 0, .len = 0, .cap = 0 }",
                                    ),
                                ),
                            ),
                        )
                    } else {
                        Ok(None)
                    }
                },
                _ => Ok(None),
            },
            _ => Ok(None),
        }
    }

    /// Zero-argument builtins.
    fn try_zero_arg_call(&self, expr: &Spanned<Expr>) -> (r: XResult<Option<Rendered>>)
        ensures
            perhaps(r) == plain_call_c(*expr),
    {
        match &expr.node {
            Expr::CallExpr { callee, args } => match &callee.node {
                Expr::Identifier { name } => if args.len() == 0 {
                    match builtins::plain(name.as_str()) {
                        Some(t) => Ok(Some(bare_code(t))),
                        None => Ok(None),
                    }
                } else {
                    Ok(None)
                },
                _ => Ok(None),
            },
            _ => Ok(None),
        }
    }

    /// The print builtins, which become a `printf`.
    fn try_print_call(&self, expr: &Spanned<Expr>) -> (r: XResult<Option<Rendered>>)
        ensures
            perhaps(r) == print_call_c(self.ctx(), *expr),
        decreases expr, 1int,
    {
        match &expr.node {
            Expr::CallExpr { callee, args } => match &callee.node {
                Expr::Identifier { name } => if args.len() == 1 {
                    let a = self.gen_expr(&args[0])?;
                    match builtins::print(name.as_str(), a.text.as_str()) {
                        Some(t) => Ok(Some(Rendered { text: t, tls: a.tls })),
                        None => Ok(None),
                    }
                } else {
                    Ok(None)
                },
                _ => Ok(None),
            },
            _ => Ok(None),
        }
    }

    /// The builtins that take arguments.
    pub fn try_string_call(&self, expr: &Spanned<Expr>) -> (r: XResult<Option<Rendered>>)
        ensures
            perhaps(r) == builtin_call_c(self@.ctx, *expr),
        decreases expr, 1int,
    {
        match &expr.node {
            Expr::CallExpr { callee, args } => match &callee.node {
                Expr::Identifier { name } => match builtins::arity(name.as_str()) {
                    Some(n) => if n <= args.len() {
                        let list = self.gen_exprs(args, n)?;
                        proof {
                            lemma_exprs_len(self.ctx(), args@, n as int);
                            assert(text::texts(list.texts@).len() == n);
                        }
                        Ok(
                            Some(
                                Rendered {
                                    text: builtins::call(name.as_str(), &list.texts),
                                    tls: list.tls,
                                },
                            ),
                        )
                    } else {
                        Ok(None)
                    },
                    None => Ok(None),
                },
                _ => Ok(None),
            },
            _ => Ok(None),
        }
    }

    /// `v.push(x)` on a vector: a call of the helper for its element type. With
    /// `mut self` the address of `(*self).items` is that of the caller's field.
    fn try_vec_push_call(&self, expr: &Spanned<Expr>) -> (r: XResult<Option<Rendered>>)
        ensures
            perhaps(r) == push_c(self.ctx(), *expr),
        decreases expr, 1int,
    {
        match &expr.node {
            Expr::CallExpr { callee, args } => match &callee.node {
                Expr::FieldAccessExpr { object, field } => if text::same(field.as_str(), "push")
                    && args.len() == 1 {
                    match self.vec_element(object) {
                        Some(elem) => {
                            let s = self.c_type_suffix(&elem)?;
                            let v = self.gen_expr(object)?;
                            let x = self.gen_expr(&args[0])?;
                            let front = text::cat3("__xlang_vec_push_", s.as_str(), "(&");
                            Ok(Some(glue(front.as_str(), v, ", ", x, ")")))
                        },
                        None => Ok(None),
                    }
                } else {
                    Ok(None)
                },
                _ => Ok(None),
            },
            _ => Ok(None),
        }
    }

    /// `v.pop()` on a vector.
    fn try_vec_pop_call(&self, expr: &Spanned<Expr>) -> (r: XResult<Option<Rendered>>)
        ensures
            perhaps(r) == pop_c(self.ctx(), *expr),
        decreases expr, 1int,
    {
        match &expr.node {
            Expr::CallExpr { callee, args } => match &callee.node {
                Expr::FieldAccessExpr { object, field } => if text::same(field.as_str(), "pop")
                    && args.len() == 0 {
                    match self.vec_element(object) {
                        Some(elem) => {
                            let s = self.c_type_suffix(&elem)?;
                            let v = self.gen_expr(object)?;
                            let front = text::cat3("__xlang_vec_pop_", s.as_str(), "(&");
                            Ok(Some(wrap(front.as_str(), v, ")")))
                        },
                        None => Ok(None),
                    }
                } else {
                    Ok(None)
                },
                _ => Ok(None),
            },
            _ => Ok(None),
        }
    }

    /// `len()` and `is_empty()` on a collection, `insert(i, x)` and `remove_at(i)`
    /// on a vector.
    fn try_vec_len_call(&self, expr: &Spanned<Expr>) -> (r: XResult<Option<Rendered>>)
        ensures
            perhaps(r) == length_c(self.ctx(), *expr),
        decreases expr, 1int,
    {
        let (callee, args) = match &expr.node {
            Expr::CallExpr { callee, args } => (callee, args),
            _ => {
                return Ok(None);
            },
        };
        let (object, field) = match &callee.node {
            Expr::FieldAccessExpr { object, field } => (object, field.as_str()),
            _ => {
                return Ok(None);
            },
        };
        let ty = match self.receiver_type(object) {
            Some(t) => t,
            None => {
                return Ok(None);
            },
        };
        proof {
            ast::lemma_args(ty);
        }
        let (name, targs) = match &ty {
            TypeNode::TypeExpr { name, args } => (name.as_str(), args),
            TypeNode::ConstTypeArg { .. } => {
                return Ok(None);
            },
        };
        let is_vec = text::same(name, "Vec") && targs.len() == 1;
        let is_collection = is_vec || text::same(name, "Slice") && targs.len() == 1 || text::same(
            name,
            "Array",
        ) && targs.len() == 2;
        if !is_collection {
            return Ok(None);
        }
        let o = self.gen_expr(object)?;
        if text::same(field, "len") && args.len() == 0 {
            return Ok(Some(wrap("(", o, ".len)")));
        }
        if text::same(field, "is_empty") && args.len() == 0 {
            return Ok(Some(wrap("(", o, ".len == 0)")));
        }
        if !is_vec {
            return Ok(None);
        }
        let s = self.c_type_suffix(&targs[0])?;
        if text::same(field, "insert") && args.len() == 2 {
            let idx = self.gen_expr(&args[0])?;
            let val = self.gen_expr(&args[1])?;
            let front = text::cat5(
                "__xlang_vec_insert_",
                s.as_str(),
                "(&",
                o.text.as_str(),
                ", ",
            );
            Ok(Some(glue(front.as_str(), note(idx, o.tls), ", ", val, ")")))
        } else if text::same(field, "remove_at") && args.len() == 1 {
            let idx = self.gen_expr(&args[0])?;
            let front = text::cat5(
                "__xlang_vec_remove_",
                s.as_str(),
                "(&",
                o.text.as_str(),
                ", ",
            );
            Ok(Some(wrap(front.as_str(), note(idx, o.tls), ")")))
        } else {
            Ok(None)
        }
    }

    /// A call of a method of an `impl` block.
    fn try_method_call(&self, expr: &Spanned<Expr>) -> (r: XResult<Option<Rendered>>)
        ensures
            perhaps(r) == method_c(self.ctx(), *expr),
        decreases expr, 1int,
    {
        let (callee, args) = match &expr.node {
            Expr::CallExpr { callee, args } => (callee, args),
            _ => {
                return Ok(None);
            },
        };
        let (object, field) = match &callee.node {
            Expr::FieldAccessExpr { object, field } => (object, field.as_str()),
            _ => {
                return Ok(None);
            },
        };
        let owner = match self.method_owner(object, field) {
            Some(t) => t,
            None => {
                return Ok(None);
            },
        };
        let target = owner.as_str();
        let receiver = self.gen_expr(object)?;
        let list = self.gen_exprs(args, args.len())?;
        let prefix = if self.mut_self.contains(target, field) {
            "&"
        } else {
            ""
        };
        let mut parts: Vec<String> = Vec::new();
        parts.push(text::cat2(prefix, receiver.text.as_str()));
        let mut rest = list.texts;
        let ghost first = parts@;
        let ghost tail = rest@;
        parts.append(&mut rest);
        proof {
            assert(text::texts(parts@) =~= seq![first[0]@] + text::texts(tail));
        }
        let inside = text::join(&parts, ", ");
        let called = method_fn_name(target, field);
        Ok(
            Some(
                Rendered {
                    text: text::cat4(called.as_str(), "(", inside.as_str(), ")"),
                    tls: receiver.tls || list.tls,
                },
            ),
        )
    }

    /// A payload variant applied to its payload.
    fn try_variant_call(&self, expr: &Spanned<Expr>) -> (r: XResult<Option<Rendered>>)
        ensures
            perhaps(r) == variant_c(self.ctx(), *expr),
        decreases expr, 1int,
    {
        match &expr.node {
            Expr::CallExpr { callee, args } => match &callee.node {
                Expr::Identifier { name } => match self.enum_values.get(name.as_str()) {
                    Some(idx) => match self.variant_enum.get(name.as_str()) {
                        Some(en) => if self.enum_has_payload(en.as_str()) && args.len() == 1 {
                            let val = self.gen_expr(&args[0])?;
                            let number = text::decimal_signed(*idx);
                            let front = text::cat7(
                                "(",
                                en.as_str(),
                                "){ .tag = ",
                                number.as_str(),
                                ", .u.v",
                                number.as_str(),
                                " = ",
                            );
                            Ok(Some(wrap(front.as_str(), val, " }")))
                        } else {
                            Ok(None)
                        },
                        None => Ok(None),
                    },
                    None => Ok(None),
                },
                _ => Ok(None),
            },
            _ => Ok(None),
        }
    }

    /// Any other call.
    fn gen_apply(&self, expr: &Spanned<Expr>) -> (r: XResult<Rendered>)
        requires
            expr.node is CallExpr,
        ensures
            rendered(r) == apply_c(self.ctx(), *expr),
        decreases expr, 1int,
    {
        match &expr.node {
            Expr::CallExpr { callee, args } => {
                let list = self.gen_exprs(args, args.len())?;
                let c = self.gen_expr(callee)?;
                let inside = text::join(&list.texts, ", ");
                let back = text::cat3("(", inside.as_str(), ")");
                Ok(wrap("", note(c, list.tls), back.as_str()))
            },
            _ => Ok(bare_code("".to_string())),
        }
    }

    /// A call before the TLS builtins are noted.
    fn gen_call_plain(&self, expr: &Spanned<Expr>) -> (r: XResult<Rendered>)
        requires
            expr.node is CallExpr,
        ensures
            tls_noted(rendered(r), calls_tls(*expr)) == call_c(self.ctx(), *expr),
        decreases expr, 2int,
    {
        if let Some(c) = self.try_zero_arg_call(expr)? {
            return Ok(c);
        }
        if let Some(c) = self.try_print_call(expr)? {
            return Ok(c);
        }
        if let Some(c) = self.try_string_call(expr)? {
            return Ok(c);
        }
        if let Some(c) = self.try_vec_push_call(expr)? {
            return Ok(c);
        }
        if let Some(c) = self.try_vec_pop_call(expr)? {
            return Ok(c);
        }
        if let Some(c) = self.try_vec_len_call(expr)? {
            return Ok(c);
        }
        if let Some(c) = self.try_method_call(expr)? {
            return Ok(c);
        }
        if let Some(c) = self.try_variant_call(expr)? {
            return Ok(c);
        }
        self.gen_apply(expr)
    }

    /// A binary operation.
    fn gen_binary(&self, expr: &Spanned<Expr>) -> (r: XResult<Rendered>)
        requires
            expr.node is BinaryExpr,
        ensures
            rendered(r) == binary_c(self.ctx(), *expr),
        decreases expr, 2int,
    {
        match &expr.node {
            Expr::BinaryExpr { op, left, right } => {
                let o = op.as_str();
                let left_string = self.is_string(left);
                let on_string = left_string || self.is_string(right);
                if text::same(o, "+") && on_string {
                    let l = self.gen_expr(left)?;
                    let r = self.gen_expr(right)?;
                    Ok(glue("__xlang_str_concat(", l, ", ", r, ")"))
                } else if text::same(o, "*") && on_string {
                    if left_string {
                        let s = self.gen_expr(left)?;
                        let n = self.gen_expr(right)?;
                        Ok(glue("__xlang_str_repeat(", s, ", ", n, ")"))
                    } else {
                        let s = self.gen_expr(right)?;
                        let n = self.gen_expr(left)?;
                        Ok(glue("__xlang_str_repeat(", s, ", ", n, ")"))
                    }
                } else if comparing(o) && on_string {
                    let l = self.gen_expr(left)?;
                    let r = self.gen_expr(right)?;
                    let back = text::cat3(") ", o, " 0)");
                    Ok(glue("(strcmp(", l, ", ", r, back.as_str()))
                } else {
                    let l = self.gen_expr(left)?;
                    let r = self.gen_expr(right)?;
                    let middle = text::cat3(" ", o, " ");
                    Ok(glue("(", l, middle.as_str(), r, ")"))
                }
            },
            _ => Ok(bare_code("".to_string())),
        }
    }

    /// An index into a string or a collection.
    fn gen_index(&self, expr: &Spanned<Expr>) -> (r: XResult<Rendered>)
        requires
            expr.node is IndexExpr,
        ensures
            rendered(r) == index_c(self.ctx(), *expr),
        decreases expr, 2int,
    {
        match &expr.node {
            Expr::IndexExpr { object, index } => {
                let i = self.gen_expr(index)?;
                let o = self.gen_expr(object)?;
                if self.is_string(object) {
                    let back = text::cat3("[", i.text.as_str(), "])");
                    Ok(wrap("((int32_t)(unsigned char)", note(o, i.tls), back.as_str()))
                } else {
                    let back = text::cat3(".data[", i.text.as_str(), "]");
                    Ok(wrap("", note(o, i.tls), back.as_str()))
                }
            },
            _ => Ok(bare_code("".to_string())),
        }
    }

    /// A name in an expression.
    fn gen_name(&self, name: &str) -> (r: String)
        ensures
            r@ == name_c(self.ctx(), name@),
    {
        if self.in_mut_self && text::same(name, "self") {
            return "(*self)".to_string();
        }
        match self.enum_values.get(name) {
            Some(idx) => {
                let number = text::decimal_signed(*idx);
                match self.variant_enum.get(name) {
                    Some(en) => if self.enum_has_payload(en.as_str()) {
                        text::cat5("(", en.as_str(), "){ .tag = ", number.as_str(), " }")
                    } else {
                        number
                    },
                    None => number,
                }
            },
            None => name.to_string(),
        }
    }

    /// The C for an expression.
    pub(crate) fn gen_expr(&self, expr: &Spanned<Expr>) -> (r: XResult<Rendered>)
        ensures
            rendered(r) == expr_c(self.ctx(), *expr),
        decreases expr, 3int,
    {
        match &expr.node {
            Expr::IntLiteral { value } => Ok(bare_code(value.clone())),
            Expr::FloatLiteral { value } => Ok(bare_code(value.clone())),
            Expr::StringLiteral { value } => Ok(bare_code(string_literal(value.as_str()))),
            Expr::BoolLiteral { value } => Ok(
                bare_code(
                    if *value {
                        "true".to_string()
                    } else {
                        "false".to_string()
                    },
                ),
            ),
            Expr::Identifier { name } => Ok(bare_code(self.gen_name(name.as_str()))),
            Expr::ArrayLiteral { .. } => Err(
                XError::Codegen(
                    "array literals are only supported in typed Array<T, N> let initializers".to_string(),
                ),
            ),
            Expr::BinaryExpr { .. } => self.gen_binary(expr),
            Expr::UnaryExpr { op, value } => {
                let v = self.gen_expr(value)?;
                let front = text::cat2("(", op.as_str());
                Ok(wrap(front.as_str(), v, ")"))
            },
            Expr::AssignmentExpr { target, value } => {
                let t = self.gen_expr(target)?;
                let v = self.gen_expr(value)?;
                Ok(glue("(", t, " = ", v, ")"))
            },
            Expr::CallExpr { callee, args } => {
                let c = self.gen_call_plain(expr)?;
                let tls = match &callee.node {
                    Expr::Identifier { name } => args.len() > 0 && builtins::uses_tls(
                        name.as_str(),
                    ),
                    _ => false,
                };
                Ok(note(c, tls))
            },
            Expr::FieldAccessExpr { object, field } => {
                let o = self.gen_expr(object)?;
                let back = text::cat2(".", field.as_str());
                Ok(wrap("", o, back.as_str()))
            },
            Expr::StructLiteral { name, fields } => {
                let owner = self.owner_name(name.as_str());
                let list = self.gen_inits(owner.as_str(), fields)?;
                let inside = text::join(&list.texts, ", ");
                Ok(
                    Rendered {
                        text: text::cat5("(", owner.as_str(), "){ ", inside.as_str(), " }"),
                        tls: list.tls,
                    },
                )
            },
            Expr::IndexExpr { .. } => self.gen_index(expr),
            Expr::RangeExpr { .. } => Err(
                XError::Codegen(
                    "range expressions (a..b) are only supported as the iterable of a `for` loop".to_string(),
                ),
            ),
        }
    }
}

} // verus!
