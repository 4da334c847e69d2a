//! The generator: the C for each kind of expression, from the C for its parts.

use vstd::prelude::*;

use crate::aliases;
use crate::ast;
use crate::ast::Expr;
use crate::codegen::exprs;
use crate::codegen::model;
use crate::error;
use crate::json;
use crate::scopes;
use crate::source::Spanned;
use crate::text;

verus! {

/// This piece of C, which calls a TLS builtin or not.
pub open spec fn code(t: Seq<char>, tls: bool) -> model::Outcome<model::Code> {
    Ok(model::Code { text: t, tls })
}

/// The name of a type without arguments, once its aliases are replaced.
pub open spec fn says(ctx: model::Ctx, t: Option<ast::Type>, name: Seq<char>) -> bool {
    t matches Some(t) && (aliases::meant(ctx.decls.aliases, t) matches ast::Type::Named {
        name: n,
        args,
    } && n == name && args.len() == 0)
}

/// Whether the type recorded at the place of an expression is `String` or `Str`,
/// under this name or another.
pub open spec fn is_string(ctx: model::Ctx, e: Spanned<Expr>) -> bool {
    ctx.decls.types.dom().contains(e.span) && (says(ctx, Some(ctx.decls.types[e.span]), "String"@)
        || says(ctx, Some(ctx.decls.types[e.span]), "Str"@))
}

// ---------------------------------------------------------------------------
// Operators
// ---------------------------------------------------------------------------

/// The source operator stands directly before the operand, in brackets; where the
/// operand cannot be rendered, its fault is told.
pub proof fn law_unary(ctx: model::Ctx, e: Spanned<Expr>)
    requires
        e.node is UnaryExpr,
    ensures
        e.node matches Expr::UnaryExpr { op, value } && (match exprs::expr_c(ctx, *value) {
            Ok(o) => exprs::expr_c(ctx, e) == code("("@ + op@ + o.text + ")"@, o.tls),
            Err(f) => exprs::expr_c(ctx, e) == Err::<model::Code, error::Fault>(f),
        }),
{
}

/// An assignment is a C assignment, so that the target holds the value afterwards;
/// the target's fault goes before that of the value.
pub proof fn law_assignment(ctx: model::Ctx, e: Spanned<Expr>)
    requires
        e.node is AssignmentExpr,
    ensures
        e.node matches Expr::AssignmentExpr { target, value } && (match (
            exprs::expr_c(ctx, *target),
            exprs::expr_c(ctx, *value),
        ) {
            (Ok(t), Ok(v)) => exprs::expr_c(ctx, e) == code(
                "("@ + t.text + " = "@ + v.text + ")"@,
                t.tls || v.tls,
            ),
            (Err(f), _) => exprs::expr_c(ctx, e) == Err::<model::Code, error::Fault>(f),
            (Ok(_), Err(f)) => exprs::expr_c(ctx, e) == Err::<model::Code, error::Fault>(f),
        }),
{
}

/// What a string is: an expression whose recorded type says so.
pub proof fn law_strings_are_told_by_type(ctx: model::Ctx, e: Spanned<Expr>)
    ensures
        exprs::holds_string(ctx, e) <==> is_string(ctx, e),
{
}

/// Each binary operator. With a string among the operands `+` concatenates, `*`
/// repeats the string and a comparison compares contents; any other operator, and
/// each of them without a string, is that of C between its operands.
pub proof fn law_binary(ctx: model::Ctx, e: Spanned<Expr>)
    requires
        e.node is BinaryExpr,
    ensures
        e.node matches Expr::BinaryExpr { op, left, right } && (match (
            exprs::expr_c(ctx, *left),
            exprs::expr_c(ctx, *right),
        ) {
            (Ok(l), Ok(r)) => {
                let tls = l.tls || r.tls;
                let strings = is_string(ctx, *left) || is_string(ctx, *right);
                if strings && op@ == "+"@ {
                    exprs::expr_c(ctx, e) == code(
                        "__xlang_str_concat("@ + l.text + ", "@ + r.text + ")"@,
                        tls,
                    )
                } else if is_string(ctx, *left) && op@ == "*"@ {
                    exprs::expr_c(ctx, e) == code(
                        "__xlang_str_repeat("@ + l.text + ", "@ + r.text + ")"@,
                        tls,
                    )
                } else if is_string(ctx, *right) && op@ == "*"@ {
                    exprs::expr_c(ctx, e) == code(
                        "__xlang_str_repeat("@ + r.text + ", "@ + l.text + ")"@,
                        tls,
                    )
                } else if strings && (op@ == "<"@ || op@ == "<="@ || op@ == ">"@ || op@ == ">="@
                    || op@ == "=="@ || op@ == "!="@) {
                    exprs::expr_c(ctx, e) == code(
                        "(strcmp("@ + l.text + ", "@ + r.text + ") "@ + op@ + " 0)"@,
                        tls,
                    )
                } else {
                    exprs::expr_c(ctx, e) == code(
                        "("@ + l.text + " "@ + op@ + " "@ + r.text + ")"@,
                        tls,
                    )
                }
            },
            (Err(f), Err(g)) => exprs::expr_c(ctx, e) == Err::<model::Code, error::Fault>(f)
                || exprs::expr_c(ctx, e) == Err::<model::Code, error::Fault>(g),
            (Err(f), Ok(_)) => exprs::expr_c(ctx, e) == Err::<model::Code, error::Fault>(f),
            (Ok(_), Err(f)) => exprs::expr_c(ctx, e) == Err::<model::Code, error::Fault>(f),
        }),
{
    assert(exprs::expr_c(ctx, e) == exprs::binary_c(ctx, e));
    if let Expr::BinaryExpr { op, left, right } = e.node {
        law_strings_are_told_by_type(ctx, *left);
        law_strings_are_told_by_type(ctx, *right);
        reveal_strlit("+");
        reveal_strlit("*");
        reveal_strlit("<");
        reveal_strlit("<=");
        reveal_strlit(">");
        reveal_strlit(">=");
        reveal_strlit("==");
        reveal_strlit("!=");
        assert("+"@[0] == '+' && "*"@[0] == '*');
        if let Ok(l) = exprs::expr_c(ctx, *left) {
            if let Ok(r) = exprs::expr_c(ctx, *right) {
                let o = op@;
                assert("("@ + l.text + (" "@ + o + " "@) + r.text + ")"@ =~= "("@ + l.text + " "@ + o
                    + " "@ + r.text + ")"@);
                assert("(strcmp("@ + l.text + ", "@ + r.text + (") "@ + o + " 0)"@) =~= "(strcmp("@
                    + l.text + ", "@ + r.text + ") "@ + o + " 0)"@);
            }
        }
    }
}

/// Where both operands are at fault the left one's fault is told, unless a string
/// on the right is repeated.
pub proof fn law_left_fault_first(ctx: model::Ctx, e: Spanned<Expr>)
    requires
        e.node matches Expr::BinaryExpr { op, left, right } && exprs::expr_c(ctx, *left) is Err
            && (op@ == "*"@ && is_string(ctx, *right) ==> is_string(ctx, *left)),
    ensures
        e.node matches Expr::BinaryExpr { op, left, right } && exprs::expr_c(ctx, e)
            == exprs::expr_c(ctx, *left),
{
    assert(exprs::expr_c(ctx, e) == exprs::binary_c(ctx, e));
    if let Expr::BinaryExpr { op, left, right } = e.node {
        law_strings_are_told_by_type(ctx, *left);
        law_strings_are_told_by_type(ctx, *right);
    }
}

// ---------------------------------------------------------------------------
// Literals and names
// ---------------------------------------------------------------------------

/// Numbers are written as they stand in the source, truth values by their names,
/// and a string as JSON has it but for the escape character.
pub proof fn law_literals(ctx: model::Ctx, e: Spanned<Expr>)
    ensures
        e.node matches Expr::IntLiteral { value } ==> exprs::expr_c(ctx, e) == code(value@, false),
        e.node matches Expr::FloatLiteral { value } ==> exprs::expr_c(ctx, e) == code(value@, false),
        e.node matches Expr::BoolLiteral { value } ==> exprs::expr_c(ctx, e) == code(
            if value {
                "true"@
            } else {
                "false"@
            },
            false,
        ),
        e.node matches Expr::StringLiteral { value } ==> exprs::expr_c(ctx, e) == code(
            text::replaced(json::string_text(value@), "\\u001b"@, "\\x1b"@),
            false,
        ),
{
}

/// A name stands for itself unless it is that of a variant, or `self` behind a
/// pointer.
pub proof fn law_names(ctx: model::Ctx, e: Spanned<Expr>)
    requires
        e.node is Identifier,
    ensures
        e.node matches Expr::Identifier { name } && ({
            let number = text::dec_int(ctx.decls.values[name@] as int);
            let owner = ctx.decls.owners[name@];
            if ctx.mut_self && name@ == "self"@ {
                exprs::expr_c(ctx, e) == code("(*self)"@, false)
            } else if !ctx.decls.values.dom().contains(name@) {
                exprs::expr_c(ctx, e) == code(name@, false)
            } else if ctx.decls.owners.dom().contains(name@) && ctx.decls.payloads.dom().contains(
                owner,
            ) && (exists|i: int|
                0 <= i < ctx.decls.payloads[owner].len() && (
                #[trigger] ctx.decls.payloads[owner][i]) is Some) {
                exprs::expr_c(ctx, e) == code("("@ + owner + "){ .tag = "@ + number + " }"@, false)
            } else {
                exprs::expr_c(ctx, e) == code(number, false)
            }
        }),
{
}

/// Some expressions have no C where they stand: an array literal outside of a
/// declaration, and a range outside of a loop.
pub proof fn law_no_such_value(ctx: model::Ctx, e: Spanned<Expr>)
    ensures
        e.node is ArrayLiteral ==> exprs::expr_c(ctx, e) == Err::<model::Code, error::Fault>(
            error::Fault::Codegen(
                "array literals are only supported in typed Array<T, N> let initializers"@,
            ),
        ),
        e.node is RangeExpr ==> exprs::expr_c(ctx, e) == Err::<model::Code, error::Fault>(
            error::Fault::Codegen(
                "range expressions (a..b) are only supported as the iterable of a `for` loop"@,
            ),
        ),
{
}

// ---------------------------------------------------------------------------
// Parts of values
// ---------------------------------------------------------------------------

/// A field is read behind a dot.
pub proof fn law_field(ctx: model::Ctx, e: Spanned<Expr>)
    requires
        e.node is FieldAccessExpr,
    ensures
        e.node matches Expr::FieldAccessExpr { object, field } && (match exprs::expr_c(ctx, *object) {
            Ok(o) => exprs::expr_c(ctx, e) == code(o.text + "."@ + field@, o.tls),
            Err(f) => exprs::expr_c(ctx, e) == Err::<model::Code, error::Fault>(f),
        }),
{
    if let Expr::FieldAccessExpr { object, field } = e.node {
        if let Ok(o) = exprs::expr_c(ctx, *object) {
            reveal_strlit("");
            assert(""@ + o.text + ("."@ + field@) =~= o.text + "."@ + field@);
        }
    }
}

/// An index into a string gives a byte as a number; one into a collection reads its
/// data. The fault of the index goes first.
pub proof fn law_index(ctx: model::Ctx, e: Spanned<Expr>)
    requires
        e.node is IndexExpr,
    ensures
        e.node matches Expr::IndexExpr { object, index } && (match (
            exprs::expr_c(ctx, *index),
            exprs::expr_c(ctx, *object),
        ) {
            (Ok(i), Ok(o)) => exprs::expr_c(ctx, e) == code(
                if is_string(ctx, *object) {
                    "((int32_t)(unsigned char)"@ + o.text + "["@ + i.text + "])"@
                } else {
                    o.text + ".data["@ + i.text + "]"@
                },
                o.tls || i.tls,
            ),
            (Err(f), _) => exprs::expr_c(ctx, e) == Err::<model::Code, error::Fault>(f),
            (Ok(_), Err(f)) => exprs::expr_c(ctx, e) == Err::<model::Code, error::Fault>(f),
        }),
{
    assert(exprs::expr_c(ctx, e) == exprs::index_c(ctx, e));
    if let Expr::IndexExpr { object, index } = e.node {
        law_strings_are_told_by_type(ctx, *object);
        if let Ok(i) = exprs::expr_c(ctx, *index) {
            if let Ok(o) = exprs::expr_c(ctx, *object) {
                reveal_strlit("");
                assert(""@ + o.text + (".data["@ + i.text + "]"@) =~= o.text + ".data["@ + i.text
                    + "]"@);
                assert("((int32_t)(unsigned char)"@ + o.text + ("["@ + i.text + "])"@)
                    =~= "((int32_t)(unsigned char)"@ + o.text + "["@ + i.text + "])"@);
            }
        }
    }
}

// ---------------------------------------------------------------------------
// Lists of expressions
// ---------------------------------------------------------------------------

/// A list of expressions is rendered member by member: all of them can be rendered
/// or the fault of the first that cannot is told.
pub proof fn law_each_expression(ctx: model::Ctx, es: Seq<Spanned<Expr>>, n: int)
    requires
        0 <= n <= es.len(),
    ensures
        match exprs::exprs_c(ctx, es, n) {
            Ok(cs) => cs.len() == n && forall|k: int|
                0 <= k < n ==> exprs::expr_c(ctx, es[k]) == Ok::<model::Code, error::Fault>(
                    #[trigger] cs[k],
                ),
            Err(f) => exists|k: int|
                0 <= k < n && #[trigger] exprs::expr_c(ctx, es[k]) == Err::<
                    model::Code,
                    error::Fault,
                >(f) && (forall|j: int|
                    0 <= j < k ==> #[trigger] exprs::expr_c(ctx, es[j]) is Ok),
        },
    decreases n,
{
    if n > 0 {
        law_each_expression(ctx, es, n - 1);
        if let Ok(cs) = exprs::exprs_c(ctx, es, n - 1) {
            assert forall|j: int| 0 <= j < n - 1 implies #[trigger] exprs::expr_c(ctx, es[j]) is Ok by {
                assert(exprs::expr_c(ctx, es[j]) == Ok::<model::Code, error::Fault>(cs[j]));
            }
            if let Err(f) = exprs::expr_c(ctx, es[n - 1]) {
                assert(exprs::expr_c(ctx, es[n - 1]) == Err::<model::Code, error::Fault>(f));
            }
        }
    }
}

/// The texts of a list of code are those of its members, and a TLS builtin is called
/// in the list where one is called in a member.
pub proof fn law_code_lists(cs: Seq<model::Code>)
    ensures
        exprs::code_texts(cs).len() == cs.len(),
        forall|k: int| 0 <= k < cs.len() ==> #[trigger] exprs::code_texts(cs)[k] == cs[k].text,
        exprs::any_tls(cs) <==> exists|k: int| 0 <= k < cs.len() && (#[trigger] cs[k]).tls,
{
}

// ---------------------------------------------------------------------------
// Struct literals and constructors
// ---------------------------------------------------------------------------

/// The value of a field, as one of the declared type of the field.
pub open spec fn field_value(ctx: model::Ctx, owner: Seq<char>, f: ast::FieldInit) -> model::Outcome<
    model::Code,
> {
    exprs::typed_c(ctx, exprs::declared_field(ctx.decls, owner, f.name@), f.value)
}

/// The members of a struct literal: the `k`-th one sets the field of the `k`-th name
/// to the `k`-th value. The fault of the first value that cannot be rendered is told.
pub proof fn law_each_field(
    ctx: model::Ctx,
    owner: Seq<char>,
    fields: Seq<ast::FieldInit>,
    n: int,
)
    requires
        0 <= n <= fields.len(),
    ensures
        match exprs::inits_c(ctx, owner, fields, n) {
            Ok(cs) => cs.len() == n && forall|k: int|
                0 <= k < n ==> (field_value(ctx, owner, fields[k]) matches Ok(v) && (
                #[trigger] cs[k]).text == "."@ + fields[k].name@ + " = "@ + v.text && cs[k].tls
                    == v.tls),
            Err(f) => exists|k: int|
                0 <= k < n && #[trigger] field_value(ctx, owner, fields[k]) == Err::<
                    model::Code,
                    error::Fault,
                >(f) && (forall|j: int|
                    0 <= j < k ==> #[trigger] field_value(ctx, owner, fields[j]) is Ok),
        },
    decreases n,
{
    if n > 0 {
        law_each_field(ctx, owner, fields, n - 1);
        let f = fields[n - 1];
        if let Ok(cs) = exprs::inits_c(ctx, owner, fields, n - 1) {
            assert forall|j: int| 0 <= j < n - 1 implies #[trigger] field_value(
                ctx,
                owner,
                fields[j],
            ) is Ok by {
                assert(cs[j].text == cs[j].text);
            }
            match field_value(ctx, owner, f) {
                Ok(v) => {
                    reveal_strlit("");
                    assert("."@ + f.name@ + " = "@ + v.text + ""@ =~= "."@ + f.name@ + " = "@ + v.text);
                },
                Err(g) => {
                    assert(field_value(ctx, owner, fields[n - 1]) == Err::<model::Code, error::Fault>(
                        g,
                    ));
                },
            }
        }
    }
}

/// A struct literal is a C compound literal of the struct, with its members between
/// braces and commas between them.
pub proof fn law_struct_literal(ctx: model::Ctx, e: Spanned<Expr>)
    requires
        e.node is StructLiteral,
    ensures
        e.node matches Expr::StructLiteral { name, fields } && ({
            let owner = model::owner_name(ctx.decls, name@);
            match exprs::inits_c(ctx, owner, fields@, fields@.len() as int) {
                Ok(cs) => exprs::expr_c(ctx, e) == code(
                    "("@ + owner + "){ "@ + text::joined(exprs::code_texts(cs), ", "@) + " }"@,
                    exprs::any_tls(cs),
                ),
                Err(f) => exprs::expr_c(ctx, e) == Err::<model::Code, error::Fault>(f),
            }
        }),
{
}

/// The declared type of a field is that of the first field of the name.
pub proof fn law_declared_field(d: model::Decls, owner: Seq<char>, name: Seq<char>, k: int)
    requires
        d.fields.dom().contains(owner),
        0 <= k <= d.fields[owner].len(),
        forall|j: int| 0 <= j < k ==> (#[trigger] d.fields[owner][j]).0 != name,
    ensures
        k < d.fields[owner].len() && d.fields[owner][k].0 == name ==> exprs::declared_field(
            d,
            owner,
            name,
        ) == Some(d.fields[owner][k].1),
        k == d.fields[owner].len() ==> exprs::declared_field(d, owner, name) is None,
{
    lemma_first_field(d.fields[owner], name, 0, k);
}

proof fn lemma_first_field(fields: Seq<(Seq<char>, ast::Type)>, name: Seq<char>, i: int, k: int)
    requires
        0 <= i <= k <= fields.len(),
        forall|j: int| i <= j < k ==> (#[trigger] fields[j]).0 != name,
    ensures
        exprs::field_type(fields, name, i) == exprs::field_type(fields, name, k),
    decreases k - i,
{
    if i < k {
        assert(fields[i].0 != name);
        lemma_first_field(fields, name, i + 1, k);
    }
}

/// A type that is not declared has no fields.
pub proof fn law_no_fields(d: model::Decls, owner: Seq<char>, name: Seq<char>)
    requires
        !d.fields.dom().contains(owner),
    ensures
        exprs::declared_field(d, owner, name) is None,
{
}

/// Whether a value is a call of this name with so many arguments.
pub open spec fn calls(value: Spanned<Expr>, name: Seq<char>, n: nat) -> bool {
    value.node matches Expr::CallExpr { callee, args } && (callee.node matches Expr::Identifier {
        name: m,
    } && m@ == name && args@.len() == n)
}

/// Whether a type is this one with so many arguments, once its aliases are replaced.
pub open spec fn stands_for(ctx: model::Ctx, ty: ast::Type, name: Seq<char>, n: nat) -> bool {
    aliases::meant(ctx.decls.aliases, ty) matches ast::Type::Named { name: m, args } && m == name
        && args.len() == n
}

/// The constructors of options, results and vectors, where a value of such a type is
/// wanted.
pub proof fn law_constructors(ctx: model::Ctx, ty: ast::Type, value: Spanned<Expr>, c: Seq<char>)
    requires
        model::type_c(ctx.decls, ty) == Ok::<Seq<char>, error::Fault>(c),
    ensures
        stands_for(ctx, ty, "Option"@, 1) && (value.node matches Expr::Identifier { name } && name@
            == "None"@) ==> exprs::typed_c(ctx, Some(ty), value) == code(
            "("@ + c + "){ .some = false }"@,
            false,
        ),
        stands_for(ctx, ty, "Option"@, 1) && calls(value, "Some"@, 1) ==> (match exprs::expr_c(
            ctx,
            value.node->args@[0],
        ) {
            Ok(v) => exprs::typed_c(ctx, Some(ty), value) == code(
                "("@ + c + "){ .some = true, .value = "@ + v.text + " }"@,
                v.tls,
            ),
            Err(f) => exprs::typed_c(ctx, Some(ty), value) == Err::<model::Code, error::Fault>(f),
        }),
        stands_for(ctx, ty, "Result"@, 2) && calls(value, "Ok"@, 1) ==> (match exprs::expr_c(
            ctx,
            value.node->args@[0],
        ) {
            Ok(v) => exprs::typed_c(ctx, Some(ty), value) == code(
                "("@ + c + "){ .ok = true, .value = "@ + v.text + " }"@,
                v.tls,
            ),
            Err(f) => exprs::typed_c(ctx, Some(ty), value) == Err::<model::Code, error::Fault>(f),
        }),
        stands_for(ctx, ty, "Result"@, 2) && calls(value, "Err"@, 1) ==> (match exprs::expr_c(
            ctx,
            value.node->args@[0],
        ) {
            Ok(v) => exprs::typed_c(ctx, Some(ty), value) == code(
                "("@ + c + "){ .ok = false, .error = "@ + v.text + " }"@,
                v.tls,
            ),
            Err(f) => exprs::typed_c(ctx, Some(ty), value) == Err::<model::Code, error::Fault>(f),
        }),
        stands_for(ctx, ty, "Vec"@, 1) && calls(value, "vec_new"@, 0) ==> exprs::typed_c(
            ctx,
            Some(ty),
            value,
        ) == code("("@ + c + "){ .data = 0, .len = 0, .cap = 0 }"@, false),
{
    reveal_strlit("Option");
    reveal_strlit("Result");
    reveal_strlit("Vec");
    reveal_strlit("Ok");
    reveal_strlit("Err");
    assert("Option"@.len() == 6 && "Result"@.len() == 6 && "Option"@[0] == 'O' && "Result"@[0] == 'R');
    assert("Ok"@.len() == 2 && "Err"@.len() == 3 && "Vec"@.len() == 3);
}

/// Any other value is rendered as it is without a wanted type. Where the wanted type
/// has no C, its fault is told.
pub proof fn law_other_values(ctx: model::Ctx, ty: ast::Type, value: Spanned<Expr>)
    ensures
        exprs::typed_c(ctx, None, value) == exprs::expr_c(ctx, value),
        aliases::meant(ctx.decls.aliases, ty) is Const ==> exprs::typed_c(ctx, Some(ty), value)
            == exprs::expr_c(ctx, value),
        aliases::meant(ctx.decls.aliases, ty) is Named ==> (match model::type_c(ctx.decls, ty) {
            Err(f) => exprs::typed_c(ctx, Some(ty), value) == Err::<model::Code, error::Fault>(f),
            Ok(_) => {
                ||| stands_for(ctx, ty, "Option"@, 1) && (value.node matches Expr::Identifier { name }
                    && name@ == "None"@)
                ||| stands_for(ctx, ty, "Option"@, 1) && calls(value, "Some"@, 1)
                ||| stands_for(ctx, ty, "Result"@, 2) && calls(value, "Ok"@, 1)
                ||| stands_for(ctx, ty, "Result"@, 2) && calls(value, "Err"@, 1)
                ||| stands_for(ctx, ty, "Vec"@, 1) && calls(value, "vec_new"@, 0)
                ||| exprs::typed_c(ctx, Some(ty), value) == exprs::expr_c(ctx, value)
            },
        }),
{
}

// ---------------------------------------------------------------------------
// Receivers
// ---------------------------------------------------------------------------

/// The type of a receiver: that of the variable of the name, where it is a name, and
/// the recorded type otherwise; in both cases what it stands for.
pub proof fn law_receivers(ctx: model::Ctx, object: Spanned<Expr>)
    ensures
        match object.node {
            Expr::Identifier { name } => match scopes::found(ctx.vars, name@) {
                Some(t) => exprs::receiver_type(ctx, object) == Some(
                    aliases::meant(ctx.decls.aliases, t),
                ),
                None => exprs::receiver_type(ctx, object) is None,
            },
            _ => if ctx.decls.types.dom().contains(object.span) {
                exprs::receiver_type(ctx, object) == Some(
                    aliases::meant(ctx.decls.aliases, ctx.decls.types[object.span]),
                )
            } else {
                exprs::receiver_type(ctx, object) is None
            },
        },
{
}

} // verus!
