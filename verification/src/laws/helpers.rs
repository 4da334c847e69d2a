//! The generator: every type that a program declares something with has its
//! definitions and helpers.

use vstd::prelude::*;

use crate::ast;
use crate::ast::{ElseBranch, EnumVariant, FieldDecl, Item, MatchArm, Param, Stmt};
use crate::codegen::model;
use crate::codegen::order;
use crate::codegen::typedefs;
use crate::codegen::typedefs::Defs;
use crate::laws::collected;
use crate::laws::typedefs as tables;
use crate::source::Spanned;

verus! {

// ---------------------------------------------------------------------------
// Where a type stands
// ---------------------------------------------------------------------------

/// Whether a type is `part`, or has it in its arguments.
pub open spec fn in_type(ty: ast::Type, part: ast::Type) -> bool
    decreases ty, 0int,
{
    ty == part || match ty {
        ast::Type::Named { args, .. } => in_args(args, 0, part),
        ast::Type::Const { .. } => false,
    }
}

/// Whether `part` stands in one of the types from the `i`-th on.
pub open spec fn in_args(args: Seq<ast::Type>, i: int, part: ast::Type) -> bool
    decreases args, args.len() - i,
{
    0 <= i < args.len() && (in_type(args[i], part) || in_args(args, i + 1, part))
}

/// Whether something is declared with the type in a statement.
pub open spec fn in_stmt(s: Spanned<Stmt>, part: ast::Type) -> bool
    decreases s, 0int,
{
    match s.node {
        Stmt::LetStmt { ty, .. } => in_type(ty@, part),
        Stmt::IfStmt { then_block, else_branch, .. } => in_stmts(then_block.statements@, 0, part)
            || match else_branch {
            Some(ElseBranch::Block(block)) => in_stmts(block.statements@, 0, part),
            Some(ElseBranch::IfStmt(inner)) => in_stmt(*inner, part),
            None => false,
        },
        Stmt::ForStmt { body, .. } => in_stmts(body.statements@, 0, part),
        Stmt::WhileStmt { body, .. } => in_stmts(body.statements@, 0, part),
        Stmt::MatchStmt { arms, .. } => in_arms(arms@, 0, part),
        _ => false,
    }
}

/// Whether something is declared with the type in one of the statements from the
/// `i`-th on.
pub open spec fn in_stmts(ss: Seq<Spanned<Stmt>>, i: int, part: ast::Type) -> bool
    decreases ss, ss.len() - i,
{
    0 <= i < ss.len() && (in_stmt(ss[i], part) || in_stmts(ss, i + 1, part))
}

/// Whether something is declared with the type in one of the arms from the `i`-th
/// on.
pub open spec fn in_arms(arms: Seq<MatchArm>, i: int, part: ast::Type) -> bool
    decreases arms, arms.len() - i,
{
    0 <= i < arms.len() && (in_stmts(arms[i].body.statements@, 0, part) || in_arms(
        arms,
        i + 1,
        part,
    ))
}

/// Whether one of the fields from the `i`-th on has the type.
pub open spec fn in_fields(fields: Seq<FieldDecl>, i: int, part: ast::Type) -> bool
    decreases fields.len() - i,
{
    0 <= i < fields.len() && (in_type(fields[i].ty@, part) || in_fields(fields, i + 1, part))
}

/// Whether one of the payloads from the `i`-th on has the type.
pub open spec fn in_payloads(variants: Seq<EnumVariant>, i: int, part: ast::Type) -> bool
    decreases variants.len() - i,
{
    0 <= i < variants.len() && ((variants[i].payload matches Some(ty) && in_type(ty@, part))
        || in_payloads(variants, i + 1, part))
}

/// Whether one of the parameters from the `i`-th on has the type.
pub open spec fn in_params(params: Seq<Param>, i: int, part: ast::Type) -> bool
    decreases params.len() - i,
{
    0 <= i < params.len() && (in_type(params[i].ty@, part) || in_params(params, i + 1, part))
}

/// Whether a function takes, gives back or declares something of the type.
pub open spec fn in_fn(item: Item, part: ast::Type) -> bool {
    match item {
        Item::FnDecl { params, return_type, body, .. } => in_type(return_type@, part)
            || in_params(params@, 0, part) || in_stmts(body.statements@, 0, part),
        _ => false,
    }
}

/// Whether one of the methods from the `i`-th on does.
pub open spec fn in_methods(methods: Seq<Spanned<Item>>, i: int, part: ast::Type) -> bool
    decreases methods.len() - i,
{
    0 <= i < methods.len() && (in_fn(methods[i].node, part) || in_methods(methods, i + 1, part))
}

/// Whether an item declares something with the type.
pub open spec fn in_item(item: Item, part: ast::Type) -> bool {
    match item {
        Item::StructDecl { fields, .. } => in_fields(fields@, 0, part),
        Item::TypeAliasDecl { ty, .. } => in_type(ty@, part),
        Item::EnumDecl { variants, .. } => in_payloads(variants@, 0, part),
        Item::FnDecl { .. } => in_fn(item, part),
        Item::ImplDecl { methods, .. } => in_methods(methods@, 0, part),
    }
}

/// Whether one of the items from the `i`-th on does.
pub open spec fn in_items(items: Seq<Spanned<Item>>, i: int, part: ast::Type) -> bool
    decreases items.len() - i,
{
    0 <= i < items.len() && (in_item(items[i].node, part) || in_items(items, i + 1, part))
}

// ---------------------------------------------------------------------------
// What is collected for it
// ---------------------------------------------------------------------------

/// Whether collecting turned `t` into `u` without losing a name, and with all that
/// the type needs where it `stands` in what was gone through.
spec fn served(d: model::Decls, part: ast::Type, stands: bool, t: Defs, u: Defs) -> bool {
    collected::within(t, u) && (stands ==> collected::complete(d, part, u))
}

proof fn lemma_then(
    d: model::Decls,
    part: ast::Type,
    a: bool,
    b: bool,
    t: Defs,
    u: Defs,
    v: Defs,
)
    requires
        served(d, part, a, t, u),
        served(d, part, b, u, v),
    ensures
        served(d, part, a || b, t, v),
{
    if a {
        collected::lemma_complete_within(d, part, u, v);
    }
    assert forall|name: Seq<char>| collected::has(t, name) implies #[trigger] collected::has(
        v,
        name,
    ) by {
        assert(collected::has(u, name));
    }
}

proof fn lemma_inner(d: model::Decls, ty: ast::Type, part: ast::Type, t: Defs)
    requires
        collected::complete(d, ty, t),
        in_type(ty, part),
    ensures
        collected::complete(d, part, t),
    decreases ty, 0int,
{
    if ty != part {
        if let ast::Type::Named { args, .. } = ty {
            lemma_inner_args(d, args, 0, part, t);
        }
    }
}

proof fn lemma_inner_args(d: model::Decls, args: Seq<ast::Type>, i: int, part: ast::Type, t: Defs)
    requires
        collected::args_complete(d, args, i, t),
        in_args(args, i, part),
    ensures
        collected::complete(d, part, t),
    decreases args, args.len() - i,
{
    if in_type(args[i], part) {
        lemma_inner(d, args[i], part, t);
    } else {
        lemma_inner_args(d, args, i + 1, part, t);
    }
}

proof fn lemma_type(d: model::Decls, ty: ast::Type, part: ast::Type, t: Defs)
    requires
        typedefs::type_defs(d, ty, t) is Ok,
    ensures
        served(d, part, in_type(ty, part), t, typedefs::type_defs(d, ty, t)->Ok_0),
{
    collected::law_collecting_completes(d, ty, t);
    if in_type(ty, part) {
        lemma_inner(d, ty, part, typedefs::type_defs(d, ty, t)->Ok_0);
    }
}

proof fn lemma_stmts(
    d: model::Decls,
    ss: Seq<Spanned<Stmt>>,
    i: int,
    part: ast::Type,
    t: Defs,
)
    requires
        typedefs::stmts_defs(d, ss, i, t) is Ok,
    ensures
        served(d, part, in_stmts(ss, i, part), t, typedefs::stmts_defs(d, ss, i, t)->Ok_0),
    decreases ss, ss.len() - i,
{
    if 0 <= i < ss.len() {
        lemma_stmt(d, ss[i], part, t);
        let u = typedefs::stmt_defs(d, ss[i], t)->Ok_0;
        lemma_stmts(d, ss, i + 1, part, u);
        let v = typedefs::stmts_defs(d, ss, i + 1, u)->Ok_0;
        lemma_then(d, part, in_stmt(ss[i], part), in_stmts(ss, i + 1, part), t, u, v);
    }
}

proof fn lemma_arms(d: model::Decls, arms: Seq<MatchArm>, i: int, part: ast::Type, t: Defs)
    requires
        typedefs::arms_defs(d, arms, i, t) is Ok,
    ensures
        served(d, part, in_arms(arms, i, part), t, typedefs::arms_defs(d, arms, i, t)->Ok_0),
    decreases arms, arms.len() - i,
{
    if 0 <= i < arms.len() {
        let ss = arms[i].body.statements@;
        lemma_stmts(d, ss, 0, part, t);
        let u = typedefs::stmts_defs(d, ss, 0, t)->Ok_0;
        lemma_arms(d, arms, i + 1, part, u);
        let v = typedefs::arms_defs(d, arms, i + 1, u)->Ok_0;
        lemma_then(d, part, in_stmts(ss, 0, part), in_arms(arms, i + 1, part), t, u, v);
    }
}

proof fn lemma_stmt(d: model::Decls, s: Spanned<Stmt>, part: ast::Type, t: Defs)
    requires
        typedefs::stmt_defs(d, s, t) is Ok,
    ensures
        served(d, part, in_stmt(s, part), t, typedefs::stmt_defs(d, s, t)->Ok_0),
    decreases s, 0int,
{
    match s.node {
        Stmt::LetStmt { ty, .. } => lemma_type(d, ty@, part, t),
        Stmt::IfStmt { then_block, else_branch, .. } => {
            let ss = then_block.statements@;
            lemma_stmts(d, ss, 0, part, t);
            let u = typedefs::stmts_defs(d, ss, 0, t)->Ok_0;
            match else_branch {
                Some(ElseBranch::Block(block)) => {
                    let rest = block.statements@;
                    lemma_stmts(d, rest, 0, part, u);
                    let v = typedefs::stmts_defs(d, rest, 0, u)->Ok_0;
                    lemma_then(d, part, in_stmts(ss, 0, part), in_stmts(rest, 0, part), t, u, v);
                },
                Some(ElseBranch::IfStmt(inner)) => {
                    lemma_stmt(d, *inner, part, u);
                    let v = typedefs::stmt_defs(d, *inner, u)->Ok_0;
                    lemma_then(d, part, in_stmts(ss, 0, part), in_stmt(*inner, part), t, u, v);
                },
                None => {},
            }
        },
        Stmt::ForStmt { body, .. } => lemma_stmts(d, body.statements@, 0, part, t),
        Stmt::WhileStmt { body, .. } => lemma_stmts(d, body.statements@, 0, part, t),
        Stmt::MatchStmt { arms, .. } => lemma_arms(d, arms@, 0, part, t),
        _ => {},
    }
}

proof fn lemma_fields(d: model::Decls, fields: Seq<FieldDecl>, i: int, part: ast::Type, t: Defs)
    requires
        typedefs::fields_defs(d, fields, i, t) is Ok,
    ensures
        served(d, part, in_fields(fields, i, part), t, typedefs::fields_defs(d, fields, i, t)->Ok_0),
    decreases fields.len() - i,
{
    if 0 <= i < fields.len() {
        lemma_type(d, fields[i].ty@, part, t);
        let u = typedefs::type_defs(d, fields[i].ty@, t)->Ok_0;
        lemma_fields(d, fields, i + 1, part, u);
        let v = typedefs::fields_defs(d, fields, i + 1, u)->Ok_0;
        lemma_then(d, part, in_type(fields[i].ty@, part), in_fields(fields, i + 1, part), t, u, v);
    }
}

proof fn lemma_payloads(
    d: model::Decls,
    variants: Seq<EnumVariant>,
    i: int,
    part: ast::Type,
    t: Defs,
)
    requires
        typedefs::payloads_defs(d, variants, i, t) is Ok,
    ensures
        served(
            d,
            part,
            in_payloads(variants, i, part),
            t,
            typedefs::payloads_defs(d, variants, i, t)->Ok_0,
        ),
    decreases variants.len() - i,
{
    if 0 <= i < variants.len() {
        match variants[i].payload {
            Some(ty) => {
                lemma_type(d, ty@, part, t);
                let u = typedefs::type_defs(d, ty@, t)->Ok_0;
                lemma_payloads(d, variants, i + 1, part, u);
                let v = typedefs::payloads_defs(d, variants, i + 1, u)->Ok_0;
                lemma_then(
                    d,
                    part,
                    in_type(ty@, part),
                    in_payloads(variants, i + 1, part),
                    t,
                    u,
                    v,
                );
            },
            None => lemma_payloads(d, variants, i + 1, part, t),
        }
    }
}

proof fn lemma_params(d: model::Decls, params: Seq<Param>, i: int, part: ast::Type, t: Defs)
    requires
        typedefs::params_defs(d, params, i, t) is Ok,
    ensures
        served(d, part, in_params(params, i, part), t, typedefs::params_defs(d, params, i, t)->Ok_0),
    decreases params.len() - i,
{
    if 0 <= i < params.len() {
        lemma_type(d, params[i].ty@, part, t);
        let u = typedefs::type_defs(d, params[i].ty@, t)->Ok_0;
        lemma_params(d, params, i + 1, part, u);
        let v = typedefs::params_defs(d, params, i + 1, u)->Ok_0;
        lemma_then(d, part, in_type(params[i].ty@, part), in_params(params, i + 1, part), t, u, v);
    }
}

proof fn lemma_fn(d: model::Decls, item: Item, part: ast::Type, t: Defs)
    requires
        typedefs::fn_defs(d, item, t) is Ok,
    ensures
        served(d, part, in_fn(item, part), t, typedefs::fn_defs(d, item, t)->Ok_0),
{
    if let Item::FnDecl { params, return_type, body, .. } = item {
        lemma_type(d, return_type@, part, t);
        let u = typedefs::type_defs(d, return_type@, t)->Ok_0;
        lemma_params(d, params@, 0, part, u);
        let v = typedefs::params_defs(d, params@, 0, u)->Ok_0;
        lemma_stmts(d, body.statements@, 0, part, v);
        let w = typedefs::stmts_defs(d, body.statements@, 0, v)->Ok_0;
        let a = in_type(return_type@, part);
        let b = in_params(params@, 0, part);
        lemma_then(d, part, a, b, t, u, v);
        lemma_then(d, part, a || b, in_stmts(body.statements@, 0, part), t, v, w);
    }
}

proof fn lemma_methods(
    d: model::Decls,
    methods: Seq<Spanned<Item>>,
    i: int,
    part: ast::Type,
    t: Defs,
)
    requires
        typedefs::methods_defs(d, methods, i, t) is Ok,
    ensures
        served(
            d,
            part,
            in_methods(methods, i, part),
            t,
            typedefs::methods_defs(d, methods, i, t)->Ok_0,
        ),
    decreases methods.len() - i,
{
    if 0 <= i < methods.len() {
        lemma_fn(d, methods[i].node, part, t);
        let u = typedefs::fn_defs(d, methods[i].node, t)->Ok_0;
        lemma_methods(d, methods, i + 1, part, u);
        let v = typedefs::methods_defs(d, methods, i + 1, u)->Ok_0;
        lemma_then(d, part, in_fn(methods[i].node, part), in_methods(methods, i + 1, part), t, u, v);
    }
}

/// An enum without payloads holds no type.
proof fn lemma_no_payload(variants: Seq<EnumVariant>, i: int, part: ast::Type)
    requires
        !typedefs::any_payload(variants),
    ensures
        !in_payloads(variants, i, part),
    decreases variants.len() - i,
{
    if 0 <= i < variants.len() {
        assert(variants[i].payload is None);
        lemma_no_payload(variants, i + 1, part);
    }
}

proof fn lemma_item(d: model::Decls, item: Item, part: ast::Type, t: Defs)
    requires
        typedefs::item_defs(d, item, t) is Ok,
    ensures
        served(d, part, in_item(item, part), t, typedefs::item_defs(d, item, t)->Ok_0),
{
    match item {
        Item::StructDecl { name, fields } => {
            lemma_fields(d, fields@, 0, part, t);
            let u = typedefs::fields_defs(d, fields@, 0, t)->Ok_0;
            let def = typedefs::struct_def(d, name@, fields@)->Ok_0;
            collected::lemma_put(u, name@, def);
            lemma_then(
                d,
                part,
                in_fields(fields@, 0, part),
                false,
                t,
                u,
                typedefs::put(u, name@, def),
            );
        },
        Item::TypeAliasDecl { ty, .. } => lemma_type(d, ty@, part, t),
        Item::EnumDecl { name, variants } => {
            if typedefs::any_payload(variants@) {
                lemma_payloads(d, variants@, 0, part, t);
                let u = typedefs::payloads_defs(d, variants@, 0, t)->Ok_0;
                let def = typedefs::enum_def(d, name@, variants@)->Ok_0;
                collected::lemma_put(u, name@, def);
                lemma_then(
                    d,
                    part,
                    in_payloads(variants@, 0, part),
                    false,
                    t,
                    u,
                    typedefs::put(u, name@, def),
                );
            } else {
                lemma_no_payload(variants@, 0, part);
            }
        },
        Item::FnDecl { .. } => lemma_fn(d, item, part, t),
        Item::ImplDecl { methods, .. } => lemma_methods(d, methods@, 0, part, t),
    }
}

proof fn lemma_items(
    d: model::Decls,
    items: Seq<Spanned<Item>>,
    i: int,
    part: ast::Type,
    t: Defs,
)
    requires
        typedefs::items_defs(d, items, i, t) is Ok,
    ensures
        served(d, part, in_items(items, i, part), t, typedefs::items_defs(d, items, i, t)->Ok_0),
    decreases items.len() - i,
{
    if 0 <= i < items.len() {
        lemma_item(d, items[i].node, part, t);
        let u = typedefs::item_defs(d, items[i].node, t)->Ok_0;
        lemma_items(d, items, i + 1, part, u);
        let v = typedefs::items_defs(d, items, i + 1, u)->Ok_0;
        lemma_then(d, part, in_item(items[i].node, part), in_items(items, i + 1, part), t, u, v);
    }
}

/// Every type that something in a program is declared with has all that it needs
/// among the definitions of the program.
pub proof fn law_declared_types_are_defined(
    d: model::Decls,
    items: Seq<Spanned<Item>>,
    part: ast::Type,
)
    requires
        typedefs::items_defs(d, items, 0, Seq::empty()) is Ok,
        in_items(items, 0, part),
    ensures
        collected::complete(d, part, typedefs::items_defs(d, items, 0, Seq::empty())->Ok_0),
{
    lemma_items(d, items, 0, part, Seq::empty());
}

/// The function that `str_split` becomes a call of is written for every program
/// that declares something with a vector of strings, such as what `str_split` gives.
pub proof fn law_split_is_defined(
    d: model::Decls,
    items: Seq<Spanned<Item>>,
    args: Seq<ast::Type>,
)
    requires
        typedefs::program_defs(d, items) is Ok,
        args.len() == 1,
        model::suffix_c(d, args[0]) is Ok,
        model::suffix_c(d, args[0])->Ok_0 == "String"@,
        in_items(items, 0, ast::Type::Named { name: "Vec"@, args }),
    ensures
        collected::has(
            order::arranged(typedefs::items_defs(d, items, 0, Seq::empty())->Ok_0),
            "__xlang_str_split"@,
        ),
{
    let t = typedefs::items_defs(d, items, 0, Seq::empty())->Ok_0;
    let part = ast::Type::Named { name: "Vec"@, args };
    law_declared_types_are_defined(d, items, part);
    let name = "__xlang_str_split"@;
    reveal_strlit("Vec");
    reveal_strlit("Slice");
    reveal_strlit("Array");
    reveal_strlit("Option");
    reveal_strlit("Result");
    assert("Vec"@.len() == 3);
    assert(collected::own_there(d, "Vec"@, args, t));
    assert(collected::has(t, name));
    let k = choose|k: int| 0 <= k < t.len() && (#[trigger] t[k]).0 == name;
    tables::law_order_is_complete(t);
    let u = order::arranged(t);
    t.to_multiset_ensures();
    u.to_multiset_ensures();
    assert(t.contains(t[k]));
    assert(t.to_multiset().count(t[k]) > 0);
    assert(u.contains(t[k]));
}

} // verus!
