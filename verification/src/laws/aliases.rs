//! Type aliases: what is left when they are replaced.

use vstd::prelude::*;

use crate::aliases;
use crate::ast;
use crate::ast::Expr;
use crate::codegen::exprs;
use crate::codegen::model;
use crate::source::Spanned;
use crate::values;

verus! {

/// Whether no alias stands in a type.
pub open spec fn bare(types: Map<Seq<char>, ast::Type>, t: ast::Type) -> bool
    decreases t,
{
    match t {
        ast::Type::Const { .. } => true,
        ast::Type::Named { name, args } => if args.len() == 0 {
            !types.dom().contains(name)
        } else {
            forall|i: int| 0 <= i < args.len() ==> bare(types, #[trigger] args[i])
        },
    }
}

/// Whether the aliases in a type all have a rank below `h`.
pub open spec fn below(
    types: Map<Seq<char>, ast::Type>,
    t: ast::Type,
    rank: spec_fn(Seq<char>) -> nat,
    h: nat,
) -> bool
    decreases t,
{
    match t {
        ast::Type::Const { .. } => true,
        ast::Type::Named { name, args } => if args.len() == 0 {
            types.dom().contains(name) ==> rank(name) < h
        } else {
            forall|i: int| 0 <= i < args.len() ==> below(types, #[trigger] args[i], rank, h)
        },
    }
}

/// A type without aliases stands for itself.
pub proof fn law_no_alias_no_change(types: Map<Seq<char>, ast::Type>, t: ast::Type, hops: nat)
    requires
        bare(types, t),
    ensures
        aliases::expanded(types, t, hops) == t,
    decreases t,
{
    if let ast::Type::Named { name, args } = t {
        if args.len() > 0 {
            assert forall|i: int| 0 <= i < args.len() implies aliases::expanded(
                types,
                #[trigger] args[i],
                hops,
            ) == args[i] by {
                law_no_alias_no_change(types, args[i], hops);
            }
            assert(aliases::expanded(types, t, hops)->args =~= args);
        }
    }
}

/// Aliases that do not go in a circle are all replaced: where each alias can be
/// given a rank above those of the aliases in its type, no alias is left.
pub proof fn law_aliases_are_replaced(
    types: Map<Seq<char>, ast::Type>,
    t: ast::Type,
    rank: spec_fn(Seq<char>) -> nat,
    hops: nat,
)
    requires
        forall|a: Seq<char>| #[trigger]
            types.dom().contains(a) ==> below(types, types[a], rank, rank(a)),
        below(types, t, rank, hops),
    ensures
        bare(types, aliases::expanded(types, t, hops)),
    decreases hops, t,
{
    if let ast::Type::Named { name, args } = t {
        if args.len() > 0 {
            let after = aliases::expanded(types, t, hops)->args;
            assert forall|i: int| 0 <= i < after.len() implies bare(types, #[trigger] after[i]) by {
                assert(below(types, args[i], rank, hops));
                law_aliases_are_replaced(types, args[i], rank, hops);
            }
        } else if types.dom().contains(name) {
            lemma_below(types, types[name], rank, rank(name), (hops - 1) as nat);
            law_aliases_are_replaced(types, types[name], rank, (hops - 1) as nat);
        }
    }
}

proof fn lemma_below(
    types: Map<Seq<char>, ast::Type>,
    t: ast::Type,
    rank: spec_fn(Seq<char>) -> nat,
    h: nat,
    k: nat,
)
    requires
        below(types, t, rank, h),
        h <= k,
    ensures
        below(types, t, rank, k),
    decreases t,
{
    if let ast::Type::Named { name, args } = t {
        if args.len() > 0 {
            assert forall|i: int| 0 <= i < args.len() implies below(
                types,
                #[trigger] args[i],
                rank,
                k,
            ) by {
                lemma_below(types, args[i], rank, h, k);
            }
        }
    }
}

/// An alias for a type without aliases is written in C as that type is.
pub proof fn law_alias_is_written_as_its_type(d: model::Decls, name: Seq<char>)
    requires
        d.aliases.hops > 0,
        d.aliases.types.dom().contains(name),
        bare(d.aliases.types, d.aliases.types[name]),
    ensures
        model::type_c(d, values::plain(name)) == model::type_c(d, d.aliases.types[name]),
        model::suffix_c(d, values::plain(name)) == model::suffix_c(d, d.aliases.types[name]),
{
    let t = d.aliases.types[name];
    law_no_alias_no_change(d.aliases.types, t, d.aliases.hops);
    law_no_alias_no_change(d.aliases.types, t, (d.aliases.hops - 1) as nat);
}

/// A struct literal is written the same under every name of the struct.
pub proof fn law_alias_names_a_struct_literal(ctx: model::Ctx, a: Spanned<Expr>, b: Spanned<Expr>)
    requires
        a.node matches Expr::StructLiteral { name: m, fields: v } && (
        b.node matches Expr::StructLiteral { name: n, fields: w } && v == w && model::owner_name(
            ctx.decls,
            m@,
        ) == model::owner_name(ctx.decls, n@)),
    ensures
        exprs::expr_c(ctx, a) == exprs::expr_c(ctx, b),
{
}

} // verus!
