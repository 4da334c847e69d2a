//! The generator: what collecting the definitions of a type brings about.

use vstd::prelude::*;

use crate::ast;
use crate::codegen::model;
use crate::codegen::typedefs;
use crate::codegen::typedefs::Defs;
use crate::error;
use crate::laws::typedefs as tables;
use crate::text;

verus! {

/// Whether a table has a definition of this name.
pub open spec fn has(t: Defs, name: Seq<char>) -> bool {
    exists|k: int| 0 <= k < t.len() && (#[trigger] t[k]).0 == name
}

/// Whether every name of `t` is in `u`.
pub open spec fn within(t: Defs, u: Defs) -> bool {
    forall|name: Seq<char>| has(t, name) ==> #[trigger] has(u, name)
}

/// Whether a vector type and its helpers are defined.
pub open spec fn vec_there(t: Defs, alias: Seq<char>, suffix: Seq<char>) -> bool {
    &&& has(t, alias)
    &&& has(t, "__xlang_vec_push_"@ + suffix)
    &&& has(t, "__xlang_vec_pop_"@ + suffix)
    &&& has(t, "__xlang_vec_insert_"@ + suffix)
    &&& has(t, "__xlang_vec_remove_"@ + suffix)
    &&& suffix == "String"@ ==> has(t, "__xlang_str_split"@)
}

/// Whether what a type itself needs is defined: the struct of a built-in generic
/// type, and the helpers of a vector type.
pub open spec fn own_there(d: model::Decls, name: Seq<char>, args: Seq<ast::Type>, t: Defs) -> bool {
    let alias = model::type_c(d, ast::Type::Named { name, args });
    if name == "Slice"@ || name == "Array"@ || name == "Option"@ || name == "Result"@ {
        alias is Ok && has(t, alias->Ok_0)
    } else if name == "Vec"@ {
        alias is Ok && model::suffix_c(d, args[0]) is Ok && vec_there(
            t,
            alias->Ok_0,
            model::suffix_c(d, args[0])->Ok_0,
        )
    } else {
        true
    }
}

/// Whether what a type needs is defined, for itself and for every type in it.
pub open spec fn complete(d: model::Decls, ty: ast::Type, t: Defs) -> bool
    decreases ty, 0int,
{
    match ty {
        ast::Type::Const { .. } => true,
        ast::Type::Named { name, args } => args_complete(d, args, 0, t) && own_there(
            d,
            name,
            args,
            t,
        ),
    }
}

/// Whether what the types from the `i`-th on need is defined.
pub open spec fn args_complete(d: model::Decls, args: Seq<ast::Type>, i: int, t: Defs) -> bool
    decreases args, args.len() - i,
{
    i < 0 || i >= args.len() || (complete(d, args[i], t) && args_complete(d, args, i + 1, t))
}

pub(crate) proof fn lemma_put(t: Defs, key: Seq<char>, def: Seq<char>)
    ensures
        has(typedefs::put(t, key, def), key),
        within(t, typedefs::put(t, key, def)),
{
    tables::lemma_slot(t, key, 0);
    let k = typedefs::slot(t, key, 0);
    let u = typedefs::put(t, key, def);
    assert(u[k].0 == key);
    assert forall|name: Seq<char>| has(t, name) implies #[trigger] has(u, name) by {
        let i = choose|i: int| 0 <= i < t.len() && (#[trigger] t[i]).0 == name;
        if u == t || i < k {
            assert(u[i] == t[i]);
        } else {
            assert(u[i + 1] == t[i]);
        }
    }
}

/// Entering a name that is there changes nothing.
proof fn lemma_put_again(t: Defs, key: Seq<char>, def: Seq<char>)
    requires
        typedefs::rising(t),
        has(t, key),
    ensures
        typedefs::put(t, key, def) == t,
{
    tables::lemma_slot(t, key, 0);
    let s = typedefs::slot(t, key, 0);
    let k = choose|k: int| 0 <= k < t.len() && (#[trigger] t[k]).0 == key;
    text::law_order_strict(key, key, key);
    if k < s {
        assert(text::before(t[k].0, key));
    } else if s < k {
        assert(text::before(t[s].0, t[k].0));
    }
}

proof fn lemma_put_vec(t: Defs, alias: Seq<char>, elem: Seq<char>, suffix: Seq<char>)
    ensures
        vec_there(typedefs::put_vec(t, alias, elem, suffix), alias, suffix),
        within(t, typedefs::put_vec(t, alias, elem, suffix)),
        typedefs::rising(t) && vec_there(t, alias, suffix) ==> typedefs::put_vec(
            t,
            alias,
            elem,
            suffix,
        ) == t,
{
    let push = "__xlang_vec_push_"@ + suffix;
    let pop = "__xlang_vec_pop_"@ + suffix;
    let insert = "__xlang_vec_insert_"@ + suffix;
    let remove = "__xlang_vec_remove_"@ + suffix;
    let t1 = typedefs::put(t, alias, typedefs::vec_def(alias, elem));
    let t2 = typedefs::put(t1, push, typedefs::push_def(push, alias, elem));
    let t3 = typedefs::put(t2, pop, typedefs::pop_def(pop, alias, elem));
    let t4 = typedefs::put(t3, insert, typedefs::insert_def(insert, alias, elem));
    let t5 = typedefs::put(t4, remove, typedefs::remove_def(remove, alias, elem));
    lemma_put(t, alias, typedefs::vec_def(alias, elem));
    lemma_put(t1, push, typedefs::push_def(push, alias, elem));
    lemma_put(t2, pop, typedefs::pop_def(pop, alias, elem));
    lemma_put(t3, insert, typedefs::insert_def(insert, alias, elem));
    lemma_put(t4, remove, typedefs::remove_def(remove, alias, elem));
    lemma_put(t5, "__xlang_str_split"@, typedefs::SPLIT@);
    if typedefs::rising(t) && vec_there(t, alias, suffix) {
        lemma_put_again(t, alias, typedefs::vec_def(alias, elem));
        lemma_put_again(t, push, typedefs::push_def(push, alias, elem));
        lemma_put_again(t, pop, typedefs::pop_def(pop, alias, elem));
        lemma_put_again(t, insert, typedefs::insert_def(insert, alias, elem));
        lemma_put_again(t, remove, typedefs::remove_def(remove, alias, elem));
        if suffix == "String"@ {
            lemma_put_again(t, "__xlang_str_split"@, typedefs::SPLIT@);
        }
    }
}

proof fn lemma_own(d: model::Decls, name: Seq<char>, args: Seq<ast::Type>, t: Defs, u: Defs)
    requires
        typedefs::own_defs(d, name, args, t) is Ok,
    ensures
        typedefs::own_defs(d, name, args, u) is Ok,
        own_there(d, name, args, typedefs::own_defs(d, name, args, u)->Ok_0),
        within(u, typedefs::own_defs(d, name, args, u)->Ok_0),
        typedefs::rising(u) && own_there(d, name, args, u) ==> typedefs::own_defs(
            d,
            name,
            args,
            u,
        )->Ok_0 == u,
{
    let alias = model::type_c(d, ast::Type::Named { name, args });
    if alias is Ok {
        let a = alias->Ok_0;
        let def = if name == "Slice"@ {
            typedefs::slice_def(a, model::type_c(d, args[0])->Ok_0)
        } else if name == "Array"@ {
            typedefs::array_def(
                a,
                model::type_c(d, args[0])->Ok_0,
                model::const_arg(args[1], "Array length"@)->Ok_0,
            )
        } else if name == "Option"@ {
            typedefs::option_def(a, model::type_c(d, args[0])->Ok_0)
        } else {
            typedefs::result_def(
                a,
                model::type_c(d, args[0])->Ok_0,
                model::type_c(d, args[1])->Ok_0,
            )
        };
        lemma_put(u, a, def);
        if typedefs::rising(u) && has(u, a) {
            lemma_put_again(u, a, def);
        }
        lemma_put_vec(
            u,
            a,
            model::type_c(d, args[0])->Ok_0,
            model::suffix_c(d, args[0])->Ok_0,
        );
    }
}

pub(crate) proof fn lemma_complete_within(d: model::Decls, ty: ast::Type, t: Defs, u: Defs)
    requires
        within(t, u),
        complete(d, ty, t),
    ensures
        complete(d, ty, u),
    decreases ty, 0int,
{
    if let ast::Type::Named { name, args } = ty {
        lemma_args_within(d, args, 0, t, u);
    }
}

proof fn lemma_args_within(d: model::Decls, args: Seq<ast::Type>, i: int, t: Defs, u: Defs)
    requires
        within(t, u),
        args_complete(d, args, i, t),
    ensures
        args_complete(d, args, i, u),
    decreases args, args.len() - i,
{
    if 0 <= i < args.len() {
        lemma_complete_within(d, args[i], t, u);
        lemma_args_within(d, args, i + 1, t, u);
    }
}

/// Collecting a type defines all that it needs: the struct of every built-in
/// generic type in it has its entry, and the helpers of every vector type. What
/// was defined before still is.
pub proof fn law_collecting_completes(d: model::Decls, ty: ast::Type, t: Defs)
    requires
        typedefs::type_defs(d, ty, t) is Ok,
    ensures
        complete(d, ty, typedefs::type_defs(d, ty, t)->Ok_0),
        within(t, typedefs::type_defs(d, ty, t)->Ok_0),
    decreases ty, 0int,
{
    if let ast::Type::Named { name, args } = ty {
        lemma_args_complete(d, args, 0, t);
        let mid = typedefs::args_defs(d, args, 0, t)->Ok_0;
        lemma_own(d, name, args, mid, mid);
        lemma_args_within(d, args, 0, mid, typedefs::type_defs(d, ty, t)->Ok_0);
    }
}

proof fn lemma_args_complete(d: model::Decls, args: Seq<ast::Type>, i: int, t: Defs)
    requires
        typedefs::args_defs(d, args, i, t) is Ok,
    ensures
        args_complete(d, args, i, typedefs::args_defs(d, args, i, t)->Ok_0),
        within(t, typedefs::args_defs(d, args, i, t)->Ok_0),
    decreases args, args.len() - i,
{
    if 0 <= i < args.len() {
        law_collecting_completes(d, args[i], t);
        let next = typedefs::type_defs(d, args[i], t)->Ok_0;
        lemma_args_complete(d, args, i + 1, next);
        lemma_complete_within(d, args[i], next, typedefs::args_defs(d, args, i, t)->Ok_0);
    }
}

proof fn lemma_idle(d: model::Decls, ty: ast::Type, t: Defs, u: Defs)
    requires
        typedefs::type_defs(d, ty, t) is Ok,
        typedefs::rising(u),
        complete(d, ty, u),
    ensures
        typedefs::type_defs(d, ty, u) == Ok::<Defs, error::Fault>(u),
    decreases ty, 0int,
{
    if let ast::Type::Named { name, args } = ty {
        lemma_args_idle(d, args, 0, t, u);
        lemma_own(d, name, args, typedefs::args_defs(d, args, 0, t)->Ok_0, u);
    }
}

proof fn lemma_args_idle(d: model::Decls, args: Seq<ast::Type>, i: int, t: Defs, u: Defs)
    requires
        typedefs::args_defs(d, args, i, t) is Ok,
        typedefs::rising(u),
        args_complete(d, args, i, u),
    ensures
        typedefs::args_defs(d, args, i, u) == Ok::<Defs, error::Fault>(u),
    decreases args, args.len() - i,
{
    if 0 <= i < args.len() {
        lemma_idle(d, args[i], t, u);
        lemma_args_idle(d, args, i + 1, typedefs::type_defs(d, args[i], t)->Ok_0, u);
    }
}

/// Whether every definition of `t` is in `u`.
pub open spec fn carried(t: Defs, u: Defs) -> bool {
    forall|i: int| 0 <= i < t.len() ==> u.contains(#[trigger] t[i])
}

proof fn lemma_carried(t: Defs, u: Defs, v: Defs)
    requires
        carried(t, u),
        carried(u, v),
    ensures
        carried(t, v),
{
    assert forall|i: int| 0 <= i < t.len() implies v.contains(#[trigger] t[i]) by {
        let k = choose|k: int| 0 <= k < u.len() && u[k] == t[i];
        assert(v.contains(u[k]));
    }
}

proof fn lemma_put_carries(t: Defs, key: Seq<char>, def: Seq<char>)
    ensures
        carried(t, typedefs::put(t, key, def)),
{
    assert forall|i: int| 0 <= i < t.len() implies typedefs::put(t, key, def).contains(
        #[trigger] t[i],
    ) by {
        tables::law_put_keeps_entries(t, key, def, i);
    }
}

proof fn lemma_put_vec_carries(t: Defs, alias: Seq<char>, elem: Seq<char>, suffix: Seq<char>)
    ensures
        carried(t, typedefs::put_vec(t, alias, elem, suffix)),
{
    let push = "__xlang_vec_push_"@ + suffix;
    let pop = "__xlang_vec_pop_"@ + suffix;
    let insert = "__xlang_vec_insert_"@ + suffix;
    let remove = "__xlang_vec_remove_"@ + suffix;
    let t1 = typedefs::put(t, alias, typedefs::vec_def(alias, elem));
    let t2 = typedefs::put(t1, push, typedefs::push_def(push, alias, elem));
    let t3 = typedefs::put(t2, pop, typedefs::pop_def(pop, alias, elem));
    let t4 = typedefs::put(t3, insert, typedefs::insert_def(insert, alias, elem));
    let t5 = typedefs::put(t4, remove, typedefs::remove_def(remove, alias, elem));
    lemma_put_carries(t, alias, typedefs::vec_def(alias, elem));
    lemma_put_carries(t1, push, typedefs::push_def(push, alias, elem));
    lemma_put_carries(t2, pop, typedefs::pop_def(pop, alias, elem));
    lemma_put_carries(t3, insert, typedefs::insert_def(insert, alias, elem));
    lemma_put_carries(t4, remove, typedefs::remove_def(remove, alias, elem));
    lemma_put_carries(t5, "__xlang_str_split"@, typedefs::SPLIT@);
    lemma_carried(t, t1, t2);
    lemma_carried(t, t2, t3);
    lemma_carried(t, t3, t4);
    lemma_carried(t, t4, t5);
    lemma_carried(t, t5, typedefs::put(t5, "__xlang_str_split"@, typedefs::SPLIT@));
}

proof fn lemma_own_carries(d: model::Decls, name: Seq<char>, args: Seq<ast::Type>, t: Defs)
    ensures
        typedefs::own_defs(d, name, args, t) is Ok ==> carried(
            t,
            typedefs::own_defs(d, name, args, t)->Ok_0,
        ),
{
    let alias = model::type_c(d, ast::Type::Named { name, args });
    if alias is Ok {
        let a = alias->Ok_0;
        lemma_put_carries(t, a, typedefs::slice_def(a, model::type_c(d, args[0])->Ok_0));
        lemma_put_carries(
            t,
            a,
            typedefs::array_def(
                a,
                model::type_c(d, args[0])->Ok_0,
                model::const_arg(args[1], "Array length"@)->Ok_0,
            ),
        );
        lemma_put_carries(t, a, typedefs::option_def(a, model::type_c(d, args[0])->Ok_0));
        lemma_put_carries(
            t,
            a,
            typedefs::result_def(
                a,
                model::type_c(d, args[0])->Ok_0,
                model::type_c(d, args[1])->Ok_0,
            ),
        );
        lemma_put_vec_carries(
            t,
            a,
            model::type_c(d, args[0])->Ok_0,
            model::suffix_c(d, args[0])->Ok_0,
        );
    }
    assert(carried(t, t));
}

/// Nothing is overwritten: each definition that was there before a type is
/// collected is there afterwards.
pub proof fn law_entries_stay(d: model::Decls, ty: ast::Type, t: Defs)
    requires
        typedefs::type_defs(d, ty, t) is Ok,
    ensures
        carried(t, typedefs::type_defs(d, ty, t)->Ok_0),
    decreases ty, 0int,
{
    if let ast::Type::Named { name, args } = ty {
        lemma_args_stay(d, args, 0, t);
        let mid = typedefs::args_defs(d, args, 0, t)->Ok_0;
        lemma_own_carries(d, name, args, mid);
        lemma_carried(t, mid, typedefs::type_defs(d, ty, t)->Ok_0);
    }
}

proof fn lemma_args_stay(d: model::Decls, args: Seq<ast::Type>, i: int, t: Defs)
    requires
        typedefs::args_defs(d, args, i, t) is Ok,
    ensures
        carried(t, typedefs::args_defs(d, args, i, t)->Ok_0),
    decreases args, args.len() - i,
{
    if 0 <= i < args.len() {
        law_entries_stay(d, args[i], t);
        let next = typedefs::type_defs(d, args[i], t)->Ok_0;
        lemma_args_stay(d, args, i + 1, next);
        lemma_carried(t, next, typedefs::args_defs(d, args, i, t)->Ok_0);
    }
}

/// Collecting a type a second time changes nothing.
pub proof fn law_collecting_twice(d: model::Decls, ty: ast::Type, t: Defs)
    requires
        typedefs::rising(t),
        typedefs::type_defs(d, ty, t) is Ok,
    ensures
        ({
            let once = typedefs::type_defs(d, ty, t)->Ok_0;
            typedefs::rising(once) && typedefs::type_defs(d, ty, once) == Ok::<Defs, error::Fault>(
                once,
            )
        }),
{
    let once = typedefs::type_defs(d, ty, t)->Ok_0;
    law_collecting_completes(d, ty, t);
    tables::lemma_type(d, ty, t);
    lemma_idle(d, ty, t, once);
}

} // verus!
