//! The generator: which types are defined, and in which order.

use vstd::prelude::*;

use crate::ast;
use crate::ast::{ElseBranch, EnumVariant, FieldDecl, Item, MatchArm, Param, Stmt};
use crate::codegen::model;
use crate::codegen::order;
use crate::codegen::typedefs;
use crate::codegen::typedefs::Defs;
use crate::source::Spanned;
use crate::text;

verus! {

// ---------------------------------------------------------------------------
// The table
// ---------------------------------------------------------------------------

pub(crate) proof fn lemma_slot(t: Defs, key: Seq<char>, i: int)
    requires
        0 <= i <= t.len(),
    ensures
        i <= typedefs::slot(t, key, i) <= t.len(),
        forall|j: int|
            i <= j < typedefs::slot(t, key, i) ==> text::before((#[trigger] t[j]).0, key),
        typedefs::slot(t, key, i) < t.len() ==> !text::before(
            t[typedefs::slot(t, key, i)].0,
            key,
        ),
    decreases t.len() - i,
{
    if i < t.len() && text::before(t[i].0, key) {
        lemma_slot(t, key, i + 1);
    }
}

/// Entering a definition keeps the names in rising order, so that each stands
/// once.
pub proof fn law_put_keeps_order(t: Defs, key: Seq<char>, def: Seq<char>)
    requires
        typedefs::rising(t),
    ensures
        typedefs::rising(typedefs::put(t, key, def)),
{
    lemma_slot(t, key, 0);
    let k = typedefs::slot(t, key, 0);
    let u = typedefs::put(t, key, def);
    if !(k < t.len() && t[k].0 == key) {
        assert forall|i: int, j: int| 0 <= i < j < u.len() implies text::before(
            #[trigger] u[i].0,
            #[trigger] u[j].0,
        ) by {
            // Where the two stood before.
            let a = if i < k {
                i
            } else {
                i - 1
            };
            let b = if j < k {
                j
            } else {
                j - 1
            };
            if i == k {
                assert(u[i].0 == key && u[j] == t[b]);
                text::law_order_total(t[k].0, key);
                if b > k {
                    assert(text::before(t[k].0, t[b].0));
                    text::law_order_strict(key, t[k].0, t[b].0);
                }
            } else if j == k {
                assert(u[j].0 == key && u[i] == t[a]);
            } else {
                assert(u[i] == t[a] && u[j] == t[b]);
            }
        }
    }
}

/// A definition that is entered is there, and so are all that were: the first
/// definition of a name stays.
pub proof fn law_put_keeps_entries(t: Defs, key: Seq<char>, def: Seq<char>, i: int)
    requires
        0 <= i < t.len(),
    ensures
        typedefs::put(t, key, def).contains(t[i]),
        exists|k: int|
            0 <= k < typedefs::put(t, key, def).len() && (#[trigger] typedefs::put(
                t,
                key,
                def,
            )[k]).0 == key,
{
    lemma_slot(t, key, 0);
    let k = typedefs::slot(t, key, 0);
    let u = typedefs::put(t, key, def);
    assert(u[k].0 == key);
    if u == t {
        assert(u[i] == t[i]);
    } else if i < k {
        assert(u[i] == t[i]);
    } else {
        assert(u[i + 1] == t[i]);
    }
}

proof fn lemma_own(d: model::Decls, name: Seq<char>, args: Seq<ast::Type>, t: Defs)
    requires
        typedefs::rising(t),
    ensures
        typedefs::own_defs(d, name, args, t) is Ok ==> typedefs::rising(
            typedefs::own_defs(d, name, args, t)->Ok_0,
        ),
{
    let ty = ast::Type::Named { name, args };
    let alias = model::type_c(d, ty);
    if alias is Ok && typedefs::own_defs(d, name, args, t) is Ok {
        let a = alias->Ok_0;
        if name == "Slice"@ {
            law_put_keeps_order(
                t,
                a,
                typedefs::slice_def(a, model::type_c(d, args[0])->Ok_0),
            );
        } else if name == "Array"@ {
            law_put_keeps_order(
                t,
                a,
                typedefs::array_def(
                    a,
                    model::type_c(d, args[0])->Ok_0,
                    model::const_arg(args[1], "Array length"@)->Ok_0,
                ),
            );
        } else if name == "Option"@ {
            law_put_keeps_order(
                t,
                a,
                typedefs::option_def(a, model::type_c(d, args[0])->Ok_0),
            );
        } else if name == "Result"@ {
            law_put_keeps_order(
                t,
                a,
                typedefs::result_def(
                    a,
                    model::type_c(d, args[0])->Ok_0,
                    model::type_c(d, args[1])->Ok_0,
                ),
            );
        } else if name == "Vec"@ {
            let elem = model::type_c(d, args[0])->Ok_0;
            let suffix = model::suffix_c(d, args[0])->Ok_0;
            lemma_put_vec(t, a, elem, suffix);
        }
    }
}

proof fn lemma_put_vec(t: Defs, alias: Seq<char>, elem: Seq<char>, suffix: Seq<char>)
    requires
        typedefs::rising(t),
    ensures
        typedefs::rising(typedefs::put_vec(t, alias, elem, suffix)),
{
    let push = "__xlang_vec_push_"@ + suffix;
    let pop = "__xlang_vec_pop_"@ + suffix;
    let insert = "__xlang_vec_insert_"@ + suffix;
    let remove = "__xlang_vec_remove_"@ + suffix;
    let t1 = typedefs::put(t, alias, typedefs::vec_def(alias, elem));
    law_put_keeps_order(t, alias, typedefs::vec_def(alias, elem));
    let t2 = typedefs::put(t1, push, typedefs::push_def(push, alias, elem));
    law_put_keeps_order(t1, push, typedefs::push_def(push, alias, elem));
    let t3 = typedefs::put(t2, pop, typedefs::pop_def(pop, alias, elem));
    law_put_keeps_order(t2, pop, typedefs::pop_def(pop, alias, elem));
    let t4 = typedefs::put(t3, insert, typedefs::insert_def(insert, alias, elem));
    law_put_keeps_order(t3, insert, typedefs::insert_def(insert, alias, elem));
    let t5 = typedefs::put(t4, remove, typedefs::remove_def(remove, alias, elem));
    law_put_keeps_order(t4, remove, typedefs::remove_def(remove, alias, elem));
    law_put_keeps_order(t5, "__xlang_str_split"@, typedefs::SPLIT@);
}

pub(crate) proof fn lemma_type(d: model::Decls, ty: ast::Type, t: Defs)
    requires
        typedefs::rising(t),
    ensures
        typedefs::type_defs(d, ty, t) is Ok ==> typedefs::rising(
            typedefs::type_defs(d, ty, t)->Ok_0,
        ),
    decreases ty, 0int,
{
    if let ast::Type::Named { name, args } = ty {
        lemma_args(d, args, 0, t);
        if typedefs::args_defs(d, args, 0, t) is Ok {
            lemma_own(d, name, args, typedefs::args_defs(d, args, 0, t)->Ok_0);
        }
    }
}

proof fn lemma_args(d: model::Decls, args: Seq<ast::Type>, i: int, t: Defs)
    requires
        typedefs::rising(t),
    ensures
        typedefs::args_defs(d, args, i, t) is Ok ==> typedefs::rising(
            typedefs::args_defs(d, args, i, t)->Ok_0,
        ),
    decreases args, args.len() - i,
{
    if 0 <= i < args.len() {
        lemma_type(d, args[i], t);
        if typedefs::type_defs(d, args[i], t) is Ok {
            lemma_args(d, args, i + 1, typedefs::type_defs(d, args[i], t)->Ok_0);
        }
    }
}

proof fn lemma_stmts(d: model::Decls, ss: Seq<Spanned<Stmt>>, i: int, t: Defs)
    requires
        typedefs::rising(t),
    ensures
        typedefs::stmts_defs(d, ss, i, t) is Ok ==> typedefs::rising(
            typedefs::stmts_defs(d, ss, i, t)->Ok_0,
        ),
    decreases ss, ss.len() - i,
{
    if 0 <= i < ss.len() {
        lemma_stmt(d, ss[i], t);
        if typedefs::stmt_defs(d, ss[i], t) is Ok {
            lemma_stmts(d, ss, i + 1, typedefs::stmt_defs(d, ss[i], t)->Ok_0);
        }
    }
}

proof fn lemma_arms(d: model::Decls, arms: Seq<MatchArm>, i: int, t: Defs)
    requires
        typedefs::rising(t),
    ensures
        typedefs::arms_defs(d, arms, i, t) is Ok ==> typedefs::rising(
            typedefs::arms_defs(d, arms, i, t)->Ok_0,
        ),
    decreases arms, arms.len() - i,
{
    if 0 <= i < arms.len() {
        let ss = arms[i].body.statements@;
        lemma_stmts(d, ss, 0, t);
        if typedefs::stmts_defs(d, ss, 0, t) is Ok {
            lemma_arms(d, arms, i + 1, typedefs::stmts_defs(d, ss, 0, t)->Ok_0);
        }
    }
}

proof fn lemma_stmt(d: model::Decls, s: Spanned<Stmt>, t: Defs)
    requires
        typedefs::rising(t),
    ensures
        typedefs::stmt_defs(d, s, t) is Ok ==> typedefs::rising(
            typedefs::stmt_defs(d, s, t)->Ok_0,
        ),
    decreases s, 0int,
{
    match s.node {
        Stmt::LetStmt { ty, .. } => lemma_type(d, ty@, t),
        Stmt::IfStmt { then_block, else_branch, .. } => {
            lemma_stmts(d, then_block.statements@, 0, t);
            let first = typedefs::stmts_defs(d, then_block.statements@, 0, t);
            if first is Ok {
                match else_branch {
                    Some(ElseBranch::Block(block)) => {
                        lemma_stmts(d, block.statements@, 0, first->Ok_0);
                    },
                    Some(ElseBranch::IfStmt(inner)) => lemma_stmt(d, *inner, first->Ok_0),
                    None => {},
                }
            }
        },
        Stmt::ForStmt { body, .. } => lemma_stmts(d, body.statements@, 0, t),
        Stmt::WhileStmt { body, .. } => lemma_stmts(d, body.statements@, 0, t),
        Stmt::MatchStmt { arms, .. } => lemma_arms(d, arms@, 0, t),
        _ => {},
    }
}

proof fn lemma_fields(d: model::Decls, fields: Seq<FieldDecl>, i: int, t: Defs)
    requires
        typedefs::rising(t),
    ensures
        typedefs::fields_defs(d, fields, i, t) is Ok ==> typedefs::rising(
            typedefs::fields_defs(d, fields, i, t)->Ok_0,
        ),
    decreases fields.len() - i,
{
    if 0 <= i < fields.len() {
        lemma_type(d, fields[i].ty@, t);
        if typedefs::type_defs(d, fields[i].ty@, t) is Ok {
            lemma_fields(d, fields, i + 1, typedefs::type_defs(d, fields[i].ty@, t)->Ok_0);
        }
    }
}

proof fn lemma_payloads(d: model::Decls, variants: Seq<EnumVariant>, i: int, t: Defs)
    requires
        typedefs::rising(t),
    ensures
        typedefs::payloads_defs(d, variants, i, t) is Ok ==> typedefs::rising(
            typedefs::payloads_defs(d, variants, i, t)->Ok_0,
        ),
    decreases variants.len() - i,
{
    if 0 <= i < variants.len() {
        match variants[i].payload {
            Some(ty) => {
                lemma_type(d, ty@, t);
                if typedefs::type_defs(d, ty@, t) is Ok {
                    lemma_payloads(
                        d,
                        variants,
                        i + 1,
                        typedefs::type_defs(d, ty@, t)->Ok_0,
                    );
                }
            },
            None => lemma_payloads(d, variants, i + 1, t),
        }
    }
}

proof fn lemma_params(d: model::Decls, params: Seq<Param>, i: int, t: Defs)
    requires
        typedefs::rising(t),
    ensures
        typedefs::params_defs(d, params, i, t) is Ok ==> typedefs::rising(
            typedefs::params_defs(d, params, i, t)->Ok_0,
        ),
    decreases params.len() - i,
{
    if 0 <= i < params.len() {
        lemma_type(d, params[i].ty@, t);
        if typedefs::type_defs(d, params[i].ty@, t) is Ok {
            lemma_params(d, params, i + 1, typedefs::type_defs(d, params[i].ty@, t)->Ok_0);
        }
    }
}

proof fn lemma_fn(d: model::Decls, item: Item, t: Defs)
    requires
        typedefs::rising(t),
    ensures
        typedefs::fn_defs(d, item, t) is Ok ==> typedefs::rising(
            typedefs::fn_defs(d, item, t)->Ok_0,
        ),
{
    if let Item::FnDecl { params, return_type, body, .. } = item {
        lemma_type(d, return_type@, t);
        let first = typedefs::type_defs(d, return_type@, t);
        if first is Ok {
            lemma_params(d, params@, 0, first->Ok_0);
            let second = typedefs::params_defs(d, params@, 0, first->Ok_0);
            if second is Ok {
                lemma_stmts(d, body.statements@, 0, second->Ok_0);
            }
        }
    }
}

proof fn lemma_methods(d: model::Decls, methods: Seq<Spanned<Item>>, i: int, t: Defs)
    requires
        typedefs::rising(t),
    ensures
        typedefs::methods_defs(d, methods, i, t) is Ok ==> typedefs::rising(
            typedefs::methods_defs(d, methods, i, t)->Ok_0,
        ),
    decreases methods.len() - i,
{
    if 0 <= i < methods.len() {
        lemma_fn(d, methods[i].node, t);
        if typedefs::fn_defs(d, methods[i].node, t) is Ok {
            lemma_methods(d, methods, i + 1, typedefs::fn_defs(d, methods[i].node, t)->Ok_0);
        }
    }
}

proof fn lemma_item(d: model::Decls, item: Item, t: Defs)
    requires
        typedefs::rising(t),
    ensures
        typedefs::item_defs(d, item, t) is Ok ==> typedefs::rising(
            typedefs::item_defs(d, item, t)->Ok_0,
        ),
{
    match item {
        Item::StructDecl { name, fields } => {
            lemma_fields(d, fields@, 0, t);
            let first = typedefs::fields_defs(d, fields@, 0, t);
            let def = typedefs::struct_def(d, name@, fields@);
            if first is Ok && def is Ok {
                law_put_keeps_order(first->Ok_0, name@, def->Ok_0);
            }
        },
        Item::TypeAliasDecl { ty, .. } => lemma_type(d, ty@, t),
        Item::EnumDecl { name, variants } => {
            lemma_payloads(d, variants@, 0, t);
            let first = typedefs::payloads_defs(d, variants@, 0, t);
            let def = typedefs::enum_def(d, name@, variants@);
            if first is Ok && def is Ok {
                law_put_keeps_order(first->Ok_0, name@, def->Ok_0);
            }
        },
        Item::FnDecl { .. } => lemma_fn(d, item, t),
        Item::ImplDecl { methods, .. } => lemma_methods(d, methods@, 0, t),
    }
}

proof fn lemma_items(d: model::Decls, items: Seq<Spanned<Item>>, i: int, t: Defs)
    requires
        typedefs::rising(t),
    ensures
        typedefs::items_defs(d, items, i, t) is Ok ==> typedefs::rising(
            typedefs::items_defs(d, items, i, t)->Ok_0,
        ),
    decreases items.len() - i,
{
    if 0 <= i < items.len() {
        lemma_item(d, items[i].node, t);
        if typedefs::item_defs(d, items[i].node, t) is Ok {
            lemma_items(d, items, i + 1, typedefs::item_defs(d, items[i].node, t)->Ok_0);
        }
    }
}

/// No name is defined twice: the definitions that are collected for a program
/// have names in rising order.
pub proof fn law_collected_once(d: model::Decls, items: Seq<Spanned<Item>>)
    ensures
        typedefs::items_defs(d, items, 0, Seq::empty()) is Ok ==> typedefs::rising(
            typedefs::items_defs(d, items, 0, Seq::empty())->Ok_0,
        ),
{
    lemma_items(d, items, 0, Seq::empty());
}

// ---------------------------------------------------------------------------
// The order
// ---------------------------------------------------------------------------

/// What an ordering in progress holds, placed or not.
spec fn holdings(q: order::Queue) -> vstd::multiset::Multiset<(Seq<char>, Seq<char>)> {
    q.order.to_multiset().add(q.pending.to_multiset())
}

proof fn lemma_pass_holds(q: order::Queue, j: int)
    requires
        0 <= j,
    ensures
        holdings(order::pass(q, j)) == holdings(q),
        order::pass(q, j).pending.len() <= q.pending.len(),
    decreases q.pending.len() - j,
{
    if j < q.pending.len() {
        if order::blocked(q, j) {
            lemma_pass_holds(q, j + 1);
        } else {
            let next = order::place_one(q, j);
            lemma_pass_holds(next, j);
            let e = q.pending[j];
            q.order.to_multiset_ensures();
            q.pending.to_multiset_ensures();
            assert(q.pending.contains(e));
            assert(q.pending.to_multiset().count(e) > 0);
            assert(holdings(next) =~= holdings(q));
        }
    }
}

proof fn lemma_settled_holds(q: order::Queue)
    ensures
        holdings(order::settled(q)) == holdings(q),
    decreases q.pending.len(),
{
    if q.pending.len() > 0 {
        lemma_pass_holds(q, 0);
        if order::pass(q, 0).pending.len() < q.pending.len() {
            lemma_settled_holds(order::pass(q, 0));
        }
    }
}

proof fn lemma_in_order_holds(t: Defs, placed: Set<Seq<char>>)
    ensures
        order::in_order(
            order::Queue { pending: t, placed, order: Seq::empty() },
        ).to_multiset() == t.to_multiset(),
{
    let q = order::Queue { pending: t, placed, order: Seq::<(Seq<char>, Seq<char>)>::empty() };
    lemma_settled_holds(q);
    let s = order::settled(q);
    vstd::seq_lib::lemma_multiset_commutative(s.order, s.pending);
    q.order.to_multiset_ensures();
    assert(q.order.to_multiset() =~= vstd::multiset::Multiset::empty());
    assert(holdings(q) =~= t.to_multiset());
}

proof fn lemma_parts(t: Defs, n: int)
    requires
        0 <= n <= t.len(),
    ensures
        order::part_of(t, n, true).to_multiset().add(order::part_of(t, n, false).to_multiset())
            == t.take(n).to_multiset(),
    decreases n,
{
    let a = order::part_of(t, n, true);
    let b = order::part_of(t, n, false);
    if n == 0 {
        assert(t.take(0) =~= Seq::empty());
        t.take(0).to_multiset_ensures();
        assert(a.to_multiset().add(b.to_multiset()) =~= t.take(0).to_multiset());
    } else {
        let e = t[n - 1];
        lemma_parts(t, n - 1);
        assert(t.take(n) =~= t.take(n - 1).push(e));
        t.take(n - 1).to_multiset_ensures();
        let w = order::by_reference(e.0);
        let before = order::part_of(t, n - 1, w);
        before.to_multiset_ensures();
        assert(order::part_of(t, n, w) == before.push(e));
        assert(a.to_multiset().add(b.to_multiset()) =~= t.take(n).to_multiset());
    }
}

/// Every definition is written exactly once: putting them in order loses none and
/// adds none.
pub proof fn law_order_is_complete(t: Defs)
    ensures
        order::arranged(t).to_multiset() == t.to_multiset(),
{
    let n = t.len() as int;
    let first = order::Queue {
        pending: order::part_of(t, n, true),
        placed: Set::<Seq<char>>::empty(),
        order: Seq::<(Seq<char>, Seq<char>)>::empty(),
    };
    let placed = order::settled(first).placed;
    let second = order::Queue {
        pending: order::part_of(t, n, false),
        placed,
        order: Seq::<(Seq<char>, Seq<char>)>::empty(),
    };
    lemma_in_order_holds(order::part_of(t, n, true), Set::empty());
    lemma_in_order_holds(order::part_of(t, n, false), placed);
    vstd::seq_lib::lemma_multiset_commutative(order::in_order(first), order::in_order(second));
    lemma_parts(t, n);
    assert(t.take(n) =~= t);
}

/// Whether a name is among the first `n` definitions.
pub open spec fn named_before(t: Defs, name: Seq<char>, n: int) -> bool {
    exists|i: int| 0 <= i < n && i < t.len() && (#[trigger] t[i]).0 == name
}

/// What holds throughout an ordering that began with `start` and the names in
/// `seed` placed: the names of `start` are pending or placed, and each placed
/// definition comes after the others that it mentions.
spec fn sound(q: order::Queue, start: Defs, seed: Set<Seq<char>>) -> bool {
    &&& forall|name: Seq<char>|
        #[trigger] q.placed.contains(name) ==> seed.contains(name) || named_before(
            q.order,
            name,
            q.order.len() as int,
        )
    &&& forall|k: int|
        0 <= k < start.len() ==> named_before(
            q.pending,
            (#[trigger] start[k]).0,
            q.pending.len() as int,
        ) || named_before(q.order, start[k].0, q.order.len() as int)
    &&& forall|p: int, k: int|
        #![trigger q.order[p], start[k]]
        0 <= p < q.order.len() && 0 <= k < start.len() && start[k].0 != q.order[p].0
            && text::mentions(q.order[p].1, start[k].0) ==> seed.contains(start[k].0)
            || named_before(q.order, start[k].0, p)
}

proof fn lemma_place_sound(q: order::Queue, j: int, start: Defs, seed: Set<Seq<char>>)
    requires
        sound(q, start, seed),
        0 <= j < q.pending.len(),
        !order::blocked(q, j),
    ensures
        sound(order::place_one(q, j), start, seed),
{
    let n = order::place_one(q, j);
    let e = q.pending[j];
    let len = q.order.len() as int;
    assert(n.order[len] == e);
    assert forall|name: Seq<char>| named_before(q.order, name, len) implies named_before(
        n.order,
        name,
        len,
    ) by {
        let i = choose|i: int| 0 <= i < len && i < q.order.len() && (#[trigger] q.order[i]).0 == name;
        assert(n.order[i].0 == name);
    }
    assert forall|name: Seq<char>| named_before(n.order, name, len) implies named_before(
        n.order,
        name,
        n.order.len() as int,
    ) by {
        let i = choose|i: int| 0 <= i < len && i < n.order.len() && (#[trigger] n.order[i]).0 == name;
        assert(n.order[i].0 == name);
    }
    assert(named_before(n.order, e.0, n.order.len() as int));
    assert forall|name: Seq<char>| #[trigger] n.placed.contains(name) implies seed.contains(name)
        || named_before(n.order, name, n.order.len() as int) by {
        if name != e.0 {
            assert(q.placed.contains(name));
        }
    }
    assert forall|k: int| 0 <= k < start.len() implies named_before(
        n.pending,
        (#[trigger] start[k]).0,
        n.pending.len() as int,
    ) || named_before(n.order, start[k].0, n.order.len() as int) by {
        let name = start[k].0;
        if named_before(q.pending, name, q.pending.len() as int) {
            let i = choose|i: int|
                0 <= i < q.pending.len() && i < q.pending.len() && (#[trigger] q.pending[i]).0 == name;
            if i < j {
                assert(n.pending[i].0 == name);
            } else if i > j {
                assert(n.pending[i - 1].0 == name);
            }
        }
    }
    assert forall|p: int, k: int|
        #![trigger n.order[p], start[k]]
        0 <= p < n.order.len() && 0 <= k < start.len() && start[k].0 != n.order[p].0
            && text::mentions(n.order[p].1, start[k].0) implies seed.contains(start[k].0)
        || named_before(n.order, start[k].0, p) by {
        let name = start[k].0;
        if p < len {
            assert(n.order[p] == q.order[p]);
            if named_before(q.order, name, p) {
                let i = choose|i: int|
                    0 <= i < p && i < q.order.len() && (#[trigger] q.order[i]).0 == name;
                assert(n.order[i].0 == name);
            }
        } else if named_before(q.pending, name, q.pending.len() as int) {
            let i = choose|i: int|
                0 <= i < q.pending.len() && i < q.pending.len() && (#[trigger] q.pending[i]).0 == name;
            assert(q.placed.contains(q.pending[i].0));
        }
    }
}

proof fn lemma_pass_sound(q: order::Queue, j: int, start: Defs, seed: Set<Seq<char>>)
    requires
        sound(q, start, seed),
        0 <= j,
    ensures
        sound(order::pass(q, j), start, seed),
    decreases q.pending.len() - j,
{
    if j < q.pending.len() {
        if order::blocked(q, j) {
            lemma_pass_sound(q, j + 1, start, seed);
        } else {
            lemma_place_sound(q, j, start, seed);
            lemma_pass_sound(order::place_one(q, j), j, start, seed);
        }
    }
}

proof fn lemma_settled_sound(q: order::Queue, start: Defs, seed: Set<Seq<char>>)
    requires
        sound(q, start, seed),
    ensures
        sound(order::settled(q), start, seed),
    decreases q.pending.len(),
{
    if q.pending.len() > 0 {
        lemma_pass_sound(q, 0, start, seed);
        if order::pass(q, 0).pending.len() < q.pending.len() {
            lemma_settled_sound(order::pass(q, 0), start, seed);
        }
    }
}

/// A definition that mentions another comes after it: of what an ordering places,
/// each definition stands behind every other one of the same ordering that it
/// mentions, unless that name was placed before.
pub proof fn law_mentioned_comes_first(t: Defs, seed: Set<Seq<char>>, p: int, k: int)
    requires
        0 <= p < order::settled(
            order::Queue { pending: t, placed: seed, order: Seq::empty() },
        ).order.len(),
        0 <= k < t.len(),
        t[k].0 != order::settled(
            order::Queue { pending: t, placed: seed, order: Seq::empty() },
        ).order[p].0,
        text::mentions(
            order::settled(
                order::Queue { pending: t, placed: seed, order: Seq::empty() },
            ).order[p].1,
            t[k].0,
        ),
        !seed.contains(t[k].0),
    ensures
        named_before(
            order::settled(order::Queue { pending: t, placed: seed, order: Seq::empty() }).order,
            t[k].0,
            p,
        ),
{
    let q = order::Queue { pending: t, placed: seed, order: Seq::<(Seq<char>, Seq<char>)>::empty() };
    assert forall|i: int| 0 <= i < t.len() implies named_before(
        q.pending,
        (#[trigger] t[i]).0,
        q.pending.len() as int,
    ) by {
        assert(q.pending[i].0 == t[i].0);
    }
    lemma_settled_sound(q, t, seed);
    let s = order::settled(q);
    assert(s.order[p] == s.order[p] && t[k] == t[k]);
}

/// What is left over blocks itself: where an ordering ends with definitions that
/// have no place, each of them mentions another one of them.
pub proof fn law_left_over_is_circular(q: order::Queue, j: int)
    requires
        0 <= j < order::settled(q).pending.len(),
    ensures
        order::blocked(order::settled(q), j),
    decreases q.pending.len(),
{
    if q.pending.len() > 0 {
        lemma_pass_holds(q, 0);
        if order::pass(q, 0).pending.len() < q.pending.len() {
            law_left_over_is_circular(order::pass(q, 0), j);
        } else {
            lemma_idle_pass(q, 0, j);
        }
    }
}

/// A pass that places nothing leaves the queue as it is, with everything blocked.
proof fn lemma_idle_pass(q: order::Queue, i: int, j: int)
    requires
        0 <= i <= j < q.pending.len(),
        order::pass(q, i).pending.len() >= q.pending.len(),
    ensures
        order::pass(q, i) == q,
        order::blocked(q, j),
    decreases q.pending.len() - i,
{
    if !order::blocked(q, i) {
        lemma_pass_holds(order::place_one(q, i), i);
    } else if i + 1 == q.pending.len() {
        assert(order::pass(q, i + 1) == q);
    } else {
        if i < j {
            lemma_idle_pass(q, i + 1, j);
        } else {
            lemma_idle_pass(q, i + 1, i + 1);
        }
    }
}

/// Whether all definitions are of the wanted kind.
spec fn all_kind(t: Defs, wanted: bool) -> bool {
    forall|i: int| 0 <= i < t.len() ==> order::by_reference((#[trigger] t[i]).0) == wanted
}

proof fn lemma_pass_kind(q: order::Queue, j: int, wanted: bool)
    requires
        all_kind(q.pending, wanted),
        all_kind(q.order, wanted),
        0 <= j,
    ensures
        all_kind(order::pass(q, j).pending, wanted),
        all_kind(order::pass(q, j).order, wanted),
    decreases q.pending.len() - j,
{
    if j < q.pending.len() {
        if order::blocked(q, j) {
            lemma_pass_kind(q, j + 1, wanted);
        } else {
            let n = order::place_one(q, j);
            assert forall|i: int| 0 <= i < n.pending.len() implies order::by_reference(
                (#[trigger] n.pending[i]).0,
            ) == wanted by {
                assert(n.pending[i] == q.pending[if i < j {
                    i
                } else {
                    i + 1
                }]);
            }
            lemma_pass_kind(n, j, wanted);
        }
    }
}

proof fn lemma_settled_kind(q: order::Queue, wanted: bool)
    requires
        all_kind(q.pending, wanted),
        all_kind(q.order, wanted),
    ensures
        all_kind(order::settled(q).pending, wanted),
        all_kind(order::settled(q).order, wanted),
    decreases q.pending.len(),
{
    if q.pending.len() > 0 {
        lemma_pass_kind(q, 0, wanted);
        if order::pass(q, 0).pending.len() < q.pending.len() {
            lemma_settled_kind(order::pass(q, 0), wanted);
        }
    }
}

proof fn lemma_part_kind(t: Defs, n: int, wanted: bool)
    ensures
        all_kind(order::part_of(t, n, wanted), wanted),
    decreases n,
{
    if 0 < n <= t.len() {
        lemma_part_kind(t, n - 1, wanted);
    }
}

/// Vectors and slices of what was declared ahead come first: behind the first other
/// definition there is none of them, so a struct with such a vector or slice in it
/// follows the definition of that vector or slice.
pub proof fn law_by_reference_comes_first(t: Defs, i: int, j: int)
    requires
        0 <= i < order::arranged(t).len(),
        0 <= j < order::arranged(t).len(),
        order::by_reference(order::arranged(t)[i].0),
        !order::by_reference(order::arranged(t)[j].0),
    ensures
        i < j,
{
    let n = t.len() as int;
    let first = order::Queue {
        pending: order::part_of(t, n, true),
        placed: Set::<Seq<char>>::empty(),
        order: Seq::<(Seq<char>, Seq<char>)>::empty(),
    };
    let second = order::Queue {
        pending: order::part_of(t, n, false),
        placed: order::settled(first).placed,
        order: Seq::<(Seq<char>, Seq<char>)>::empty(),
    };
    lemma_part_kind(t, n, true);
    lemma_part_kind(t, n, false);
    lemma_settled_kind(first, true);
    lemma_settled_kind(second, false);
    let a = order::in_order(first);
    let b = order::in_order(second);
    assert forall|k: int| 0 <= k < a.len() implies order::by_reference((#[trigger] a[k]).0) by {
        let m = order::settled(first).order.len();
        if k < m {
            assert(a[k] == order::settled(first).order[k]);
        } else {
            assert(a[k] == order::settled(first).pending[k - m]);
        }
    }
    assert forall|k: int| 0 <= k < b.len() implies !order::by_reference((#[trigger] b[k]).0) by {
        let m = order::settled(second).order.len();
        if k < m {
            assert(b[k] == order::settled(second).order[k]);
        } else {
            assert(b[k] == order::settled(second).pending[k - m]);
        }
    }
    if j < a.len() {
        assert(order::arranged(t)[j] == a[j]);
    }
    if i >= a.len() {
        assert(order::arranged(t)[i] == b[i - a.len()]);
    }
}

} // verus!
