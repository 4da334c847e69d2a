//! The generator: what the declarations of a program give.

use vstd::prelude::*;

use crate::ast::{EnumVariant, FieldDecl, Item};
use crate::codegen::model;
use crate::codegen::typedefs;
use crate::source::Spanned;
use crate::text;

verus! {

proof fn lemma_variants_keep(
    d: model::Decls,
    name: Seq<char>,
    variants: Seq<EnumVariant>,
    i: int,
    v: Seq<char>,
)
    requires
        0 <= i,
        forall|j: int| i <= j < variants.len() ==> (#[trigger] variants[j]).name@ != v,
    ensures
        model::with_variants(d, name, variants, i).values.dom().contains(v)
            == d.values.dom().contains(v),
        model::with_variants(d, name, variants, i).values[v] == d.values[v],
        model::with_variants(d, name, variants, i).owners.dom().contains(v)
            == d.owners.dom().contains(v),
        model::with_variants(d, name, variants, i).owners[v] == d.owners[v],
    decreases variants.len() - i,
{
    if i < variants.len() {
        assert(variants[i].name@ != v);
        let next = model::Decls {
            values: d.values.insert(variants[i].name@, i as i32),
            owners: d.owners.insert(variants[i].name@, name),
            ..d
        };
        lemma_variants_keep(next, name, variants, i + 1, v);
    }
}

proof fn lemma_variants(
    d: model::Decls,
    name: Seq<char>,
    variants: Seq<EnumVariant>,
    i: int,
    k: int,
)
    requires
        0 <= i <= k < variants.len(),
        forall|j: int| k < j < variants.len() ==> (#[trigger] variants[j]).name@ != variants[k].name@,
    ensures
        model::with_variants(d, name, variants, i).values.dom().contains(variants[k].name@),
        model::with_variants(d, name, variants, i).values[variants[k].name@] == k as i32,
        model::with_variants(d, name, variants, i).owners.dom().contains(variants[k].name@),
        model::with_variants(d, name, variants, i).owners[variants[k].name@] == name,
    decreases k - i,
{
    let next = model::Decls {
        values: d.values.insert(variants[i].name@, i as i32),
        owners: d.owners.insert(variants[i].name@, name),
        ..d
    };
    if i < k {
        lemma_variants(next, name, variants, i + 1, k);
    } else {
        lemma_variants_keep(next, name, variants, i + 1, variants[k].name@);
    }
}

/// The variants of an enum are numbered by their position, and belong to it.
/// Where a name stands twice the later variant counts.
pub proof fn law_variants_are_numbered(
    d: model::Decls,
    name: Seq<char>,
    variants: Seq<EnumVariant>,
    k: int,
)
    requires
        0 <= k < variants.len(),
        forall|j: int| k < j < variants.len() ==> (#[trigger] variants[j]).name@ != variants[k].name@,
    ensures
        model::with_enum(d, name, variants).values.dom().contains(variants[k].name@),
        model::with_enum(d, name, variants).values[variants[k].name@] == k as i32,
        model::with_enum(d, name, variants).owners[variants[k].name@] == name,
        model::with_enum(d, name, variants).payloads[name][k] == model::payload_type(
            variants[k].payload,
        ),
{
    lemma_variants(
        model::Decls { enums: d.enums.insert(name), ..d },
        name,
        variants,
        0,
        k,
    );
}

proof fn lemma_methods_grow(
    d: model::Decls,
    target: Seq<char>,
    methods: Seq<Spanned<Item>>,
    i: int,
)
    ensures
        d.methods.subset_of(model::with_methods(d, target, methods, i).methods),
        d.by_pointer.subset_of(model::with_methods(d, target, methods, i).by_pointer),
        model::with_methods(d, target, methods, i).aliases == d.aliases,
    decreases methods.len() - i,
{
    if 0 <= i < methods.len() {
        match methods[i].node {
            Item::FnDecl { name, params, .. } => {
                let next = model::Decls {
                    methods: d.methods.insert((target, name@)),
                    by_pointer: if model::takes_pointer(params@) {
                        d.by_pointer.insert((target, name@))
                    } else {
                        d.by_pointer
                    },
                    ..d
                };
                lemma_methods_grow(next, target, methods, i + 1);
            },
            _ => lemma_methods_grow(d, target, methods, i + 1),
        }
    }
}

proof fn lemma_method_known(
    d: model::Decls,
    target: Seq<char>,
    methods: Seq<Spanned<Item>>,
    i: int,
    k: int,
)
    requires
        0 <= i <= k < methods.len(),
        methods[k].node is FnDecl,
    ensures
        model::with_methods(d, target, methods, i).methods.contains(
            (target, methods[k].node->FnDecl_name@),
        ),
        model::takes_pointer(methods[k].node->params@) ==> model::with_methods(
            d,
            target,
            methods,
            i,
        ).by_pointer.contains((target, methods[k].node->FnDecl_name@)),
    decreases k - i,
{
    match methods[i].node {
        Item::FnDecl { name, params, .. } => {
            let next = model::Decls {
                methods: d.methods.insert((target, name@)),
                by_pointer: if model::takes_pointer(params@) {
                    d.by_pointer.insert((target, name@))
                } else {
                    d.by_pointer
                },
                ..d
            };
            if i < k {
                lemma_method_known(next, target, methods, i + 1, k);
            } else {
                lemma_methods_grow(next, target, methods, i + 1);
            }
        },
        _ => lemma_method_known(d, target, methods, i + 1, k),
    }
}

proof fn lemma_impls_grow(d: model::Decls, items: Seq<Spanned<Item>>, i: int)
    ensures
        d.methods.subset_of(model::with_impls(d, items, i).methods),
        d.by_pointer.subset_of(model::with_impls(d, items, i).by_pointer),
        model::with_impls(d, items, i).aliases == d.aliases,
    decreases items.len() - i,
{
    if 0 <= i < items.len() {
        match items[i].node {
            Item::ImplDecl { target, methods } => {
                let owner = model::owner_name(d, target@);
                lemma_methods_grow(d, owner, methods@, 0);
                lemma_impls_grow(model::with_methods(d, owner, methods@, 0), items, i + 1);
            },
            _ => lemma_impls_grow(d, items, i + 1),
        }
    }
}

proof fn lemma_impl_known(
    d: model::Decls,
    items: Seq<Spanned<Item>>,
    i: int,
    j: int,
    k: int,
)
    requires
        0 <= i <= j < items.len(),
        items[j].node is ImplDecl,
        0 <= k < items[j].node->methods@.len(),
        items[j].node->methods@[k].node is FnDecl,
    ensures
        ({
            let target = model::owner_name(d, items[j].node->target@);
            let method = items[j].node->methods@[k].node;
            &&& model::with_impls(d, items, i).methods.contains((target, method->FnDecl_name@))
            &&& model::takes_pointer(method->params@) ==> model::with_impls(
                d,
                items,
                i,
            ).by_pointer.contains((target, method->FnDecl_name@))
        }),
    decreases j - i,
{
    match items[i].node {
        Item::ImplDecl { target, methods } => {
            let owner = model::owner_name(d, target@);
            let next = model::with_methods(d, owner, methods@, 0);
            lemma_methods_grow(d, owner, methods@, 0);
            if i < j {
                lemma_impl_known(next, items, i + 1, j, k);
            } else {
                lemma_method_known(d, owner, methods@, 0, k);
                lemma_impls_grow(next, items, i + 1);
            }
        },
        _ => lemma_impl_known(d, items, i + 1, j, k),
    }
}

/// Calls find their methods in any order of the source: before anything is
/// written, every method of the program is known, and those with `mut self` are
/// known to take their receiver by pointer.
pub proof fn law_methods_are_known(d: model::Decls, items: Seq<Spanned<Item>>, j: int, k: int)
    requires
        0 <= j < items.len(),
        items[j].node is ImplDecl,
        0 <= k < items[j].node->methods@.len(),
        items[j].node->methods@[k].node is FnDecl,
    ensures
        ({
            let known = model::with_program(d, items);
            let target = model::owner_name(known, items[j].node->target@);
            let method = items[j].node->methods@[k].node;
            &&& known.methods.contains((target, method->FnDecl_name@))
            &&& model::takes_pointer(method->params@) ==> known.by_pointer.contains(
                (target, method->FnDecl_name@),
            )
        }),
{
    let typed = model::with_aliases(model::with_items(d, items, 0), items);
    lemma_impl_known(typed, items, 0, j, k);
    lemma_impls_grow(typed, items, 0);
}

/// Methods of different types or names become different functions, where the names
/// of the types hold no underscore. Where they do, a program in which two methods
/// become one function is not accepted.
pub proof fn law_method_names_differ(
    a: Seq<char>,
    m: Seq<char>,
    b: Seq<char>,
    n: Seq<char>,
)
    requires
        !a.contains('_'),
        !b.contains('_'),
        model::method_name(a, m) == model::method_name(b, n),
    ensures
        a == b,
        m == n,
{
    reveal_strlit("_");
    let front = "__xlang_method_"@;
    let x = model::method_name(a, m);
    let y = model::method_name(b, n);
    let k = front.len() as int;
    assert(x[k + a.len()] == '_');
    assert(y[k + b.len()] == '_');
    if a.len() < b.len() {
        assert(b[a.len() as int] == y[k + a.len()]);
    }
    if b.len() < a.len() {
        assert(a[b.len() as int] == x[k + b.len()]);
    }
    assert forall|i: int| 0 <= i < a.len() implies a[i] == b[i] by {
        assert(x[k + i] == a[i]);
        assert(y[k + i] == b[i]);
    }
    assert(a =~= b);
    let at = k + a.len() + 1;
    assert(m =~= x.subrange(at, x.len() as int));
    assert(n =~= y.subrange(at, y.len() as int));
}

/// Fields keep their order: the members of the first fields of a struct stand
/// first in it, and the next member follows them.
pub proof fn law_fields_keep_order(d: model::Decls, fields: Seq<FieldDecl>, k: int, n: int)
    requires
        0 <= k < n <= fields.len(),
        typedefs::members_c(d, fields, n) is Ok,
    ensures
        typedefs::members_c(d, fields, k) is Ok,
        model::type_c(d, fields[k].ty@) is Ok,
        text::begins_with(
            typedefs::members_c(d, fields, n)->Ok_0,
            typedefs::members_c(d, fields, k)->Ok_0 + ("    "@ + model::type_c(
                d,
                fields[k].ty@,
            )->Ok_0 + " "@ + fields[k].name@ + ";\n"@),
        ),
    decreases n,
{
    let all = typedefs::members_c(d, fields, n)->Ok_0;
    if k == n - 1 {
        assert(all.subrange(0, all.len() as int) =~= all);
    } else {
        law_fields_keep_order(d, fields, k, n - 1);
        let front = typedefs::members_c(d, fields, n - 1)->Ok_0;
        let wanted = typedefs::members_c(d, fields, k)->Ok_0 + ("    "@ + model::type_c(
            d,
            fields[k].ty@,
        )->Ok_0 + " "@ + fields[k].name@ + ";\n"@);
        assert(all.subrange(0, wanted.len() as int) =~= front.subrange(0, wanted.len() as int));
    }
}

} // verus!
