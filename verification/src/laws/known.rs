//! The generator: what it knows of a program is what the program declares.

use vstd::prelude::*;

use crate::aliases;
use crate::ast::{EnumVariant, Item, Param};
use crate::codegen::model;
use crate::source::Spanned;

verus! {

/// Whether an item is a struct of this name.
pub open spec fn is_struct(item: Item, wanted: Seq<char>) -> bool {
    item matches Item::StructDecl { name, .. } && name@ == wanted
}

/// Whether an item is an enum of this name.
pub open spec fn is_enum(item: Item, wanted: Seq<char>) -> bool {
    item matches Item::EnumDecl { name, .. } && name@ == wanted
}

/// Whether one of these variants has this name.
pub open spec fn has_variant(variants: Seq<EnumVariant>, from: int, wanted: Seq<char>) -> bool {
    exists|k: int| from <= k < variants.len() && (#[trigger] variants[k]).name@ == wanted
}

/// Whether an item is an enum with a variant of this name.
pub open spec fn is_variant(item: Item, wanted: Seq<char>) -> bool {
    item matches Item::EnumDecl { variants, .. } && has_variant(variants@, 0, wanted)
}

proof fn lemma_variants(
    d: model::Decls,
    name: Seq<char>,
    variants: Seq<EnumVariant>,
    i: int,
    wanted: Seq<char>,
)
    requires
        0 <= i,
    ensures
        ({
            let e = model::with_variants(d, name, variants, i);
            &&& e == (model::Decls { values: e.values, owners: e.owners, ..d })
            &&& e.values.dom().contains(wanted) <==> d.values.dom().contains(wanted) || has_variant(
                variants,
                i,
                wanted,
            )
            &&& e.owners.dom().contains(wanted) <==> d.owners.dom().contains(wanted) || has_variant(
                variants,
                i,
                wanted,
            )
        }),
    decreases variants.len() - i,
{
    if i < variants.len() {
        let next = model::Decls {
            values: d.values.insert(variants[i].name@, i as i32),
            owners: d.owners.insert(variants[i].name@, name),
            ..d
        };
        lemma_variants(next, name, variants, i + 1, wanted);
        if has_variant(variants, i, wanted) && variants[i].name@ != wanted {
            let k = choose|k: int| i <= k < variants.len() && (#[trigger] variants[k]).name@ == wanted;
            assert(i + 1 <= k);
        }
        if has_variant(variants, i + 1, wanted) {
            let k = choose|k: int|
                i + 1 <= k < variants.len() && (#[trigger] variants[k]).name@ == wanted;
            assert(variants[k].name@ == wanted);
        }
        if variants[i].name@ == wanted {
            assert(has_variant(variants, i, wanted));
        }
    }
}

/// Whether one of the items from the `i`-th on is a struct of this name.
pub open spec fn some_struct(items: Seq<Spanned<Item>>, i: int, wanted: Seq<char>) -> bool {
    exists|k: int| i <= k < items.len() && is_struct((#[trigger] items[k]).node, wanted)
}

/// Whether one of the items from the `i`-th on is an enum of this name.
pub open spec fn some_enum(items: Seq<Spanned<Item>>, i: int, wanted: Seq<char>) -> bool {
    exists|k: int| i <= k < items.len() && is_enum((#[trigger] items[k]).node, wanted)
}

/// Whether one of the items from the `i`-th on is an enum with a variant of this name.
pub open spec fn some_variant(items: Seq<Spanned<Item>>, i: int, wanted: Seq<char>) -> bool {
    exists|k: int| i <= k < items.len() && is_variant((#[trigger] items[k]).node, wanted)
}

proof fn lemma_some(items: Seq<Spanned<Item>>, i: int, wanted: Seq<char>)
    requires
        0 <= i < items.len(),
    ensures
        some_struct(items, i, wanted) <==> is_struct(items[i].node, wanted) || some_struct(
            items,
            i + 1,
            wanted,
        ),
        some_enum(items, i, wanted) <==> is_enum(items[i].node, wanted) || some_enum(
            items,
            i + 1,
            wanted,
        ),
        some_variant(items, i, wanted) <==> is_variant(items[i].node, wanted) || some_variant(
            items,
            i + 1,
            wanted,
        ),
{
    if some_struct(items, i, wanted) && !is_struct(items[i].node, wanted) {
        let k = choose|k: int| i <= k < items.len() && is_struct((#[trigger] items[k]).node, wanted);
        assert(i + 1 <= k);
    }
    if some_enum(items, i, wanted) && !is_enum(items[i].node, wanted) {
        let k = choose|k: int| i <= k < items.len() && is_enum((#[trigger] items[k]).node, wanted);
        assert(i + 1 <= k);
    }
    if some_variant(items, i, wanted) && !is_variant(items[i].node, wanted) {
        let k = choose|k: int| i <= k < items.len() && is_variant((#[trigger] items[k]).node, wanted);
        assert(i + 1 <= k);
    }
    if some_struct(items, i + 1, wanted) {
        let k = choose|k: int|
            i + 1 <= k < items.len() && is_struct((#[trigger] items[k]).node, wanted);
        assert(is_struct(items[k].node, wanted));
    }
    if some_enum(items, i + 1, wanted) {
        let k = choose|k: int| i + 1 <= k < items.len() && is_enum((#[trigger] items[k]).node, wanted);
        assert(is_enum(items[k].node, wanted));
    }
    if some_variant(items, i + 1, wanted) {
        let k = choose|k: int|
            i + 1 <= k < items.len() && is_variant((#[trigger] items[k]).node, wanted);
        assert(is_variant(items[k].node, wanted));
    }
}

proof fn lemma_items(d: model::Decls, items: Seq<Spanned<Item>>, i: int, wanted: Seq<char>)
    requires
        0 <= i <= items.len(),
    ensures
        ({
            let e = model::with_items(d, items, i);
            &&& e.structs.contains(wanted) <==> d.structs.contains(wanted) || some_struct(
                items,
                i,
                wanted,
            )
            &&& e.fields.dom().contains(wanted) <==> d.fields.dom().contains(wanted) || some_struct(
                items,
                i,
                wanted,
            )
            &&& e.enums.contains(wanted) <==> d.enums.contains(wanted) || some_enum(items, i, wanted)
            &&& e.payloads.dom().contains(wanted) <==> d.payloads.dom().contains(wanted)
                || some_enum(items, i, wanted)
            &&& e.values.dom().contains(wanted) <==> d.values.dom().contains(wanted) || some_variant(
                items,
                i,
                wanted,
            )
            &&& e.owners.dom().contains(wanted) <==> d.owners.dom().contains(wanted) || some_variant(
                items,
                i,
                wanted,
            )
            &&& e.methods == d.methods
            &&& e.by_pointer == d.by_pointer
            &&& e.types == d.types
        }),
    decreases items.len() - i,
{
    if i < items.len() {
        let next = model::with_item(d, items[i].node);
        if let Item::EnumDecl { name, variants } = items[i].node {
            lemma_variants(
                model::Decls { enums: d.enums.insert(name@), ..d },
                name@,
                variants@,
                0,
                wanted,
            );
        }
        lemma_items(next, items, i + 1, wanted);
        lemma_some(items, i, wanted);
    }
}

/// Whether an item has a method of this name for the type, by pointer or in any way.
pub open spec fn declares_method(
    d: model::Decls,
    item: Item,
    owner: Seq<char>,
    wanted: Seq<char>,
    k: int,
    by_pointer: bool,
) -> bool {
    item matches Item::ImplDecl { target, methods } && model::owner_name(d, target@) == owner && 0
        <= k < methods@.len() && is_method(methods@[k].node, wanted, by_pointer)
}

/// Whether a function has this name and, where that is asked, takes `mut self` first.
pub open spec fn is_method(item: Item, wanted: Seq<char>, by_pointer: bool) -> bool {
    item matches Item::FnDecl { name, params, .. } && name@ == wanted && (by_pointer ==> starts_mut(
        params@,
    ))
}

/// Whether the first parameter is `mut self`.
pub open spec fn starts_mut(params: Seq<Param>) -> bool {
    params.len() > 0 && params[0].mutable && params[0].name@ == "self"@
}

proof fn lemma_methods(
    d: model::Decls,
    owner: Seq<char>,
    methods: Seq<Spanned<Item>>,
    i: int,
    o: Seq<char>,
    wanted: Seq<char>,
)
    requires
        0 <= i <= methods.len(),
    ensures
        ({
            let e = model::with_methods(d, owner, methods, i);
            &&& e == (model::Decls { methods: e.methods, by_pointer: e.by_pointer, ..d })
            &&& e.methods.contains((o, wanted)) && !d.methods.contains((o, wanted)) ==> o == owner
                && exists|k: int|
                i <= k < methods.len() && is_method((#[trigger] methods[k]).node, wanted, false)
            &&& e.by_pointer.contains((o, wanted)) && !d.by_pointer.contains((o, wanted)) ==> o
                == owner && exists|k: int|
                i <= k < methods.len() && is_method((#[trigger] methods[k]).node, wanted, true)
        }),
    decreases methods.len() - i,
{
    if i < methods.len() {
        let next = match methods[i].node {
            Item::FnDecl { name, params, .. } => model::Decls {
                methods: d.methods.insert((owner, name@)),
                by_pointer: if model::takes_pointer(params@) {
                    d.by_pointer.insert((owner, name@))
                } else {
                    d.by_pointer
                },
                ..d
            },
            _ => d,
        };
        lemma_methods(next, owner, methods, i + 1, o, wanted);
        if is_method(methods[i].node, wanted, true) {
            assert(is_method(methods[i].node, wanted, false));
        }
    }
}

proof fn lemma_impls(
    d: model::Decls,
    items: Seq<Spanned<Item>>,
    i: int,
    o: Seq<char>,
    wanted: Seq<char>,
)
    requires
        0 <= i <= items.len(),
    ensures
        ({
            let e = model::with_impls(d, items, i);
            &&& e == (model::Decls { methods: e.methods, by_pointer: e.by_pointer, ..d })
            &&& e.methods.contains((o, wanted)) && !d.methods.contains((o, wanted)) ==> exists|
                j: int,
                k: int,
            |
                i <= j < items.len() && #[trigger] declares_method(
                    d,
                    items[j].node,
                    o,
                    wanted,
                    k,
                    false,
                )
            &&& e.by_pointer.contains((o, wanted)) && !d.by_pointer.contains((o, wanted)) ==> exists|
                j: int,
                k: int,
            |
                i <= j < items.len() && #[trigger] declares_method(
                    d,
                    items[j].node,
                    o,
                    wanted,
                    k,
                    true,
                )
        }),
    decreases items.len() - i,
{
    if i < items.len() {
        match items[i].node {
            Item::ImplDecl { target, methods } => {
                let owner = model::owner_name(d, target@);
                let next = model::with_methods(d, owner, methods@, 0);
                lemma_methods(d, owner, methods@, 0, o, wanted);
                lemma_impls(next, items, i + 1, o, wanted);
                let e = model::with_impls(d, items, i);
                assert(e == model::with_impls(next, items, i + 1));
                if e.methods.contains((o, wanted)) && !d.methods.contains((o, wanted)) {
                    if next.methods.contains((o, wanted)) {
                        let k = choose|k: int|
                            0 <= k < methods@.len() && is_method(
                                (#[trigger] methods@[k]).node,
                                wanted,
                                false,
                            );
                        assert(declares_method(d, items[i].node, o, wanted, k, false));
                    } else {
                        let (j, k) = choose|j: int, k: int|
                            i + 1 <= j < items.len() && #[trigger] declares_method(
                                next,
                                items[j].node,
                                o,
                                wanted,
                                k,
                                false,
                            );
                        assert(declares_method(d, items[j].node, o, wanted, k, false));
                    }
                }
                if e.by_pointer.contains((o, wanted)) && !d.by_pointer.contains((o, wanted)) {
                    if next.by_pointer.contains((o, wanted)) {
                        let k = choose|k: int|
                            0 <= k < methods@.len() && is_method(
                                (#[trigger] methods@[k]).node,
                                wanted,
                                true,
                            );
                        assert(declares_method(d, items[i].node, o, wanted, k, true));
                    } else {
                        let (j, k) = choose|j: int, k: int|
                            i + 1 <= j < items.len() && #[trigger] declares_method(
                                next,
                                items[j].node,
                                o,
                                wanted,
                                k,
                                true,
                            );
                        assert(declares_method(d, items[j].node, o, wanted, k, true));
                    }
                }
            },
            _ => lemma_impls(d, items, i + 1, o, wanted),
        }
    }
}

/// What is known of the names of a program is what it declares: a name is that of a
/// struct, of an enum or of a variant exactly where an item of the program says so.
pub proof fn law_known_names(
    types: Map<crate::source::Span, crate::ast::Type>,
    items: Seq<Spanned<Item>>,
    wanted: Seq<char>,
)
    ensures
        ({
            let d = model::with_program(model::no_decls(types), items);
            &&& d.structs.contains(wanted) <==> some_struct(items, 0, wanted)
            &&& d.fields.dom().contains(wanted) <==> some_struct(items, 0, wanted)
            &&& d.enums.contains(wanted) <==> some_enum(items, 0, wanted)
            &&& d.payloads.dom().contains(wanted) <==> some_enum(items, 0, wanted)
            &&& d.values.dom().contains(wanted) <==> some_variant(items, 0, wanted)
            &&& d.owners.dom().contains(wanted) <==> some_variant(items, 0, wanted)
            &&& d.types == types
            &&& d.aliases == aliases::of_items(items)
        }),
{
    let start = model::no_decls(types);
    lemma_items(start, items, 0, wanted);
    lemma_impls(
        model::with_aliases(model::with_items(start, items, 0), items),
        items,
        0,
        wanted,
        wanted,
    );
}

/// Only methods of the program are known as such, and only those with `mut self` take
/// their receiver by pointer.
pub proof fn law_known_methods(
    types: Map<crate::source::Span, crate::ast::Type>,
    items: Seq<Spanned<Item>>,
    owner: Seq<char>,
    wanted: Seq<char>,
)
    ensures
        ({
            let d = model::with_program(model::no_decls(types), items);
            &&& d.methods.contains((owner, wanted)) ==> exists|j: int, k: int|
                0 <= j < items.len() && #[trigger] declares_method(
                    d,
                    items[j].node,
                    owner,
                    wanted,
                    k,
                    false,
                )
            &&& d.by_pointer.contains((owner, wanted)) ==> exists|j: int, k: int|
                0 <= j < items.len() && #[trigger] declares_method(
                    d,
                    items[j].node,
                    owner,
                    wanted,
                    k,
                    true,
                )
        }),
{
    let start = model::no_decls(types);
    let typed = model::with_aliases(model::with_items(start, items, 0), items);
    let d = model::with_program(start, items);
    lemma_items(start, items, 0, wanted);
    lemma_impls(typed, items, 0, owner, wanted);
    if d.methods.contains((owner, wanted)) {
        let (j, k) = choose|j: int, k: int|
            0 <= j < items.len() && #[trigger] declares_method(
                typed,
                items[j].node,
                owner,
                wanted,
                k,
                false,
            );
        assert(declares_method(d, items[j].node, owner, wanted, k, false));
    }
    if d.by_pointer.contains((owner, wanted)) {
        let (j, k) = choose|j: int, k: int|
            0 <= j < items.len() && #[trigger] declares_method(
                typed,
                items[j].node,
                owner,
                wanted,
                k,
                true,
            );
        assert(declares_method(d, items[j].node, owner, wanted, k, true));
    }
}

/// The fields of a struct are known by their names and types, in order, and a struct or
/// enum that is declared again counts as it is declared last.
pub proof fn law_last_declaration_counts(d: model::Decls, item: Item)
    ensures
        item matches Item::StructDecl { name, fields } ==> ({
            let e = model::with_item(d, item);
            &&& e.structs == d.structs.insert(name@)
            &&& e.fields.dom() == d.fields.dom().insert(name@)
            &&& e.fields[name@].len() == fields@.len()
            &&& forall|k: int|
                0 <= k < fields@.len() ==> #[trigger] e.fields[name@][k] == (
                    fields@[k].name@,
                    fields@[k].ty@,
                )
            &&& forall|other: Seq<char>|
                other != name@ && d.fields.dom().contains(other) ==> #[trigger] e.fields[other]
                    == d.fields[other]
        }),
        item matches Item::EnumDecl { name, variants } ==> ({
            let e = model::with_item(d, item);
            &&& e.enums == d.enums.insert(name@)
            &&& e.payloads[name@].len() == variants@.len()
            &&& forall|k: int|
                0 <= k < variants@.len() ==> #[trigger] e.payloads[name@][k]
                    == match variants@[k].payload {
                    Some(t) => Some(t@),
                    None => None,
                }
        }),
{
    if let Item::EnumDecl { name, variants } = item {
        lemma_variants(
            model::Decls { enums: d.enums.insert(name@), ..d },
            name@,
            variants@,
            0,
            name@,
        );
    }
}

} // verus!
