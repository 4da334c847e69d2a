//! The generator: how types are written, and what is defined for them.

use vstd::prelude::*;

use crate::aliases;
use crate::ast;
use crate::ast::{EnumVariant, FieldDecl, Item};
use crate::codegen::model;
use crate::codegen::order;
use crate::codegen::typedefs;
use crate::codegen::typedefs::Defs;
use crate::error;
use crate::laws::typedefs as tables;
use crate::source::Spanned;
use crate::text;

verus! {

/// A text that was made.
pub open spec fn made(t: Seq<char>) -> model::Outcome<Seq<char>> {
    Ok(t)
}

/// What is told instead.
pub open spec fn told(message: Seq<char>) -> model::Outcome<Seq<char>> {
    Err(error::Fault::Codegen(message))
}

// ---------------------------------------------------------------------------
// Names of types
// ---------------------------------------------------------------------------

proof fn lemma_scalar_names()
    ensures
        "i32"@[0] == 'i' && "i32"@[1] == '3' && "i32"@.len() == 3,
        "i64"@[0] == 'i' && "i64"@[1] == '6' && "i64"@.len() == 3,
        "f32"@[0] == 'f' && "f32"@[1] == '3' && "f32"@.len() == 3,
        "f64"@[0] == 'f' && "f64"@[1] == '6' && "f64"@.len() == 3,
        "bool"@.len() == 4,
        "String"@.len() == 6,
        "Str"@.len() == 3 && "Str"@[0] == 'S',
{
    reveal_strlit("i32");
    reveal_strlit("i64");
    reveal_strlit("f32");
    reveal_strlit("f64");
    reveal_strlit("bool");
    reveal_strlit("String");
    reveal_strlit("Str");
}

/// The C types of the built-in scalar types.
pub proof fn law_scalar_types(d: model::Decls, t: ast::Type, name: Seq<char>)
    requires
        aliases::meant(d.aliases, t) == (ast::Type::Named { name, args: Seq::empty() }),
    ensures
        name == "i32"@ ==> model::type_c(d, t) == made("int32_t"@),
        name == "i64"@ ==> model::type_c(d, t) == made("int64_t"@),
        name == "f32"@ ==> model::type_c(d, t) == made("float"@),
        name == "f64"@ ==> model::type_c(d, t) == made("double"@),
        name == "bool"@ ==> model::type_c(d, t) == made("bool"@),
        name == "String"@ || name == "Str"@ ==> model::type_c(d, t) == made("const char *"@),
        name == "i32"@ || name == "i64"@ || name == "f32"@ || name == "f64"@ || name == "bool"@ || name
            == "String"@ || name == "Str"@ ==> model::suffix_c(d, t) == made(name),
{
    lemma_scalar_names();
}

/// Structs, and enums with payloads, are written by their names; other enums are
/// numbers. A name that is neither is told.
pub proof fn law_declared_types(d: model::Decls, t: ast::Type, name: Seq<char>)
    requires
        aliases::meant(d.aliases, t) == (ast::Type::Named { name, args: Seq::empty() }),
        !(name == "i32"@ || name == "i64"@ || name == "f32"@ || name == "f64"@ || name == "bool"@
            || name == "String"@ || name == "Str"@),
    ensures
        d.structs.contains(name) ==> model::type_c(d, t) == made(name),
        !d.structs.contains(name) && d.enums.contains(name) && model::has_payload(d, name)
            ==> model::type_c(d, t) == made(name),
        !d.structs.contains(name) && d.enums.contains(name) && !model::has_payload(d, name)
            ==> model::type_c(d, t) == made("int32_t"@),
        !d.structs.contains(name) && !d.enums.contains(name) ==> model::type_c(d, t) == told(
            "C backend does not support type yet: "@ + name,
        ),
        d.structs.contains(name) || d.enums.contains(name) ==> model::suffix_c(d, t) == made(name),
        !d.structs.contains(name) && !d.enums.contains(name) ==> model::suffix_c(d, t) == told(
            "C backend does not support "@ + name + " as a generated type suffix yet"@,
        ),
{
}

proof fn lemma_generic_names()
    ensures
        "Slice"@.len() == 5 && "Slice"@[0] == 'S',
        "Array"@.len() == 5 && "Array"@[0] == 'A',
        "Option"@.len() == 6 && "Option"@[0] == 'O',
        "Result"@.len() == 6 && "Result"@[0] == 'R',
        "Vec"@.len() == 3,
{
    reveal_strlit("Slice");
    reveal_strlit("Array");
    reveal_strlit("Option");
    reveal_strlit("Result");
    reveal_strlit("Vec");
}

/// Built-in generic types with one argument are written by their name and that of the
/// argument.
pub proof fn law_generic_types(d: model::Decls, t: ast::Type, name: Seq<char>, a: ast::Type)
    requires
        aliases::meant(d.aliases, t) == (ast::Type::Named { name, args: seq![a] }),
        name == "Slice"@ || name == "Option"@ || name == "Vec"@,
    ensures
        match model::known_suffix_c(d, a) {
            Ok(s) => model::type_c(d, t) == made(
                (if name == "Slice"@ {
                    "Slice_"@
                } else if name == "Option"@ {
                    "Option_"@
                } else {
                    "Vec_"@
                }) + s,
            ),
            Err(f) => model::type_c(d, t) == Err::<Seq<char>, error::Fault>(f),
        },
        model::suffix_c(d, t) == model::type_c(d, t),
{
    lemma_generic_names();
    reveal_with_fuel(model::known_suffix_c, 2);
    assert(seq![a][0] == a);
}

/// Arrays are written by their elements and length, results by their two arguments.
pub proof fn law_generic_types_of_two(
    d: model::Decls,
    t: ast::Type,
    name: Seq<char>,
    a: ast::Type,
    b: ast::Type,
)
    requires
        aliases::meant(d.aliases, t) == (ast::Type::Named { name, args: seq![a, b] }),
        name == "Array"@ || name == "Result"@,
    ensures
        match model::known_suffix_c(d, a) {
            Err(f) => model::type_c(d, t) == Err::<Seq<char>, error::Fault>(f),
            Ok(s) => if name == "Array"@ {
                match b {
                    ast::Type::Const { value } => model::type_c(d, t) == made(
                        "Array_"@ + s + "_"@ + value,
                    ),
                    ast::Type::Named { name: n, .. } => model::type_c(d, t) == told(
                        "Array length"@ + " must be a constant integer, got type "@ + n,
                    ),
                }
            } else {
                match model::known_suffix_c(d, b) {
                    Ok(e) => model::type_c(d, t) == made("Result_"@ + s + "_"@ + e),
                    Err(f) => model::type_c(d, t) == Err::<Seq<char>, error::Fault>(f),
                }
            },
        },
        model::suffix_c(d, t) == model::type_c(d, t),
{
    lemma_generic_names();
    reveal_with_fuel(model::known_suffix_c, 2);
    assert(seq![a, b][0] == a && seq![a, b][1] == b);
}

/// The name of a type argument, once aliases are replaced, is found as for the type
/// itself: scalars and declared types by their names, constants not at all.
pub proof fn law_argument_names(d: model::Decls, a: ast::Type)
    ensures
        a matches ast::Type::Const { value } ==> model::known_suffix_c(d, a) == told(
            "unexpected const type argument in C type suffix: "@ + value,
        ) && model::known_type_c(d, a) == told(
            "unexpected const type argument in C type position: "@ + value,
        ),
        a matches ast::Type::Named { name, args } ==> args.len() == 0 && (name == "i32"@ || name
            == "i64"@ || name == "f32"@ || name == "f64"@ || name == "bool"@ || name == "String"@
            || name == "Str"@ || d.structs.contains(name) || d.enums.contains(name))
            ==> model::known_suffix_c(d, a) == made(name),
{
}

/// Any other generic type, or one with another number of arguments, has no C.
pub proof fn law_no_such_type(d: model::Decls, t: ast::Type, name: Seq<char>, args: Seq<ast::Type>)
    requires
        aliases::meant(d.aliases, t) == (ast::Type::Named { name, args }),
        args.len() > 0,
        !((name == "Slice"@ || name == "Option"@ || name == "Vec"@) && args.len() == 1),
        !((name == "Array"@ || name == "Result"@) && args.len() == 2),
    ensures
        model::type_c(d, t) == told("C backend does not support generic type yet: "@ + name + "<...>"@),
        model::suffix_c(d, t) == told(
            "C backend does not support "@ + name + "<...> as a generated type suffix yet"@,
        ),
{
}

// ---------------------------------------------------------------------------
// Tables of definitions
// ---------------------------------------------------------------------------

/// A definition under a new name is entered as it is; where the name has one already,
/// nothing changes.
pub proof fn law_put(t: Defs, key: Seq<char>, def: Seq<char>)
    requires
        typedefs::rising(t),
    ensures
        (exists|k: int| 0 <= k < t.len() && (#[trigger] t[k]).0 == key) ==> typedefs::put(t, key, def)
            == t,
        !(exists|k: int| 0 <= k < t.len() && (#[trigger] t[k]).0 == key) ==> typedefs::put(
            t,
            key,
            def,
        ).contains((key, def)) && typedefs::put(t, key, def).len() == t.len() + 1,
{
    tables::lemma_slot(t, key, 0);
    let k = typedefs::slot(t, key, 0);
    if exists|j: int| 0 <= j < t.len() && (#[trigger] t[j]).0 == key {
        let j = choose|j: int| 0 <= j < t.len() && (#[trigger] t[j]).0 == key;
        if j < k {
            assert(text::before(t[j].0, key));
            text::law_order_strict(key, key, key);
        }
        if k < j {
            assert(text::before(t[k].0, t[j].0));
        }
    } else {
        let u = typedefs::put(t, key, def);
        assert(u[k] == (key, def));
    }
}

// ---------------------------------------------------------------------------
// Built-in generic types
// ---------------------------------------------------------------------------

/// A table that was made.
pub open spec fn table(t: Defs) -> model::Outcome<Defs> {
    Ok(t)
}

/// What is defined for slices, options and results: a struct with the members that
/// generated code reads.
pub proof fn law_wrapper_definitions(
    d: model::Decls,
    name: Seq<char>,
    args: Seq<ast::Type>,
    t: Defs,
    alias: Seq<char>,
    a: Seq<char>,
)
    requires
        args.len() > 0,
        model::type_c(d, ast::Type::Named { name, args }) == made(alias),
        model::type_c(d, args[0]) == made(a),
    ensures
        name == "Slice"@ && args.len() == 1 ==> typedefs::own_defs(d, name, args, t) == table(
            typedefs::put(
                t,
                alias,
                "typedef struct {\n    "@ + a + " *data;\n    size_t len;\n} "@ + alias + ";"@,
            ),
        ),
        name == "Option"@ && args.len() == 1 ==> typedefs::own_defs(d, name, args, t) == table(
            typedefs::put(
                t,
                alias,
                "typedef struct {\n    bool some;\n    "@ + a + " value;\n} "@ + alias + ";"@,
            ),
        ),
        name == "Result"@ && args.len() == 2 ==> (match model::type_c(d, args[1]) {
            Ok(b) => typedefs::own_defs(d, name, args, t) == table(
                typedefs::put(
                    t,
                    alias,
                    "typedef struct {\n    bool ok;\n    "@ + a + " value;\n    "@ + b + " error;\n} "@
                        + alias + ";"@,
                ),
            ),
            Err(f) => typedefs::own_defs(d, name, args, t) == Err::<Defs, error::Fault>(f),
        }),
        name == "Array"@ && args.len() == 2 ==> (args[1] matches ast::Type::Const { value }
            ==> typedefs::own_defs(d, name, args, t) == table(
            typedefs::put(
                t,
                alias,
                "typedef struct {\n    "@ + a + " data["@ + value + "];\n} "@ + alias + ";"@,
            ),
        )),
{
    lemma_generic_names();
}

/// What keeps a built-in generic type from being defined is told.
pub proof fn law_wrapper_faults(
    d: model::Decls,
    name: Seq<char>,
    args: Seq<ast::Type>,
    t: Defs,
)
    requires
        (name == "Slice"@ || name == "Option"@ || name == "Vec"@) && args.len() == 1 || name
            == "Result"@ && args.len() == 2,
    ensures
        match (model::type_c(d, ast::Type::Named { name, args }), model::type_c(d, args[0])) {
            (Err(f), _) => typedefs::own_defs(d, name, args, t) == Err::<Defs, error::Fault>(f),
            (Ok(_), Err(f)) => typedefs::own_defs(d, name, args, t) == Err::<Defs, error::Fault>(f),
            _ => true,
        },
{
    lemma_generic_names();
}

/// What is defined for vectors: the struct, and the functions that append, take off the
/// last element, insert and remove; for strings also the one that splits.
pub proof fn law_vector_definitions(
    d: model::Decls,
    args: Seq<ast::Type>,
    t: Defs,
    alias: Seq<char>,
    a: Seq<char>,
    s: Seq<char>,
)
    requires
        args.len() == 1,
        model::type_c(d, ast::Type::Named { name: "Vec"@, args }) == made(alias),
        model::type_c(d, args[0]) == made(a),
        model::suffix_c(d, args[0]) == made(s),
    ensures
        ({
            let t1 = typedefs::put(
                t,
                alias,
                "typedef struct {\n    "@ + a + " *data;\n    size_t len;\n    size_t cap;\n} "@ + alias
                    + ";"@,
            );
            let t2 = typedefs::put(
                t1,
                "__xlang_vec_push_"@ + s,
                "void "@ + ("__xlang_vec_push_"@ + s) + "("@ + alias + " *v, "@ + a
                    + " x) {\n    if (v->len == v->cap) {\n        v->cap = v->cap ? v->cap * 2 : 4;\n        v->data = ("@
                    + a + " *)realloc(v->data, v->cap * sizeof("@ + a
                    + "));\n    }\n    v->data[v->len++] = x;\n}"@,
            );
            let t3 = typedefs::put(
                t2,
                "__xlang_vec_pop_"@ + s,
                a + " "@ + ("__xlang_vec_pop_"@ + s) + "("@ + alias
                    + " *v) {\n    if (v->len == 0) return ("@ + a
                    + "){0};\n    return v->data[--v->len];\n}"@,
            );
            let t4 = typedefs::put(
                t3,
                "__xlang_vec_insert_"@ + s,
                "void "@ + ("__xlang_vec_insert_"@ + s) + "("@ + alias + " *v, size_t idx, "@ + a
                    + " x) {\n    if (v->len == v->cap) {\n        v->cap = v->cap ? v->cap * 2 : 4;\n        v->data = ("@
                    + a + " *)realloc(v->data, v->cap * sizeof("@ + a
                    + "));\n    }\n    if (idx > v->len) idx = v->len;\n    for (size_t i = v->len; i > idx; i--) v->data[i] = v->data[i-1];\n    v->data[idx] = x;\n    v->len++;\n}"@,
            );
            let t5 = typedefs::put(
                t4,
                "__xlang_vec_remove_"@ + s,
                a + " "@ + ("__xlang_vec_remove_"@ + s) + "("@ + alias
                    + " *v, size_t idx) {\n    if (v->len == 0) return ("@ + a + "){0};\n    "@ + a
                    + " old = v->data[idx];\n    for (size_t i = idx; i < v->len - 1; i++) v->data[i] = v->data[i+1];\n    v->len--;\n    return old;\n}"@,
            );
            typedefs::own_defs(d, "Vec"@, args, t) == table(
                if s == "String"@ {
                    typedefs::put(t5, "__xlang_str_split"@, typedefs::SPLIT@)
                } else {
                    t5
                },
            )
        }),
{
    lemma_generic_names();
}

/// A built-in generic type with a wrong number of arguments is told, and how many it
/// takes.
pub proof fn law_wrong_number_of_arguments(
    d: model::Decls,
    name: Seq<char>,
    args: Seq<ast::Type>,
    t: Defs,
)
    ensures
        (name == "Slice"@ || name == "Option"@ || name == "Vec"@) && args.len() != 1
            ==> typedefs::own_defs(d, name, args, t) == Err::<Defs, error::Fault>(
            error::Fault::Codegen(
                name + " expects exactly "@ + "one type argument"@ + ", got "@ + text::dec(args.len()),
            ),
        ),
        (name == "Array"@ || name == "Result"@) && args.len() != 2 ==> typedefs::own_defs(
            d,
            name,
            args,
            t,
        ) == Err::<Defs, error::Fault>(
            error::Fault::Codegen(
                name + " expects exactly "@ + "two type arguments"@ + ", got "@ + text::dec(args.len()),
            ),
        ),
        name != "Slice"@ && name != "Option"@ && name != "Vec"@ && name != "Array"@ && name
            != "Result"@ ==> typedefs::own_defs(d, name, args, t) == table(t),
{
    lemma_generic_names();
}

// ---------------------------------------------------------------------------
// Structs and enums
// ---------------------------------------------------------------------------

/// The members of a struct, one by one: its type and its name, on a line of its own.
pub proof fn law_next_member(d: model::Decls, fields: Seq<FieldDecl>, n: int)
    requires
        0 <= n < fields.len(),
    ensures
        typedefs::members_c(d, fields, 0) == made(Seq::empty()),
        match (typedefs::members_c(d, fields, n), model::type_c(d, fields[n].ty@)) {
            (Ok(out), Ok(t)) => typedefs::members_c(d, fields, n + 1) == made(
                out + ("    "@ + t + " "@ + fields[n].name@ + ";\n"@),
            ),
            (Err(f), _) => typedefs::members_c(d, fields, n + 1) == Err::<Seq<char>, error::Fault>(f),
            (Ok(_), Err(f)) => typedefs::members_c(d, fields, n + 1) == Err::<
                Seq<char>,
                error::Fault,
            >(f),
        },
{
    reveal_with_fuel(typedefs::members_c, 2);
}

/// A struct is a C struct of the same name with its members.
pub proof fn law_struct_definition(d: model::Decls, name: Seq<char>, fields: Seq<FieldDecl>)
    ensures
        match typedefs::members_c(d, fields, fields.len() as int) {
            Ok(members) => typedefs::struct_def(d, name, fields) == made(
                "typedef struct "@ + name + " {\n"@ + members + "} "@ + name + ";"@,
            ),
            Err(f) => typedefs::struct_def(d, name, fields) == Err::<Seq<char>, error::Fault>(f),
        },
{
}

/// The members of the union of an enum, one by one: the payload of the variant with
/// number `n`, if it has one, is the member with that number.
pub proof fn law_next_payload(d: model::Decls, variants: Seq<EnumVariant>, n: int)
    requires
        0 <= n < variants.len(),
    ensures
        typedefs::union_c(d, variants, 0) == made(Seq::empty()),
        typedefs::union_c(d, variants, n) is Err ==> typedefs::union_c(d, variants, n + 1)
            == typedefs::union_c(d, variants, n),
        typedefs::union_c(d, variants, n) matches Ok(out) ==> (match variants[n].payload {
            None => typedefs::union_c(d, variants, n + 1) == made(out),
            Some(ty) => match model::type_c(d, ty@) {
                Ok(t) => typedefs::union_c(d, variants, n + 1) == made(
                    out + ("        "@ + t + " v"@ + text::dec(n as nat) + ";\n"@),
                ),
                Err(f) => typedefs::union_c(d, variants, n + 1) == Err::<Seq<char>, error::Fault>(f),
            },
        }),
{
    reveal_with_fuel(typedefs::union_c, 2);
}

/// An enum with payloads is a C struct of the same name with a tag and the union.
pub proof fn law_enum_definition(d: model::Decls, name: Seq<char>, variants: Seq<EnumVariant>)
    ensures
        match typedefs::union_c(d, variants, variants.len() as int) {
            Ok(members) => typedefs::enum_def(d, name, variants) == made(
                "typedef struct "@ + name + " {\n    int32_t tag;\n    union {\n"@ + members
                    + "    } u;\n} "@ + name + ";"@,
            ),
            Err(f) => typedefs::enum_def(d, name, variants) == Err::<Seq<char>, error::Fault>(f),
        },
{
}

/// Whether an item is a struct, or an enum with a payload, of this name: what C has a
/// struct for.
pub open spec fn has_struct(item: Item, wanted: Seq<char>) -> bool {
    match item {
        Item::StructDecl { name, .. } => name@ == wanted,
        Item::EnumDecl { name, variants } => name@ == wanted && exists|k: int|
            0 <= k < variants@.len() && (#[trigger] variants@[k]).payload is Some,
        _ => false,
    }
}

/// What is declared ahead: every struct and every enum with a payload, in order, and
/// nothing else.
pub proof fn law_declared_ahead(items: Seq<Spanned<Item>>, n: int, name: Seq<char>)
    requires
        0 <= n < items.len(),
    ensures
        typedefs::forwards(items, 0) == Seq::<Seq<char>>::empty(),
        has_struct(items[n].node, name) ==> typedefs::forwards(items, n + 1) == typedefs::forwards(
            items,
            n,
        ).push("typedef struct "@ + name + " "@ + name + ";"@),
        !(exists|m: Seq<char>| has_struct(items[n].node, m)) ==> typedefs::forwards(items, n + 1)
            == typedefs::forwards(items, n),
{
    reveal_with_fuel(typedefs::forwards, 2);
    match items[n].node {
        Item::StructDecl { name: m, .. } => {
            assert(has_struct(items[n].node, m@));
        },
        Item::EnumDecl { name: m, variants } => {
            if typedefs::any_payload(variants@) {
                assert(has_struct(items[n].node, m@));
            }
        },
        _ => {},
    }
}

/// What each item adds to the table: a struct and an enum with payloads what their parts
/// need and then themselves, an alias and a function what their types need.
pub proof fn law_item_definitions(d: model::Decls, item: Item, t: Defs)
    ensures
        item matches Item::StructDecl { name, fields } ==> (match (
            typedefs::fields_defs(d, fields@, 0, t),
            typedefs::struct_def(d, name@, fields@),
        ) {
            (Ok(u), Ok(def)) => typedefs::item_defs(d, item, t) == table(
                typedefs::put(u, name@, def),
            ),
            (Err(f), _) => typedefs::item_defs(d, item, t) == Err::<Defs, error::Fault>(f),
            (Ok(_), Err(f)) => typedefs::item_defs(d, item, t) == Err::<Defs, error::Fault>(f),
        }),
        item matches Item::EnumDecl { name, variants } ==> (if has_struct(item, name@) {
            match (
                typedefs::payloads_defs(d, variants@, 0, t),
                typedefs::enum_def(d, name@, variants@),
            ) {
                (Ok(u), Ok(def)) => typedefs::item_defs(d, item, t) == table(
                    typedefs::put(u, name@, def),
                ),
                (Err(f), _) => typedefs::item_defs(d, item, t) == Err::<Defs, error::Fault>(f),
                (Ok(_), Err(f)) => typedefs::item_defs(d, item, t) == Err::<Defs, error::Fault>(f),
            }
        } else {
            typedefs::item_defs(d, item, t) == table(t)
        }),
        item matches Item::TypeAliasDecl { ty, .. } ==> typedefs::item_defs(d, item, t)
            == typedefs::type_defs(d, ty@, t),
{
}

/// The definitions of a program: what is declared ahead, and then all that was
/// collected, each definition by its text.
pub proof fn law_program_definitions(d: model::Decls, items: Seq<Spanned<Item>>, t: Defs, k: int)
    requires
        typedefs::items_defs(d, items, 0, Seq::empty()) == table(t),
        0 <= k < order::arranged(t).len(),
    ensures
        typedefs::program_defs(d, items) == Ok::<Seq<Seq<char>>, error::Fault>(
            typedefs::forwards(items, items.len() as int) + order::bodies(order::arranged(t)),
        ),
        order::bodies(order::arranged(t)).len() == order::arranged(t).len(),
        order::bodies(order::arranged(t))[k] == order::arranged(t)[k].1,
{
}

/// Which types only need their elements declared ahead: vectors and slices, of vectors
/// and slices and so on, of anything but options, results and arrays.
pub proof fn law_by_pointer(name: Seq<char>)
    ensures
        order::by_reference("Vec_"@ + name) <==> order::declared_ahead(name),
        order::by_reference("Slice_"@ + name) <==> order::declared_ahead(name),
        order::declared_ahead("Vec_"@ + name) <==> order::declared_ahead(name),
        order::declared_ahead("Slice_"@ + name) <==> order::declared_ahead(name),
        !text::begins_with(name, "Vec_"@) && !text::begins_with(name, "Slice_"@) ==> (
        order::declared_ahead(name) <==> !text::begins_with(name, "Option_"@) && !text::begins_with(
            name,
            "Result_"@,
        ) && !text::begins_with(name, "Array_"@)) && !order::by_reference(name),
{
    reveal_strlit("Vec_");
    reveal_strlit("Slice_");
    let v = "Vec_"@ + name;
    let s = "Slice_"@ + name;
    assert(v.subrange(0, 4) =~= "Vec_"@);
    assert(v.skip(4) =~= name);
    assert(s.subrange(0, 6) =~= "Slice_"@);
    assert(s.skip(6) =~= name);
    assert(s[0] == 'S');
    assert("Vec_"@[0] == 'V');
    assert(!text::begins_with(s, "Vec_"@)) by {
        if text::begins_with(s, "Vec_"@) {
            assert(s.subrange(0, 4)[0] == s[0]);
        }
    }
}

} // verus!
