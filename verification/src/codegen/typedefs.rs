//! The C types and helpers that a program needs, in an order in which C accepts
//! them.

use vstd::prelude::*;

use crate::ast;
use crate::ast::{EnumVariant, ElseBranch, FieldDecl, Item, MatchArm, Param, Program, Stmt, TypeNode};
use crate::codegen::c::CGen;
use crate::codegen::model;
use crate::codegen::order;
use crate::error;
use crate::error::{XError, XResult};
use crate::laws::collected as collecting;
use crate::source::Spanned;
use crate::text;

verus! {

broadcast use crate::codegen::c::lemma_view;

// ---------------------------------------------------------------------------
// A table of definitions
// ---------------------------------------------------------------------------

/// Definitions by name.
pub type Defs = Seq<(Seq<char>, Seq<char>)>;

/// The first place, from the `i`-th on, whose name does not come before `key`.
pub open spec fn slot(t: Defs, key: Seq<char>, i: int) -> int
    decreases t.len() - i,
{
    if i < 0 || i >= t.len() || !text::before(t[i].0, key) {
        i
    } else {
        slot(t, key, i + 1)
    }
}

/// The table with a definition at its place; one that is already there stays.
pub open spec fn put(t: Defs, key: Seq<char>, def: Seq<char>) -> Defs {
    let k = slot(t, key, 0);
    if k < t.len() && t[k].0 == key {
        t
    } else {
        t.insert(k, (key, def))
    }
}

/// Whether the names rise strictly, so that no name stands twice.
pub open spec fn rising(t: Defs) -> bool {
    forall|i: int, j: int| 0 <= i < j < t.len() ==> text::before(#[trigger] t[i].0, #[trigger] t[j].0)
}

/// Definitions by name, in the order of the names.
pub struct Table {
    entries: Vec<(String, String)>,
}

impl View for Table {
    type V = Defs;

    closed spec fn view(&self) -> Defs {
        self.entries@.map_values(|e: (String, String)| (e.0@, e.1@))
    }
}

impl Table {
    /// The empty table.
    pub fn new() -> (r: Table)
        ensures
            r@ == Seq::<(Seq<char>, Seq<char>)>::empty(),
    {
        let r = Table { entries: Vec::new() };
        assert(r@ =~= Seq::<(Seq<char>, Seq<char>)>::empty());
        r
    }

    /// Enter a definition, unless its name has one.
    fn put(&mut self, key: String, def: String)
        ensures
            final(self)@ == put(old(self)@, key@, def@),
    {
        let mut i: usize = 0;
        while i < self.entries.len() && text::comes_before(
            self.entries[i].0.as_str(),
            key.as_str(),
        )
            invariant
                i <= self.entries@.len(),
                self@ == old(self)@,
                self@.len() == self.entries@.len(),
                slot(self@, key@, 0) == slot(self@, key@, i as int),
            decreases self.entries@.len() - i,
        {
            i += 1;
        }
        assert(slot(self@, key@, 0) == i);
        if i < self.entries.len() && text::same(self.entries[i].0.as_str(), key.as_str()) {
            return;
        }
        self.entries.insert(i, (key, def));
        assert(self@ =~= old(self)@.insert(i as int, (key@, def@)));
    }

    /// Append the definitions in the order in which C accepts them.
    fn append_to(&self, out: &mut Vec<String>)
        ensures
            text::texts(final(out)@) == text::texts(old(out)@) + order::bodies(
                order::arranged(self@),
            ),
    {
        order::append_arranged(out, &self.entries);
    }
}

// ---------------------------------------------------------------------------
// What the definitions are
// ---------------------------------------------------------------------------

/// The helper that splits a string into a vector of strings.
pub const SPLIT: &'static str = r#"Vec_String __xlang_str_split(const char* s, char delim) {
    Vec_String v = {0};
    v.cap = 4;
    v.data = (const char**)malloc(v.cap * sizeof(const char*));
    size_t start = 0, i = 0;
    while (1) {
        char c = s[i];
        if (c == delim || c == 0) {
            size_t len = i - start;
            char* part = (char*)malloc(len + 1);
            memcpy(part, s + start, len);
            part[len] = 0;
            if (v.len == v.cap) { v.cap *= 2; v.data = (const char**)realloc(v.data, v.cap * sizeof(const char*)); }
            v.data[v.len++] = part;
            start = i + 1;
            if (c == 0) break;
        }
        i++;
    }
    return v;
}"#;

/// A slice: a pointer and a length.
pub open spec fn slice_def(alias: Seq<char>, elem: Seq<char>) -> Seq<char> {
    "typedef struct {\n    "@ + elem + " *data;\n    size_t len;\n} "@ + alias + ";"@
}

/// An array: its elements.
pub open spec fn array_def(alias: Seq<char>, elem: Seq<char>, len: Seq<char>) -> Seq<char> {
    "typedef struct {\n    "@ + elem + " data["@ + len + "];\n} "@ + alias + ";"@
}

/// An option: whether there is a value, and the value.
pub open spec fn option_def(alias: Seq<char>, payload: Seq<char>) -> Seq<char> {
    "typedef struct {\n    bool some;\n    "@ + payload + " value;\n} "@ + alias + ";"@
}

/// A result: whether it is a success, the value and the error.
pub open spec fn result_def(alias: Seq<char>, ok: Seq<char>, err: Seq<char>) -> Seq<char> {
    "typedef struct {\n    bool ok;\n    "@ + ok + " value;\n    "@ + err + " error;\n} "@ + alias
        + ";"@
}

/// A vector: a pointer, a length and a capacity.
pub open spec fn vec_def(alias: Seq<char>, elem: Seq<char>) -> Seq<char> {
    "typedef struct {\n    "@ + elem + " *data;\n    size_t len;\n    size_t cap;\n} "@ + alias
        + ";"@
}

/// The helper that appends to a vector.
pub open spec fn push_def(name: Seq<char>, alias: Seq<char>, elem: Seq<char>) -> Seq<char> {
    "void "@ + name + "("@ + alias + " *v, "@ + elem
        + " x) {\n    if (v->len == v->cap) {\n        v->cap = v->cap ? v->cap * 2 : 4;\n        v->data = ("@
        + elem + " *)realloc(v->data, v->cap * sizeof("@ + elem
        + "));\n    }\n    v->data[v->len++] = x;\n}"@
}

/// The helper that takes the last element off a vector.
pub open spec fn pop_def(name: Seq<char>, alias: Seq<char>, elem: Seq<char>) -> Seq<char> {
    elem + " "@ + name + "("@ + alias + " *v) {\n    if (v->len == 0) return ("@ + elem
        + "){0};\n    return v->data[--v->len];\n}"@
}

/// The helper that inserts into a vector.
pub open spec fn insert_def(name: Seq<char>, alias: Seq<char>, elem: Seq<char>) -> Seq<char> {
    "void "@ + name + "("@ + alias + " *v, size_t idx, "@ + elem
        + " x) {\n    if (v->len == v->cap) {\n        v->cap = v->cap ? v->cap * 2 : 4;\n        v->data = ("@
        + elem + " *)realloc(v->data, v->cap * sizeof("@ + elem
        + "));\n    }\n    if (idx > v->len) idx = v->len;\n    for (size_t i = v->len; i > idx; i--) v->data[i] = v->data[i-1];\n    v->data[idx] = x;\n    v->len++;\n}"@
}

/// The helper that removes an element of a vector.
pub open spec fn remove_def(name: Seq<char>, alias: Seq<char>, elem: Seq<char>) -> Seq<char> {
    elem + " "@ + name + "("@ + alias + " *v, size_t idx) {\n    if (v->len == 0) return ("@ + elem
        + "){0};\n    "@ + elem
        + " old = v->data[idx];\n    for (size_t i = idx; i < v->len - 1; i++) v->data[i] = v->data[i+1];\n    v->len--;\n    return old;\n}"@
}

/// The table with a vector type and its helpers.
pub open spec fn put_vec(t: Defs, alias: Seq<char>, elem: Seq<char>, suffix: Seq<char>) -> Defs {
    let push = "__xlang_vec_push_"@ + suffix;
    let pop = "__xlang_vec_pop_"@ + suffix;
    let insert = "__xlang_vec_insert_"@ + suffix;
    let remove = "__xlang_vec_remove_"@ + suffix;
    let t1 = put(t, alias, vec_def(alias, elem));
    let t2 = put(t1, push, push_def(push, alias, elem));
    let t3 = put(t2, pop, pop_def(pop, alias, elem));
    let t4 = put(t3, insert, insert_def(insert, alias, elem));
    let t5 = put(t4, remove, remove_def(remove, alias, elem));
    if suffix == "String"@ {
        put(t5, "__xlang_str_split"@, SPLIT@)
    } else {
        t5
    }
}

/// What is told where a built-in generic type has a wrong number of arguments.
pub open spec fn arity_fault(name: Seq<char>, wanted: Seq<char>, n: nat) -> error::Fault {
    error::Fault::Codegen(name + " expects exactly "@ + wanted + ", got "@ + text::dec(n))
}

/// The table with the definitions that a generic type itself needs.
pub open spec fn own_defs(d: model::Decls, name: Seq<char>, args: Seq<ast::Type>, t: Defs) -> model::Outcome<
    Defs,
> {
    let ty = ast::Type::Named { name, args };
    if name == "Slice"@ {
        if args.len() != 1 {
            Err(arity_fault("Slice"@, "one type argument"@, args.len()))
        } else {
            match model::type_c(d, ty) {
                Err(f) => Err(f),
                Ok(alias) => match model::type_c(d, args[0]) {
                    Err(f) => Err(f),
                    Ok(elem) => Ok(put(t, alias, slice_def(alias, elem))),
                },
            }
        }
    } else if name == "Array"@ {
        if args.len() != 2 {
            Err(arity_fault("Array"@, "two type arguments"@, args.len()))
        } else {
            match model::const_arg(args[1], "Array length"@) {
                Err(f) => Err(f),
                Ok(len) => match model::type_c(d, ty) {
                    Err(f) => Err(f),
                    Ok(alias) => match model::type_c(d, args[0]) {
                        Err(f) => Err(f),
                        Ok(elem) => Ok(put(t, alias, array_def(alias, elem, len))),
                    },
                },
            }
        }
    } else if name == "Option"@ {
        if args.len() != 1 {
            Err(arity_fault("Option"@, "one type argument"@, args.len()))
        } else {
            match model::type_c(d, ty) {
                Err(f) => Err(f),
                Ok(alias) => match model::type_c(d, args[0]) {
                    Err(f) => Err(f),
                    Ok(payload) => Ok(put(t, alias, option_def(alias, payload))),
                },
            }
        }
    } else if name == "Result"@ {
        if args.len() != 2 {
            Err(arity_fault("Result"@, "two type arguments"@, args.len()))
        } else {
            match model::type_c(d, ty) {
                Err(f) => Err(f),
                Ok(alias) => match model::type_c(d, args[0]) {
                    Err(f) => Err(f),
                    Ok(ok) => match model::type_c(d, args[1]) {
                        Err(f) => Err(f),
                        Ok(err) => Ok(put(t, alias, result_def(alias, ok, err))),
                    },
                },
            }
        }
    } else if name == "Vec"@ {
        if args.len() != 1 {
            Err(arity_fault("Vec"@, "one type argument"@, args.len()))
        } else {
            match model::type_c(d, ty) {
                Err(f) => Err(f),
                Ok(alias) => match model::type_c(d, args[0]) {
                    Err(f) => Err(f),
                    Ok(elem) => match model::suffix_c(d, args[0]) {
                        Err(f) => Err(f),
                        Ok(suffix) => Ok(put_vec(t, alias, elem, suffix)),
                    },
                },
            }
        }
    } else {
        Ok(t)
    }
}

/// The table with the definitions that a type needs, those of its arguments
/// first.
pub open spec fn type_defs(d: model::Decls, ty: ast::Type, t: Defs) -> model::Outcome<Defs>
    decreases ty, 0int,
{
    match ty {
        ast::Type::Const { .. } => Ok(t),
        ast::Type::Named { name, args } => match args_defs(d, args, 0, t) {
            Err(f) => Err(f),
            Ok(t) => own_defs(d, name, args, t),
        },
    }
}

/// The table with the definitions that the types from the `i`-th on need.
pub open spec fn args_defs(d: model::Decls, args: Seq<ast::Type>, i: int, t: Defs) -> model::Outcome<
    Defs,
>
    decreases args, args.len() - i,
{
    if i < 0 || i >= args.len() {
        Ok(t)
    } else {
        match type_defs(d, args[i], t) {
            Err(f) => Err(f),
            Ok(t) => args_defs(d, args, i + 1, t),
        }
    }
}

/// The table with the definitions that the statements from the `i`-th on need.
pub open spec fn stmts_defs(d: model::Decls, ss: Seq<Spanned<Stmt>>, i: int, t: Defs) -> model::Outcome<
    Defs,
>
    decreases ss, ss.len() - i,
{
    if i < 0 || i >= ss.len() {
        Ok(t)
    } else {
        match stmt_defs(d, ss[i], t) {
            Err(f) => Err(f),
            Ok(t) => stmts_defs(d, ss, i + 1, t),
        }
    }
}

/// The table with the definitions that the arms from the `i`-th on need.
pub open spec fn arms_defs(d: model::Decls, arms: Seq<MatchArm>, i: int, t: Defs) -> model::Outcome<
    Defs,
>
    decreases arms, arms.len() - i,
{
    if i < 0 || i >= arms.len() {
        Ok(t)
    } else {
        match stmts_defs(d, arms[i].body.statements@, 0, t) {
            Err(f) => Err(f),
            Ok(t) => arms_defs(d, arms, i + 1, t),
        }
    }
}

/// The table with the definitions that a statement needs: those of the types
/// that are declared in it.
pub open spec fn stmt_defs(d: model::Decls, s: Spanned<Stmt>, t: Defs) -> model::Outcome<Defs>
    decreases s, 0int,
{
    match s.node {
        Stmt::LetStmt { ty, .. } => type_defs(d, ty@, t),
        Stmt::IfStmt { then_block, else_branch, .. } => match stmts_defs(
            d,
            then_block.statements@,
            0,
            t,
        ) {
            Err(f) => Err(f),
            Ok(t) => match else_branch {
                Some(ElseBranch::Block(block)) => stmts_defs(d, block.statements@, 0, t),
                Some(ElseBranch::IfStmt(inner)) => stmt_defs(d, *inner, t),
                None => Ok(t),
            },
        },
        Stmt::ForStmt { body, .. } => stmts_defs(d, body.statements@, 0, t),
        Stmt::WhileStmt { body, .. } => stmts_defs(d, body.statements@, 0, t),
        Stmt::MatchStmt { arms, .. } => arms_defs(d, arms@, 0, t),
        _ => Ok(t),
    }
}

/// The members for the first `n` fields of a struct.
pub open spec fn members_c(d: model::Decls, fields: Seq<FieldDecl>, n: int) -> model::Outcome<
    Seq<char>,
>
    decreases n,
{
    if n <= 0 || n > fields.len() {
        Ok(Seq::empty())
    } else {
        match members_c(d, fields, n - 1) {
            Err(f) => Err(f),
            Ok(out) => match model::type_c(d, fields[n - 1].ty@) {
                Err(f) => Err(f),
                Ok(t) => Ok(out + ("    "@ + t + " "@ + fields[n - 1].name@ + ";\n"@)),
            },
        }
    }
}

/// The definition of a struct.
pub open spec fn struct_def(d: model::Decls, name: Seq<char>, fields: Seq<FieldDecl>) -> model::Outcome<
    Seq<char>,
> {
    match members_c(d, fields, fields.len() as int) {
        Err(f) => Err(f),
        Ok(members) => Ok(
            "typedef struct "@ + name + " {\n"@ + members + "} "@ + name + ";"@,
        ),
    }
}

/// The members of the union for the first `n` variants of an enum: one for each
/// payload, named by the variant's number.
pub open spec fn union_c(d: model::Decls, variants: Seq<EnumVariant>, n: int) -> model::Outcome<
    Seq<char>,
>
    decreases n,
{
    if n <= 0 || n > variants.len() {
        Ok(Seq::empty())
    } else {
        match union_c(d, variants, n - 1) {
            Err(f) => Err(f),
            Ok(out) => match variants[n - 1].payload {
                None => Ok(out),
                Some(ty) => match model::type_c(d, ty@) {
                    Err(f) => Err(f),
                    Ok(t) => Ok(out + ("        "@ + t + " v"@ + text::dec((n - 1) as nat) + ";\n"@)),
                },
            },
        }
    }
}

/// The definition of a payload enum: a tag and a union.
pub open spec fn enum_def(d: model::Decls, name: Seq<char>, variants: Seq<EnumVariant>) -> model::Outcome<
    Seq<char>,
> {
    match union_c(d, variants, variants.len() as int) {
        Err(f) => Err(f),
        Ok(members) => Ok(
            "typedef struct "@ + name + " {\n    int32_t tag;\n    union {\n"@ + members
                + "    } u;\n} "@ + name + ";"@,
        ),
    }
}

/// The table with the definitions that the fields from the `i`-th on need.
pub open spec fn fields_defs(d: model::Decls, fields: Seq<FieldDecl>, i: int, t: Defs) -> model::Outcome<
    Defs,
>
    decreases fields.len() - i,
{
    if i < 0 || i >= fields.len() {
        Ok(t)
    } else {
        match type_defs(d, fields[i].ty@, t) {
            Err(f) => Err(f),
            Ok(t) => fields_defs(d, fields, i + 1, t),
        }
    }
}

/// The table with the definitions that the payloads from the `i`-th on need.
pub open spec fn payloads_defs(d: model::Decls, variants: Seq<EnumVariant>, i: int, t: Defs) -> model::Outcome<
    Defs,
>
    decreases variants.len() - i,
{
    if i < 0 || i >= variants.len() {
        Ok(t)
    } else {
        match (match variants[i].payload {
            Some(ty) => type_defs(d, ty@, t),
            None => Ok(t),
        }) {
            Err(f) => Err(f),
            Ok(t) => payloads_defs(d, variants, i + 1, t),
        }
    }
}

/// The table with the definitions that the parameters from the `i`-th on need.
pub open spec fn params_defs(d: model::Decls, params: Seq<Param>, i: int, t: Defs) -> model::Outcome<
    Defs,
>
    decreases params.len() - i,
{
    if i < 0 || i >= params.len() {
        Ok(t)
    } else {
        match type_defs(d, params[i].ty@, t) {
            Err(f) => Err(f),
            Ok(t) => params_defs(d, params, i + 1, t),
        }
    }
}

/// The table with the definitions that a function needs.
pub open spec fn fn_defs(d: model::Decls, item: Item, t: Defs) -> model::Outcome<Defs> {
    match item {
        Item::FnDecl { params, return_type, body, .. } => match type_defs(d, return_type@, t) {
            Err(f) => Err(f),
            Ok(t) => match params_defs(d, params@, 0, t) {
                Err(f) => Err(f),
                Ok(t) => stmts_defs(d, body.statements@, 0, t),
            },
        },
        _ => Ok(t),
    }
}

/// The table with the definitions that the methods from the `i`-th on need.
pub open spec fn methods_defs(d: model::Decls, methods: Seq<Spanned<Item>>, i: int, t: Defs) -> model::Outcome<
    Defs,
>
    decreases methods.len() - i,
{
    if i < 0 || i >= methods.len() {
        Ok(t)
    } else {
        match fn_defs(d, methods[i].node, t) {
            Err(f) => Err(f),
            Ok(t) => methods_defs(d, methods, i + 1, t),
        }
    }
}

/// Whether a variant of the enum carries a payload.
pub open spec fn any_payload(variants: Seq<EnumVariant>) -> bool {
    exists|i: int| 0 <= i < variants.len() && (#[trigger] variants[i]).payload is Some
}

/// The table with the definitions that an item needs, and its own definition.
pub open spec fn item_defs(d: model::Decls, item: Item, t: Defs) -> model::Outcome<Defs> {
    match item {
        Item::StructDecl { name, fields } => match fields_defs(d, fields@, 0, t) {
            Err(f) => Err(f),
            Ok(t) => match struct_def(d, name@, fields@) {
                Err(f) => Err(f),
                Ok(def) => Ok(put(t, name@, def)),
            },
        },
        Item::TypeAliasDecl { ty, .. } => type_defs(d, ty@, t),
        Item::EnumDecl { name, variants } => if any_payload(variants@) {
            match payloads_defs(d, variants@, 0, t) {
                Err(f) => Err(f),
                Ok(t) => match enum_def(d, name@, variants@) {
                    Err(f) => Err(f),
                    Ok(def) => Ok(put(t, name@, def)),
                },
            }
        } else {
            Ok(t)
        },
        Item::FnDecl { .. } => fn_defs(d, item, t),
        Item::ImplDecl { methods, .. } => methods_defs(d, methods@, 0, t),
    }
}

/// The table with the definitions that the items from the `i`-th on need.
pub open spec fn items_defs(d: model::Decls, items: Seq<Spanned<Item>>, i: int, t: Defs) -> model::Outcome<
    Defs,
>
    decreases items.len() - i,
{
    if i < 0 || i >= items.len() {
        Ok(t)
    } else {
        match item_defs(d, items[i].node, t) {
            Err(f) => Err(f),
            Ok(t) => items_defs(d, items, i + 1, t),
        }
    }
}

/// The forward declaration of a struct.
pub open spec fn forward_c(name: Seq<char>) -> Seq<char> {
    "typedef struct "@ + name + " "@ + name + ";"@
}

/// The forward declarations for the first `n` items: for structs and payload
/// enums, so that types may refer to each other through pointers.
pub open spec fn forwards(items: Seq<Spanned<Item>>, n: int) -> Seq<Seq<char>>
    decreases n,
{
    if n <= 0 || n > items.len() {
        Seq::empty()
    } else {
        let out = forwards(items, n - 1);
        match items[n - 1].node {
            Item::StructDecl { name, .. } => out.push(forward_c(name@)),
            Item::EnumDecl { name, variants } => if any_payload(variants@) {
                out.push(forward_c(name@))
            } else {
                out
            },
            _ => out,
        }
    }
}

/// The C definitions of a program: forward declarations, then the collected
/// definitions in order.
pub open spec fn program_defs(d: model::Decls, items: Seq<Spanned<Item>>) -> model::Outcome<
    Seq<Seq<char>>,
> {
    match items_defs(d, items, 0, Seq::empty()) {
        Err(f) => Err(f),
        Ok(t) => Ok(forwards(items, items.len() as int) + order::bodies(order::arranged(t))),
    }
}

// ---------------------------------------------------------------------------
// Collecting
// ---------------------------------------------------------------------------

/// Whether a step of the collection went as the model says.
pub open spec fn collected(r: XResult<()>, after: Defs, wanted: model::Outcome<Defs>) -> bool {
    match wanted {
        Ok(t) => r is Ok && after == t,
        Err(f) => r is Err && r->Err_0@ == f,
    }
}

/// Whether collecting a type that turned `t` into `u` is complete: all that the type
/// needs is in `u`, each entry of `t` is too, and where the names of `t` rise, to
/// collect the type again changes nothing.
pub open spec fn complete_after(d: model::Decls, ty: ast::Type, t: Defs, u: Defs) -> bool {
    &&& collecting::complete(d, ty, u)
    &&& forall|i: int| 0 <= i < t.len() ==> u.contains(#[trigger] t[i])
    &&& rising(t) ==> rising(u) && type_defs(d, ty, u) == Ok::<Defs, error::Fault>(u)
}

proof fn lemma_complete_after(d: model::Decls, ty: ast::Type, t: Defs)
    ensures
        type_defs(d, ty, t) is Ok ==> complete_after(d, ty, t, type_defs(d, ty, t)->Ok_0),
{
    if type_defs(d, ty, t) is Ok {
        collecting::law_collecting_completes(d, ty, t);
        collecting::law_entries_stay(d, ty, t);
        if rising(t) {
            collecting::law_collecting_twice(d, ty, t);
        }
    }
}

/// The error for a wrong number of type arguments.
fn arity_error(name: &str, wanted: &str, n: usize) -> (r: XError)
    ensures
        r@ == arity_fault(name@, wanted@, n as nat),
{
    let number = text::decimal(n as u64);
    XError::Codegen(text::cat5(name, " expects exactly ", wanted, ", got ", number.as_str()))
}

/// Enter a vector type and its helpers.
fn enter_vec(table: &mut Table, alias: &str, elem: &str, suffix: &str)
    ensures
        final(table)@ == put_vec(old(table)@, alias@, elem@, suffix@),
{
    table.put(
        alias.to_string(),
        text::cat5(
            "typedef struct {\n    ",
            elem,
            " *data;\n    size_t len;\n    size_t cap;\n} ",
            alias,
            ";",
        ),
    );
    let push = text::cat2("__xlang_vec_push_", suffix);
    let front = text::cat6("void ", push.as_str(), "(", alias, " *v, ", elem);
    let def = text::cat6(
        front.as_str(),
        " x) {\n    if (v->len == v->cap) {\n        v->cap = v->cap ? v->cap * 2 : 4;\n        v->data = (",
        elem,
        " *)realloc(v->data, v->cap * sizeof(",
        elem,
        "));\n    }\n    v->data[v->len++] = x;\n}",
    );
    table.put(push, def);
    let pop = text::cat2("__xlang_vec_pop_", suffix);
    let front = text::cat5(elem, " ", pop.as_str(), "(", alias);
    let def = text::cat4(
        front.as_str(),
        " *v) {\n    if (v->len == 0) return (",
        elem,
        "){0};\n    return v->data[--v->len];\n}",
    );
    table.put(pop, def);
    let insert = text::cat2("__xlang_vec_insert_", suffix);
    let front = text::cat6("void ", insert.as_str(), "(", alias, " *v, size_t idx, ", elem);
    let def = text::cat6(
        front.as_str(),
        " x) {\n    if (v->len == v->cap) {\n        v->cap = v->cap ? v->cap * 2 : 4;\n        v->data = (",
        elem,
        " *)realloc(v->data, v->cap * sizeof(",
        elem,
        "));\n    }\n    if (idx > v->len) idx = v->len;\n    for (size_t i = v->len; i > idx; i--) v->data[i] = v->data[i-1];\n    v->data[idx] = x;\n    v->len++;\n}",
    );
    table.put(insert, def);
    let remove = text::cat2("__xlang_vec_remove_", suffix);
    let front = text::cat5(elem, " ", remove.as_str(), "(", alias);
    let def = text::cat6(
        front.as_str(),
        " *v, size_t idx) {\n    if (v->len == 0) return (",
        elem,
        "){0};\n    ",
        elem,
        " old = v->data[idx];\n    for (size_t i = idx; i < v->len - 1; i++) v->data[i] = v->data[i+1];\n    v->len--;\n    return old;\n}",
    );
    table.put(remove, def);
    if text::same(suffix, "String") {
        table.put("__xlang_str_split".to_string(), SPLIT.to_string());
    }
}

impl CGen {
    /// The definitions that a generic type itself needs.
    fn collect_own_typedefs(&self, ty: &TypeNode, table: &mut Table) -> (r: XResult<()>)
        requires
            ty is TypeExpr,
        ensures
            collected(
                r,
                final(table)@,
                own_defs(self.decls(), ty@->name, ty@->args, old(table)@),
            ),
    {
        proof {
            ast::lemma_args(*ty);
        }
        let (name, args) = match ty {
            TypeNode::TypeExpr { name, args } => (name.as_str(), args),
            TypeNode::ConstTypeArg { .. } => {
                return Ok(());
            },
        };
        if text::same(name, "Slice") {
            if args.len() != 1 {
                return Err(arity_error("Slice", "one type argument", args.len()));
            }
            let alias = self.c_type(ty)?;
            let elem = self.c_type(&args[0])?;
            let def = text::cat5(
                "typedef struct {\n    ",
                elem.as_str(),
                " *data;\n    size_t len;\n} ",
                alias.as_str(),
                ";",
            );
            table.put(alias, def);
        } else if text::same(name, "Array") {
            if args.len() != 2 {
                return Err(arity_error("Array", "two type arguments", args.len()));
            }
            let len = self.const_type_arg_value(&args[1], "Array length")?;
            let alias = self.c_type(ty)?;
            let elem = self.c_type(&args[0])?;
            let def = text::cat7(
                "typedef struct {\n    ",
                elem.as_str(),
                " data[",
                len.as_str(),
                "];\n} ",
                alias.as_str(),
                ";",
            );
            table.put(alias, def);
        } else if text::same(name, "Option") {
            if args.len() != 1 {
                return Err(arity_error("Option", "one type argument", args.len()));
            }
            let alias = self.c_type(ty)?;
            let payload = self.c_type(&args[0])?;
            let def = text::cat5(
                "typedef struct {\n    bool some;\n    ",
                payload.as_str(),
                " value;\n} ",
                alias.as_str(),
                ";",
            );
            table.put(alias, def);
        } else if text::same(name, "Result") {
            if args.len() != 2 {
                return Err(arity_error("Result", "two type arguments", args.len()));
            }
            let alias = self.c_type(ty)?;
            let ok = self.c_type(&args[0])?;
            let err = self.c_type(&args[1])?;
            let def = text::cat7(
                "typedef struct {\n    bool ok;\n    ",
                ok.as_str(),
                " value;\n    ",
                err.as_str(),
                " error;\n} ",
                alias.as_str(),
                ";",
            );
            table.put(alias, def);
        } else if text::same(name, "Vec") {
            if args.len() != 1 {
                return Err(arity_error("Vec", "one type argument", args.len()));
            }
            let alias = self.c_type(ty)?;
            let elem = self.c_type(&args[0])?;
            let suffix = self.c_type_suffix(&args[0])?;
            enter_vec(table, alias.as_str(), elem.as_str(), suffix.as_str());
        }
        Ok(())
    }

    /// The definitions that a type needs. Afterwards all that the type needs is in
    /// the table, what was there still is, and to do it again changes nothing.
    pub fn collect_type_typedefs(&self, ty: &TypeNode, table: &mut Table) -> (r: XResult<()>)
        ensures
            collected(r, final(table)@, type_defs(self@.ctx.decls, ty@, old(table)@)),
            r is Ok ==> complete_after(self@.ctx.decls, ty@, old(table)@, final(table)@),
        decreases ty,
    {
        proof {
            lemma_complete_after(self.decls(), ty@, table@);
        }
        proof {
            ast::lemma_args(*ty);
        }
        match ty {
            TypeNode::ConstTypeArg { .. } => Ok(()),
            TypeNode::TypeExpr { name, args } => {
                let ghost types = ast::types_of(args@);
                let mut i: usize = 0;
                while i < args.len()
                    invariant
                        i <= args@.len(),
                        *ty is TypeExpr,
                        ty->args == *args,
                        types == ast::types_of(args@),
                        args_defs(self.decls(), types, 0, old(table)@) == args_defs(
                            self.decls(),
                            types,
                            i as int,
                            table@,
                        ),
                        ty@ == (ast::Type::Named { name: name@, args: types }),
                    decreases args@.len() - i,
                {
                    assert(decreases_to!(*ty => ty->args));
                    assert(types[i as int] == args@[i as int]@);
                    self.collect_type_typedefs(&args[i], table)?;
                    i += 1;
                }
                self.collect_own_typedefs(ty, table)
            },
        }
    }

    /// The definitions that statements need.
    fn collect_block_typedefs(&self, ss: &Vec<Spanned<Stmt>>, table: &mut Table) -> (r: XResult<()>)
        ensures
            collected(r, final(table)@, stmts_defs(self.decls(), ss@, 0, old(table)@)),
        decreases ss@, ss@.len(),
    {
        let mut i: usize = 0;
        while i < ss.len()
            invariant
                i <= ss@.len(),
                stmts_defs(self.decls(), ss@, 0, old(table)@) == stmts_defs(
                    self.decls(),
                    ss@,
                    i as int,
                    table@,
                ),
            decreases ss@.len() - i,
        {
            self.collect_stmt_typedefs(&ss[i], table)?;
            i += 1;
        }
        Ok(())
    }

    fn collect_arms_typedefs(&self, arms: &Vec<MatchArm>, table: &mut Table) -> (r: XResult<()>)
        ensures
            collected(r, final(table)@, arms_defs(self.decls(), arms@, 0, old(table)@)),
        decreases arms@, arms@.len(),
    {
        let mut i: usize = 0;
        while i < arms.len()
            invariant
                i <= arms@.len(),
                arms_defs(self.decls(), arms@, 0, old(table)@) == arms_defs(
                    self.decls(),
                    arms@,
                    i as int,
                    table@,
                ),
            decreases arms@.len() - i,
        {
            assert(decreases_to!(arms@ => arms@[i as int]));
            self.collect_block_typedefs(&arms[i].body.statements, table)?;
            i += 1;
        }
        Ok(())
    }

    /// The definitions that a statement needs.
    fn collect_stmt_typedefs(&self, stmt: &Spanned<Stmt>, table: &mut Table) -> (r: XResult<()>)
        ensures
            collected(r, final(table)@, stmt_defs(self.decls(), *stmt, old(table)@)),
        decreases stmt, 0int,
    {
        match &stmt.node {
            Stmt::LetStmt { ty, .. } => self.collect_type_typedefs(ty, table),
            Stmt::IfStmt { then_block, else_branch, .. } => {
                self.collect_block_typedefs(&then_block.statements, table)?;
                match else_branch {
                    Some(ElseBranch::Block(block)) => self.collect_block_typedefs(
                        &block.statements,
                        table,
                    ),
                    Some(ElseBranch::IfStmt(inner)) => self.collect_stmt_typedefs(inner, table),
                    None => Ok(()),
                }
            },
            Stmt::ForStmt { body, .. } => self.collect_block_typedefs(&body.statements, table),
            Stmt::WhileStmt { body, .. } => self.collect_block_typedefs(&body.statements, table),
            Stmt::MatchStmt { arms, .. } => self.collect_arms_typedefs(arms, table),
            Stmt::ReturnStmt { .. } => Ok(()),
            Stmt::ExprStmt { .. } => Ok(()),
            Stmt::BreakStmt => Ok(()),
            Stmt::ContinueStmt => Ok(()),
        }
    }

    /// The definition of a struct.
    fn struct_def(&self, name: &str, fields: &Vec<FieldDecl>) -> (r: XResult<String>)
        ensures
            error::outcome(r) == struct_def(self.decls(), name@, fields@),
    {
        let mut members = String::new();
        let mut i: usize = 0;
        assert(members@ =~= Seq::<char>::empty());
        while i < fields.len()
            invariant
                i <= fields@.len(),
                members_c(self.decls(), fields@, i as int) == Ok::<Seq<char>, error::Fault>(
                    members@,
                ),
            decreases fields@.len() - i,
        {
            match self.c_type(&fields[i].ty) {
                Ok(t) => {
                    let member = text::cat5(
                        "    ",
                        t.as_str(),
                        " ",
                        fields[i].name.as_str(),
                        ";\n",
                    );
                    members.append(member.as_str());
                },
                Err(e) => {
                    proof {
                        lemma_members_fail(self.decls(), fields@, i + 1, fields@.len() as int);
                    }
                    return Err(e);
                },
            }
            i += 1;
        }
        Ok(
            text::cat7("typedef struct ", name, " {\n", members.as_str(), "} ", name, ";"),
        )
    }

    /// The definition of a payload enum.
    fn enum_def(&self, name: &str, variants: &Vec<EnumVariant>) -> (r: XResult<String>)
        ensures
            error::outcome(r) == enum_def(self.decls(), name@, variants@),
    {
        let mut members = String::new();
        let mut i: usize = 0;
        assert(members@ =~= Seq::<char>::empty());
        while i < variants.len()
            invariant
                i <= variants@.len(),
                union_c(self.decls(), variants@, i as int) == Ok::<Seq<char>, error::Fault>(
                    members@,
                ),
            decreases variants@.len() - i,
        {
            if let Some(ty) = &variants[i].payload {
                match self.c_type(ty) {
                    Ok(t) => {
                        let number = text::decimal(i as u64);
                        let member = text::cat5(
                            "        ",
                            t.as_str(),
                            " v",
                            number.as_str(),
                            ";\n",
                        );
                        members.append(member.as_str());
                    },
                    Err(e) => {
                        proof {
                            lemma_union_fail(
                                self.decls(),
                                variants@,
                                i + 1,
                                variants@.len() as int,
                            );
                        }
                        return Err(e);
                    },
                }
            }
            i += 1;
        }
        Ok(
            text::cat7(
                "typedef struct ",
                name,
                " {\n    int32_t tag;\n    union {\n",
                members.as_str(),
                "    } u;\n} ",
                name,
                ";",
            ),
        )
    }

    /// The definitions that a function needs.
    fn collect_fn_typedefs(&self, item: &Item, table: &mut Table) -> (r: XResult<()>)
        ensures
            collected(r, final(table)@, fn_defs(self.decls(), *item, old(table)@)),
    {
        match item {
            Item::FnDecl { params, return_type, body, .. } => {
                self.collect_type_typedefs(return_type, table)?;
                let ghost begun = table@;
                let mut i: usize = 0;
                while i < params.len()
                    invariant
                        i <= params@.len(),
                        *item is FnDecl,
                        item->params == *params,
                        item->return_type == *return_type,
                        type_defs(self.decls(), return_type@, old(table)@) == Ok::<
                            Defs,
                            error::Fault,
                        >(begun),
                        params_defs(self.decls(), params@, 0, begun) == params_defs(
                            self.decls(),
                            params@,
                            i as int,
                            table@,
                        ),
                    decreases params@.len() - i,
                {
                    self.collect_type_typedefs(&params[i].ty, table)?;
                    i += 1;
                }
                self.collect_block_typedefs(&body.statements, table)
            },
            _ => Ok(()),
        }
    }

    /// The definitions that an item needs, and its own.
    fn collect_item_typedefs(&self, item: &Item, table: &mut Table) -> (r: XResult<()>)
        ensures
            collected(r, final(table)@, item_defs(self.decls(), *item, old(table)@)),
    {
        match item {
            Item::StructDecl { name, fields } => {
                let mut i: usize = 0;
                while i < fields.len()
                    invariant
                        i <= fields@.len(),
                        *item is StructDecl,
                        item->fields == *fields,
                        fields_defs(self.decls(), fields@, 0, old(table)@) == fields_defs(
                            self.decls(),
                            fields@,
                            i as int,
                            table@,
                        ),
                    decreases fields@.len() - i,
                {
                    self.collect_type_typedefs(&fields[i].ty, table)?;
                    i += 1;
                }
                let def = self.struct_def(name.as_str(), fields)?;
                table.put(name.clone(), def);
                Ok(())
            },
            Item::TypeAliasDecl { ty, .. } => self.collect_type_typedefs(ty, table),
            Item::EnumDecl { name, variants } => {
                if has_any_payload(variants) {
                    let mut i: usize = 0;
                    while i < variants.len()
                        invariant
                            i <= variants@.len(),
                            *item is EnumDecl,
                            item->variants == *variants,
                            any_payload(variants@),
                            payloads_defs(self.decls(), variants@, 0, old(table)@)
                                == payloads_defs(self.decls(), variants@, i as int, table@),
                        decreases variants@.len() - i,
                    {
                        if let Some(ty) = &variants[i].payload {
                            self.collect_type_typedefs(ty, table)?;
                        }
                        i += 1;
                    }
                    let def = self.enum_def(name.as_str(), variants)?;
                    table.put(name.clone(), def);
                }
                Ok(())
            },
            Item::FnDecl { .. } => self.collect_fn_typedefs(item, table),
            Item::ImplDecl { methods, .. } => {
                let mut i: usize = 0;
                while i < methods.len()
                    invariant
                        i <= methods@.len(),
                        *item is ImplDecl,
                        item->methods == *methods,
                        methods_defs(self.decls(), methods@, 0, old(table)@) == methods_defs(
                            self.decls(),
                            methods@,
                            i as int,
                            table@,
                        ),
                    decreases methods@.len() - i,
                {
                    self.collect_fn_typedefs(&methods[i].node, table)?;
                    i += 1;
                }
                Ok(())
            },
        }
    }

    /// The C definitions of a program.
    pub(crate) fn collect_runtime_typedefs(&self, program: &Program) -> (r: XResult<Vec<String>>)
        ensures
            match program_defs(self.decls(), program.items@) {
                Ok(lines) => r is Ok && text::texts(r->Ok_0@) == lines,
                Err(f) => r is Err && r->Err_0@ == f,
            },
    {
        let mut table = Table::new();
        let ghost items = program.items@;
        let mut i: usize = 0;
        while i < program.items.len()
            invariant
                i <= items.len(),
                items == program.items@,
                items_defs(self.decls(), items, 0, Seq::empty()) == items_defs(
                    self.decls(),
                    items,
                    i as int,
                    table@,
                ),
            decreases items.len() - i,
        {
            self.collect_item_typedefs(&program.items[i].node, &mut table)?;
            i += 1;
        }
        let mut out = forward_declarations(program);
        table.append_to(&mut out);
        Ok(out)
    }
}

/// Whether a variant of the enum carries a payload.
fn has_any_payload(variants: &Vec<EnumVariant>) -> (r: bool)
    ensures
        r == any_payload(variants@),
{
    let mut i: usize = 0;
    while i < variants.len()
        invariant
            i <= variants@.len(),
            forall|k: int| 0 <= k < i ==> (#[trigger] variants@[k]).payload is None,
        decreases variants@.len() - i,
    {
        if variants[i].payload.is_some() {
            return true;
        }
        i += 1;
    }
    false
}

/// The forward declarations of a program.
fn forward_declarations(program: &Program) -> (r: Vec<String>)
    ensures
        text::texts(r@) == forwards(program.items@, program.items@.len() as int),
{
    let mut out: Vec<String> = Vec::new();
    let mut i: usize = 0;
    assert(text::texts(out@) =~= Seq::<Seq<char>>::empty());
    while i < program.items.len()
        invariant
            i <= program.items@.len(),
            text::texts(out@) == forwards(program.items@, i as int),
        decreases program.items@.len() - i,
    {
        let name = match &program.items[i].node {
            Item::StructDecl { name, .. } => Some(name.as_str()),
            Item::EnumDecl { name, variants } => if has_any_payload(variants) {
                Some(name.as_str())
            } else {
                None
            },
            _ => None,
        };
        if let Some(name) = name {
            let line = text::cat5("typedef struct ", name, " ", name, ";");
            let ghost before = out@;
            out.push(line);
            assert(text::texts(out@) =~= text::texts(before).push(line@));
        }
        i += 1;
    }
    out
}

proof fn lemma_members_fail(d: model::Decls, fields: Seq<FieldDecl>, i: int, n: int)
    requires
        0 <= i <= n <= fields.len(),
        members_c(d, fields, i) is Err,
    ensures
        members_c(d, fields, n) == members_c(d, fields, i),
    decreases n - i,
{
    if i < n {
        lemma_members_fail(d, fields, i, n - 1);
    }
}

proof fn lemma_union_fail(d: model::Decls, variants: Seq<EnumVariant>, i: int, n: int)
    requires
        0 <= i <= n <= variants.len(),
        union_c(d, variants, i) is Err,
    ensures
        union_c(d, variants, n) == union_c(d, variants, i),
    decreases n - i,
{
    if i < n {
        lemma_union_fail(d, variants, i, n - 1);
    }
}

} // verus!
