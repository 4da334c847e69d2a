//! What the generator knows and what it has written, as mathematical values.

use vstd::prelude::*;

use crate::aliases;
use crate::ast;
use crate::ast::{EnumVariant, FieldDecl, Item, Param};
use crate::error::Fault;
use crate::scopes;
use crate::source::{Span, Spanned};
use crate::text;

verus! {

/// A value, or what kept it from being made.
pub type Outcome<T> = Result<T, Fault>;

/// The declarations of a program, and the types of its expressions.
#[verifier::ext_equal]
pub struct Decls {
    /// The structs.
    pub structs: Set<Seq<char>>,
    /// The fields of each struct, in order.
    pub fields: Map<Seq<char>, Seq<(Seq<char>, ast::Type)>>,
    /// The enums.
    pub enums: Set<Seq<char>>,
    /// The number of each variant within its enum.
    pub values: Map<Seq<char>, i32>,
    /// The payload of each variant of an enum, in order.
    pub payloads: Map<Seq<char>, Seq<Option<ast::Type>>>,
    /// The enum that a variant belongs to.
    pub owners: Map<Seq<char>, Seq<char>>,
    /// The type aliases.
    pub aliases: aliases::Known,
    /// The types of expressions.
    pub types: Map<Span, ast::Type>,
    /// The methods, by type and name.
    pub methods: Set<(Seq<char>, Seq<char>)>,
    /// The methods that take `self` by pointer.
    pub by_pointer: Set<(Seq<char>, Seq<char>)>,
}

/// What an expression is rendered against.
#[verifier::ext_equal]
pub struct Ctx {
    pub decls: Decls,
    /// The types of the variables in scope.
    pub vars: Seq<Map<Seq<char>, ast::Type>>,
    /// Whether `self` is a pointer here.
    pub mut_self: bool,
}

/// A state of the generator.
#[verifier::ext_equal]
pub struct State {
    pub ctx: Ctx,
    /// The lines written so far.
    pub lines: Seq<Seq<char>>,
    /// The indentation of the next line.
    pub pad: Seq<char>,
    /// How many temporaries were handed out.
    pub temps: usize,
    /// The return type of the function that is being written.
    pub ret: Option<ast::Type>,
    /// Whether a TLS builtin was called.
    pub tls: bool,
}

/// A piece of C, and whether a TLS builtin is called in it.
#[verifier::ext_equal]
pub struct Code {
    pub text: Seq<char>,
    pub tls: bool,
}

// ---------------------------------------------------------------------------
// Declarations
// ---------------------------------------------------------------------------

/// Nothing declared.
pub open spec fn no_decls(types: Map<Span, ast::Type>) -> Decls {
    Decls {
        structs: Set::empty(),
        fields: Map::empty(),
        enums: Set::empty(),
        values: Map::empty(),
        payloads: Map::empty(),
        owners: Map::empty(),
        aliases: aliases::no_aliases(),
        types,
        methods: Set::empty(),
        by_pointer: Set::empty(),
    }
}

/// The names and types of a struct's fields.
pub open spec fn field_types(fields: Seq<FieldDecl>) -> Seq<(Seq<char>, ast::Type)> {
    fields.map_values(|f: FieldDecl| (f.name@, f.ty@))
}

/// The type of a payload.
pub open spec fn payload_type(p: Option<ast::TypeNode>) -> Option<ast::Type> {
    match p {
        Some(t) => Some(t@),
        None => None,
    }
}

/// The payloads of an enum's variants.
pub open spec fn payload_types(variants: Seq<EnumVariant>) -> Seq<Option<ast::Type>> {
    variants.map_values(|v: EnumVariant| payload_type(v.payload))
}

/// The declarations with the variants of enum `name` from the `i`-th on; a
/// variant's number is its position.
pub open spec fn with_variants(d: Decls, name: Seq<char>, variants: Seq<EnumVariant>, i: int) -> Decls
    decreases variants.len() - i,
{
    if i < 0 || i >= variants.len() {
        d
    } else {
        with_variants(
            Decls {
                values: d.values.insert(variants[i].name@, i as i32),
                owners: d.owners.insert(variants[i].name@, name),
                ..d
            },
            name,
            variants,
            i + 1,
        )
    }
}

/// The declarations with a struct.
pub open spec fn with_struct(d: Decls, name: Seq<char>, fields: Seq<FieldDecl>) -> Decls {
    Decls {
        structs: d.structs.insert(name),
        fields: d.fields.insert(name, field_types(fields)),
        ..d
    }
}

/// The declarations with an enum and its variants.
pub open spec fn with_enum(d: Decls, name: Seq<char>, variants: Seq<EnumVariant>) -> Decls {
    let e = with_variants(Decls { enums: d.enums.insert(name), ..d }, name, variants, 0);
    Decls { payloads: e.payloads.insert(name, payload_types(variants)), ..e }
}

/// The declarations with those of one item.
pub open spec fn with_item(d: Decls, item: Item) -> Decls {
    match item {
        Item::StructDecl { name, fields } => with_struct(d, name@, fields@),
        Item::EnumDecl { name, variants } => with_enum(d, name@, variants@),
        _ => d,
    }
}

/// The declarations with the structs and enums among the items from the `i`-th on.
pub open spec fn with_items(d: Decls, items: Seq<Spanned<Item>>, i: int) -> Decls
    decreases items.len() - i,
{
    if i < 0 || i >= items.len() {
        d
    } else {
        with_items(with_item(d, items[i].node), items, i + 1)
    }
}

/// Whether a method takes its receiver by pointer: its first parameter is
/// `mut self`.
pub open spec fn takes_pointer(params: Seq<Param>) -> bool {
    params.len() > 0 && params[0].mutable && params[0].name@ == "self"@
}

/// The declarations with the methods of type `target` from the `i`-th on.
pub open spec fn with_methods(
    d: Decls,
    target: Seq<char>,
    methods: Seq<Spanned<Item>>,
    i: int,
) -> Decls
    decreases methods.len() - i,
{
    if i < 0 || i >= methods.len() {
        d
    } else {
        with_methods(
            match methods[i].node {
                Item::FnDecl { name, params, .. } => Decls {
                    methods: d.methods.insert((target, name@)),
                    by_pointer: if takes_pointer(params@) {
                        d.by_pointer.insert((target, name@))
                    } else {
                        d.by_pointer
                    },
                    ..d
                },
                _ => d,
            },
            target,
            methods,
            i + 1,
        )
    }
}

/// The declarations with the methods of the `impl` items from the `i`-th on.
pub open spec fn with_impls(d: Decls, items: Seq<Spanned<Item>>, i: int) -> Decls
    decreases items.len() - i,
{
    if i < 0 || i >= items.len() {
        d
    } else {
        with_impls(
            match items[i].node {
                Item::ImplDecl { target, methods } => with_methods(
                    d,
                    owner_name(d, target@),
                    methods@,
                    0,
                ),
                _ => d,
            },
            items,
            i + 1,
        )
    }
}

/// The declarations with the aliases of a program.
pub open spec fn with_aliases(d: Decls, items: Seq<Spanned<Item>>) -> Decls {
    Decls { aliases: aliases::of_items(items), ..d }
}

/// The declarations with those of a program.
pub open spec fn with_program(d: Decls, items: Seq<Spanned<Item>>) -> Decls {
    with_impls(with_aliases(with_items(d, items, 0), items), items, 0)
}

/// The struct or enum that a name stands for.
pub open spec fn owner_name(d: Decls, name: Seq<char>) -> Seq<char> {
    aliases::meant_name(d.aliases, name)
}

/// Whether a variant of enum `name` carries a payload.
pub open spec fn has_payload(d: Decls, name: Seq<char>) -> bool {
    d.payloads.dom().contains(name) && exists|i: int|
        0 <= i < d.payloads[name].len() && (#[trigger] d.payloads[name][i]) is Some
}

/// The C function that a method becomes.
pub open spec fn method_name(target: Seq<char>, name: Seq<char>) -> Seq<char> {
    "__xlang_method_"@ + target + "_"@ + name
}

// ---------------------------------------------------------------------------
// Types
// ---------------------------------------------------------------------------

/// The constant in a type argument.
pub open spec fn const_arg(t: ast::Type, label: Seq<char>) -> Outcome<Seq<char>> {
    match t {
        ast::Type::Const { value } => Ok(value),
        ast::Type::Named { name, .. } => Err(
            Fault::Codegen(label + " must be a constant integer, got type "@ + name),
        ),
    }
}

/// What a C type name is made of: the prefix and the suffix of an argument.
pub open spec fn prefixed(prefix: Seq<char>, s: Outcome<Seq<char>>) -> Outcome<Seq<char>> {
    match s {
        Ok(s) => Ok(prefix + s),
        Err(f) => Err(f),
    }
}

/// The name of the C struct for a built-in generic type; nothing where `name`
/// is no such type or takes another number of arguments.
pub open spec fn generic_c(d: Decls, name: Seq<char>, args: Seq<ast::Type>) -> Option<
    Outcome<Seq<char>>,
>
    decreases args,
{
    if name == "Slice"@ && args.len() == 1 {
        Some(prefixed("Slice_"@, known_suffix_c(d, args[0])))
    } else if name == "Array"@ && args.len() == 2 {
        Some(
            match known_suffix_c(d, args[0]) {
                Err(f) => Err(f),
                Ok(s) => prefixed("Array_"@ + s + "_"@, const_arg(args[1], "Array length"@)),
            },
        )
    } else if name == "Option"@ && args.len() == 1 {
        Some(prefixed("Option_"@, known_suffix_c(d, args[0])))
    } else if name == "Result"@ && args.len() == 2 {
        Some(
            match known_suffix_c(d, args[0]) {
                Err(f) => Err(f),
                Ok(s) => prefixed("Result_"@ + s + "_"@, known_suffix_c(d, args[1])),
            },
        )
    } else if name == "Vec"@ && args.len() == 1 {
        Some(prefixed("Vec_"@, known_suffix_c(d, args[0])))
    } else {
        None
    }
}

/// How a type without aliases appears inside the name of a generated C type.
pub open spec fn known_suffix_c(d: Decls, t: ast::Type) -> Outcome<Seq<char>>
    decreases t,
{
    match t {
        ast::Type::Const { value } => Err(
            Fault::Codegen("unexpected const type argument in C type suffix: "@ + value),
        ),
        ast::Type::Named { name, args } => if args.len() == 0 {
            if name == "i32"@ || name == "i64"@ || name == "f32"@ || name == "f64"@ || name
                == "bool"@ || name == "String"@ || name == "Str"@ || d.structs.contains(name)
                || d.enums.contains(name) {
                Ok(name)
            } else {
                Err(
                    Fault::Codegen(
                        "C backend does not support "@ + name + " as a generated type suffix yet"@,
                    ),
                )
            }
        } else {
            match generic_c(d, name, args) {
                Some(r) => r,
                None => Err(
                    Fault::Codegen(
                        "C backend does not support "@ + name
                            + "<...> as a generated type suffix yet"@,
                    ),
                ),
            }
        },
    }
}

/// The C type for a type without arguments.
pub open spec fn plain_c(d: Decls, name: Seq<char>) -> Outcome<Seq<char>> {
    if name == "i32"@ {
        Ok("int32_t"@)
    } else if name == "i64"@ {
        Ok("int64_t"@)
    } else if name == "f32"@ {
        Ok("float"@)
    } else if name == "f64"@ {
        Ok("double"@)
    } else if name == "bool"@ {
        Ok("bool"@)
    } else if name == "String"@ || name == "Str"@ {
        Ok("const char *"@)
    } else if d.structs.contains(name) {
        Ok(name)
    } else if d.enums.contains(name) {
        if has_payload(d, name) {
            Ok(name)
        } else {
            Ok("int32_t"@)
        }
    } else {
        Err(Fault::Codegen("C backend does not support type yet: "@ + name))
    }
}

/// The C type for a type without aliases: scalars by their C names, structs and
/// payload enums by their own, enums without payloads as integers, built-in
/// generic types by the name of their struct.
pub open spec fn known_type_c(d: Decls, t: ast::Type) -> Outcome<Seq<char>> {
    match t {
        ast::Type::Const { value } => Err(
            Fault::Codegen("unexpected const type argument in C type position: "@ + value),
        ),
        ast::Type::Named { name, args } => if args.len() == 0 {
            plain_c(d, name)
        } else {
            match generic_c(d, name, args) {
                Some(r) => r,
                None => Err(
                    Fault::Codegen("C backend does not support generic type yet: "@ + name + "<...>"@),
                ),
            }
        },
    }
}

/// How a type appears inside the name of a generated C type; an alias appears as
/// what it stands for.
pub open spec fn suffix_c(d: Decls, t: ast::Type) -> Outcome<Seq<char>> {
    known_suffix_c(d, aliases::meant(d.aliases, t))
}

/// The C type for a type; an alias is written as what it stands for.
pub open spec fn type_c(d: Decls, t: ast::Type) -> Outcome<Seq<char>> {
    known_type_c(d, aliases::meant(d.aliases, t))
}

/// The type `i32`.
pub open spec fn i32_ty() -> ast::Type {
    ast::Type::Named { name: "i32"@, args: Seq::empty() }
}

// ---------------------------------------------------------------------------
// Steps of the generator
// ---------------------------------------------------------------------------

/// One more line, at the current indentation.
pub open spec fn emitted(st: State, line: Seq<char>) -> State {
    State { lines: st.lines.push(st.pad + line), ..st }
}

/// One step further in.
pub open spec fn indented(st: State) -> State {
    State { pad: st.pad + "    "@, ..st }
}

/// The indentation set to `pad`.
pub open spec fn at_pad(st: State, pad: Seq<char>) -> State {
    State { pad, ..st }
}

/// The variables in scope replaced.
pub open spec fn with_vars(st: State, vars: Seq<Map<Seq<char>, ast::Type>>) -> State {
    State { ctx: Ctx { vars, ..st.ctx }, ..st }
}

/// A scope opened.
pub open spec fn opened(st: State) -> State {
    with_vars(st, scopes::entered(st.ctx.vars))
}

/// The innermost scope closed.
pub open spec fn closed_scope(st: State) -> State {
    with_vars(st, scopes::left(st.ctx.vars))
}

/// A variable declared.
pub open spec fn with_var(st: State, name: Seq<char>, ty: ast::Type) -> State {
    with_vars(st, scopes::declared(st.ctx.vars, name, ty))
}

/// The name of a temporary.
pub open spec fn temp_name(prefix: Seq<char>, n: usize) -> Seq<char> {
    "__xlang_"@ + prefix + text::dec(n as nat)
}

/// A temporary handed out.
pub open spec fn with_temp(st: State) -> State {
    State { temps: st.temps.wrapping_add(1), ..st }
}

/// What a piece of code tells of TLS noted.
pub open spec fn noted(st: State, c: Code) -> State {
    State { tls: st.tls || c.tls, ..st }
}

/// The lines from the `i`-th on.
pub open spec fn with_lines(st: State, lines: Seq<Seq<char>>, i: int) -> State
    decreases lines.len() - i,
{
    if i < 0 || i >= lines.len() {
        st
    } else {
        with_lines(emitted(st, lines[i]), lines, i + 1)
    }
}

/// Writing lines leaves all but the lines as it is.
pub proof fn lemma_with_lines(st: State, lines: Seq<Seq<char>>, i: int)
    ensures
        with_lines(st, lines, i) == (State { lines: with_lines(st, lines, i).lines, ..st }),
    decreases lines.len() - i,
{
    if 0 <= i < lines.len() {
        lemma_with_lines(emitted(st, lines[i]), lines, i + 1);
    }
}

/// Lines at an indentation.
pub open spec fn padded(lines: Seq<Seq<char>>, pad: Seq<char>) -> Seq<Seq<char>> {
    Seq::new(lines.len(), |k: int| pad + lines[k])
}

/// Writing lines appends them, each at the current indentation.
pub proof fn lemma_lines_appended(st: State, lines: Seq<Seq<char>>, i: int)
    requires
        0 <= i <= lines.len(),
    ensures
        with_lines(st, lines, i) == (State {
            lines: st.lines + padded(lines.skip(i), st.pad),
            ..st
        }),
    decreases lines.len() - i,
{
    let rest = padded(lines.skip(i), st.pad);
    if i < lines.len() {
        let next = emitted(st, lines[i]);
        lemma_lines_appended(next, lines, i + 1);
        assert(next.lines + padded(lines.skip(i + 1), st.pad) =~= st.lines + rest);
    } else {
        assert(st.lines + rest =~= st.lines);
    }
}

/// Lines can be written in two goes.
pub proof fn lemma_lines_in_two(st: State, a: Seq<Seq<char>>, b: Seq<Seq<char>>)
    ensures
        with_lines(with_lines(st, a, 0), b, 0) == with_lines(st, a + b, 0),
{
    lemma_lines_appended(st, a, 0);
    lemma_lines_appended(with_lines(st, a, 0), b, 0);
    lemma_lines_appended(st, a + b, 0);
    assert(a.skip(0) =~= a);
    assert(b.skip(0) =~= b);
    assert((a + b).skip(0) =~= a + b);
    assert(st.lines + padded(a, st.pad) + padded(b, st.pad) =~= st.lines + padded(a + b, st.pad));
}

/// A generator that has written nothing and knows only the types of expressions.
pub open spec fn fresh(types: Map<Span, ast::Type>) -> State {
    State {
        ctx: Ctx { decls: no_decls(types), vars: Seq::empty(), mut_self: false },
        lines: Seq::empty(),
        pad: ""@,
        temps: 0,
        ret: None,
        tls: false,
    }
}

/// The declarations replaced.
pub open spec fn with_decls(st: State, decls: Decls) -> State {
    State { ctx: Ctx { decls, ..st.ctx }, ..st }
}

} // verus!
