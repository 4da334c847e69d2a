//! The generator: from a program to one C translation unit.

use vstd::prelude::*;

use crate::aliases::Aliases;
use crate::ast;
use crate::ast::{EnumVariant, FieldDecl, Item, Program, TypeNode};
use crate::codegen::exprs;
use crate::codegen::model;
use crate::codegen::runtime;
use crate::codegen::stmts;
use crate::codegen::typedefs;
use crate::error;
use crate::error::XResult;
use crate::names::{NameMap, NameSet, PairSet};
use crate::scopes::Scopes;
use crate::source::Spanned;
use crate::text;
use crate::typecheck::TypeMap;

verus! {

/// The fields of a struct.
pub struct Fields {
    pub list: Vec<(String, TypeNode)>,
}

impl View for Fields {
    type V = Seq<(Seq<char>, ast::Type)>;

    open spec fn view(&self) -> Seq<(Seq<char>, ast::Type)> {
        self.list@.map_values(|f: (String, TypeNode)| (f.0@, f.1@))
    }
}

/// The payloads of an enum's variants.
pub struct Payloads {
    pub list: Vec<Option<TypeNode>>,
}

impl View for Payloads {
    type V = Seq<Option<ast::Type>>;

    open spec fn view(&self) -> Seq<Option<ast::Type>> {
        self.list@.map_values(|p: Option<TypeNode>| model::payload_type(p))
    }
}

/// The C code generator.
pub struct CGen {
    pub(crate) lines: Vec<String>,
    /// The indentation of the next line.
    pub(crate) pad: String,
    /// The types of the variables in scope.
    pub(crate) scopes: Scopes<TypeNode>,
    pub(crate) temp_counter: usize,
    /// Return type of the function currently being generated (for constructing
    /// Some/None/Ok/Err in `return` position).
    pub(crate) fn_return: Option<TypeNode>,
    /// User-defined struct names.
    pub(crate) struct_names: NameSet,
    /// The declared fields of each struct.
    pub(crate) struct_fields: NameMap<Fields>,
    /// Enum names.
    pub(crate) enum_names: NameSet,
    /// The number of each variant within its enum.
    pub(crate) enum_values: NameMap<i32>,
    /// The payload of each variant of an enum; an enum is a tagged struct where
    /// one of its variants has a payload.
    pub(crate) enum_payloads: NameMap<Payloads>,
    /// The enum that a variant belongs to.
    pub(crate) variant_enum: NameMap<String>,
    /// The type aliases.
    pub(crate) aliases: Aliases,
    /// The types of expressions, which decide for instance whether `+`
    /// concatenates.
    pub(crate) types: TypeMap,
    /// The methods of `impl` blocks, by type and name.
    pub(crate) methods: PairSet,
    /// The methods with `mut self`, which take their receiver by pointer.
    pub(crate) mut_self: PairSet,
    /// Whether the body of a method with `mut self` is being generated.
    pub(crate) in_mut_self: bool,
    /// Whether a TLS builtin was called, so that the TLS part of the runtime is
    /// switched on.
    pub(crate) uses_tls: bool,
}

impl CGen {
    /// What is declared.
    pub(crate) open spec fn decls(&self) -> model::Decls {
        model::Decls {
            structs: self.struct_names@,
            fields: self.struct_fields@,
            enums: self.enum_names@,
            values: self.enum_values@,
            payloads: self.enum_payloads@,
            owners: self.variant_enum@,
            aliases: self.aliases@,
            types: self.types@,
            methods: self.methods@,
            by_pointer: self.mut_self@,
        }
    }

    /// What expressions are rendered against.
    pub(crate) open spec fn ctx(&self) -> model::Ctx {
        model::Ctx { decls: self.decls(), vars: self.scopes@, mut_self: self.in_mut_self }
    }

    /// The state of the generator.
    pub(crate) open spec fn state(&self) -> model::State {
        model::State {
            ctx: self.ctx(),
            lines: text::texts(self.lines@),
            pad: self.pad@,
            temps: self.temp_counter,
            ret: model::payload_type(self.fn_return),
            tls: self.uses_tls,
        }
    }
}

impl View for CGen {
    type V = model::State;

    closed spec fn view(&self) -> model::State {
        self.state()
    }
}

/// The view of the generator is its state.
pub(crate) broadcast proof fn lemma_view(g: CGen)
    ensures
        #[trigger] g@ == g.state(),
{
}

// ---------------------------------------------------------------------------
// What a program becomes
// ---------------------------------------------------------------------------

/// The prototypes of the methods from the `i`-th on.
pub open spec fn method_prototypes_c(
    st: model::State,
    target: Seq<char>,
    methods: Seq<Spanned<Item>>,
    i: int,
) -> model::Outcome<model::State>
    decreases methods.len() - i,
{
    if i < 0 || i >= methods.len() {
        Ok(st)
    } else {
        match (match methods[i].node {
            Item::FnDecl { name, .. } => stmts::prototype_c(
                st,
                methods[i].node,
                model::method_name(target, name@),
            ),
            _ => Ok(st),
        }) {
            Err(f) => Err(f),
            Ok(st) => method_prototypes_c(st, target, methods, i + 1),
        }
    }
}

/// The prototypes of the functions and methods among the items from the `i`-th
/// on.
pub open spec fn prototypes_c(st: model::State, items: Seq<Spanned<Item>>, i: int) -> model::Outcome<
    model::State,
>
    decreases items.len() - i,
{
    if i < 0 || i >= items.len() {
        Ok(st)
    } else {
        match (match items[i].node {
            Item::FnDecl { name, .. } => stmts::prototype_c(st, items[i].node, name@),
            Item::ImplDecl { target, methods } => method_prototypes_c(
                st,
                model::owner_name(st.ctx.decls, target@),
                methods@,
                0,
            ),
            _ => Ok(st),
        }) {
            Err(f) => Err(f),
            Ok(st) => prototypes_c(st, items, i + 1),
        }
    }
}

/// The methods from the `i`-th on, each with an empty line after it.
pub open spec fn methods_c(
    st: model::State,
    target: Seq<char>,
    methods: Seq<Spanned<Item>>,
    i: int,
) -> model::Outcome<model::State>
    decreases methods.len() - i,
{
    if i < 0 || i >= methods.len() {
        Ok(st)
    } else {
        match (match methods[i].node {
            Item::FnDecl { name, .. } => stmts::then_line(
                stmts::fn_c(st, methods[i].node, model::method_name(target, name@)),
                ""@,
            ),
            _ => Ok(st),
        }) {
            Err(f) => Err(f),
            Ok(st) => methods_c(st, target, methods, i + 1),
        }
    }
}

/// The functions and methods among the items from the `i`-th on, each with an
/// empty line after it.
pub open spec fn functions_c(st: model::State, items: Seq<Spanned<Item>>, i: int) -> model::Outcome<
    model::State,
>
    decreases items.len() - i,
{
    if i < 0 || i >= items.len() {
        Ok(st)
    } else {
        match (match items[i].node {
            Item::FnDecl { name, .. } => stmts::then_line(
                stmts::fn_c(st, items[i].node, name@),
                ""@,
            ),
            Item::ImplDecl { target, methods } => methods_c(
                st,
                model::owner_name(st.ctx.decls, target@),
                methods@,
                0,
            ),
            _ => Ok(st),
        }) {
            Err(f) => Err(f),
            Ok(st) => functions_c(st, items, i + 1),
        }
    }
}

/// An empty line, unless one was just written.
pub open spec fn spaced(st: model::State) -> model::State {
    if st.lines.len() > 0 && st.lines.last().len() == 0 {
        st
    } else {
        model::emitted(st, ""@)
    }
}

/// Everything that is written for a program: the runtime, the types, the
/// prototypes and the functions.
pub open spec fn written(st: model::State, items: Seq<Spanned<Item>>) -> model::Outcome<
    model::State,
> {
    let known = model::with_decls(st, model::with_program(st.ctx.decls, items));
    match typedefs::program_defs(known.ctx.decls, items) {
        Err(f) => Err(f),
        Ok(defs) => match prototypes_c(
            spaced(model::with_lines(model::with_lines(known, runtime::preamble(), 0), defs, 0)),
            items,
            0,
        ) {
            Err(f) => Err(f),
            Ok(st) => functions_c(model::emitted(st, ""@), items, 0),
        },
    }
}

/// The text of what was written: the macro that switches TLS on comes first where
/// TLS is used, and the text ends in one line break.
pub open spec fn finished(st: model::State) -> Seq<char> {
    text::trimmed_end(
        text::joined(
            if st.tls {
                seq!["#define __XLANG_TLS__ 1"@] + st.lines
            } else {
                st.lines
            },
            "\n"@,
        ),
    ) + "\n"@
}

/// The C program for a list of items, by a generator in state `st`.
pub open spec fn program_c(st: model::State, items: Seq<Spanned<Item>>) -> model::Outcome<
    Seq<char>,
> {
    match written(st, items) {
        Err(f) => Err(f),
        Ok(after) => Ok(finished(after)),
    }
}

// ---------------------------------------------------------------------------
// Generating
// ---------------------------------------------------------------------------

impl CGen {
    /// A generator without types of expressions, to which every `+` is numeric.
    pub fn new() -> (r: Self)
        ensures
            r@ == model::fresh(Map::empty()),
    {
        Self::with_types(TypeMap::new())
    }

    /// A generator that knows the types of expressions, which decide for instance
    /// whether `+` concatenates.
    pub fn with_types(types: TypeMap) -> (r: Self)
        ensures
            r@ == model::fresh(types@),
    {
        let r = CGen {
            lines: Vec::new(),
            pad: "".to_string(),
            scopes: Scopes::new(),
            temp_counter: 0,
            fn_return: None,
            struct_names: NameSet::new(),
            struct_fields: NameMap::new(),
            enum_names: NameSet::new(),
            enum_values: NameMap::new(),
            enum_payloads: NameMap::new(),
            variant_enum: NameMap::new(),
            aliases: Aliases::new(),
            types,
            methods: PairSet::new(),
            mut_self: PairSet::new(),
            in_mut_self: false,
            uses_tls: false,
        };
        assert(text::texts(r.lines@) =~= Seq::<Seq<char>>::empty());
        r
    }

    /// Note the structs and enums of a program.
    fn declare_types(&mut self, program: &Program)
        ensures
            final(self).state() == model::with_decls(
                old(self).state(),
                model::with_items(old(self).decls(), program.items@, 0),
            ),
    {
        let mut i: usize = 0;
        while i < program.items.len()
            invariant
                i <= program.items@.len(),
                model::with_decls(
                    old(self).state(),
                    model::with_items(old(self).decls(), program.items@, 0),
                ) == model::with_decls(
                    self.state(),
                    model::with_items(self.decls(), program.items@, i as int),
                ),
            decreases program.items@.len() - i,
        {
            match &program.items[i].node {
                Item::StructDecl { name, fields } => self.declare_struct(name.as_str(), fields),
                Item::EnumDecl { name, variants } => self.declare_enum(name.as_str(), variants),
                _ => {},
            }
            i += 1;
        }
    }

    fn declare_struct(&mut self, name: &str, fields: &Vec<FieldDecl>)
        ensures
            final(self).state() == model::with_decls(
                old(self).state(),
                model::with_struct(old(self).decls(), name@, fields@),
            ),
    {
        let mut list: Vec<(String, TypeNode)> = Vec::new();
        let mut i: usize = 0;
        while i < fields.len()
            invariant
                i <= fields@.len(),
                list@.len() == i,
                forall|k: int|
                    0 <= k < i ==> (#[trigger] list@[k]).0@ == fields@[k].name@ && list@[k].1@
                        == fields@[k].ty@,
            decreases fields@.len() - i,
        {
            list.push((fields[i].name.clone(), fields[i].ty.copied()));
            i += 1;
        }
        let declared = Fields { list };
        assert(declared@ =~= model::field_types(fields@));
        self.struct_names.insert(name);
        self.struct_fields.insert(name, declared);
    }

    fn declare_enum(&mut self, name: &str, variants: &Vec<EnumVariant>)
        ensures
            final(self).state() == model::with_decls(
                old(self).state(),
                model::with_enum(old(self).decls(), name@, variants@),
            ),
    {
        let mut list: Vec<Option<TypeNode>> = Vec::new();
        self.enum_names.insert(name);
        let ghost begun = self.decls();
        let mut i: usize = 0;
        while i < variants.len()
            invariant
                i <= variants@.len(),
                list@.len() == i,
                forall|k: int|
                    0 <= k < i ==> model::payload_type(#[trigger] list@[k])
                        == model::payload_type(variants@[k].payload),
                model::with_variants(begun, name@, variants@, 0) == model::with_variants(
                    self.decls(),
                    name@,
                    variants@,
                    i as int,
                ),
                self.state() == model::with_decls(old(self).state(), self.decls()),
            decreases variants@.len() - i,
        {
            let variant = variants[i].name.as_str();
            self.enum_values.insert(variant, i as i32);
            self.variant_enum.insert(variant, name.to_string());
            list.push(
                match &variants[i].payload {
                    Some(t) => Some(t.copied()),
                    None => None,
                },
            );
            i += 1;
        }
        let declared = Payloads { list };
        assert(declared@ =~= model::payload_types(variants@));
        self.enum_payloads.insert(name, declared);
    }

    /// Note the methods of a program, so that calls find them in any order.
    fn declare_methods(&mut self, program: &Program)
        ensures
            final(self).state() == model::with_decls(
                old(self).state(),
                model::with_impls(old(self).decls(), program.items@, 0),
            ),
    {
        let mut i: usize = 0;
        while i < program.items.len()
            invariant
                i <= program.items@.len(),
                model::with_decls(
                    old(self).state(),
                    model::with_impls(old(self).decls(), program.items@, 0),
                ) == model::with_decls(
                    self.state(),
                    model::with_impls(self.decls(), program.items@, i as int),
                ),
            decreases program.items@.len() - i,
        {
            if let Item::ImplDecl { target, methods } = &program.items[i].node {
                let owner = self.owner_name(target.as_str());
                self.declare_impl(owner.as_str(), methods);
            }
            i += 1;
        }
    }

    /// The struct or enum that a name stands for.
    pub(crate) fn owner_name(&self, name: &str) -> (r: String)
        ensures
            r@ == model::owner_name(self.decls(), name@),
    {
        self.aliases.name_meaning(name)
    }

    fn declare_impl(&mut self, target: &str, methods: &Vec<Spanned<Item>>)
        ensures
            final(self).state() == model::with_decls(
                old(self).state(),
                model::with_methods(old(self).decls(), target@, methods@, 0),
            ),
    {
        let mut i: usize = 0;
        while i < methods.len()
            invariant
                i <= methods@.len(),
                model::with_decls(
                    old(self).state(),
                    model::with_methods(old(self).decls(), target@, methods@, 0),
                ) == model::with_decls(
                    self.state(),
                    model::with_methods(self.decls(), target@, methods@, i as int),
                ),
            decreases methods@.len() - i,
        {
            if let Item::FnDecl { name, params, .. } = &methods[i].node {
                self.methods.insert(target, name.as_str());
                if stmts::by_pointer(params) {
                    self.mut_self.insert(target, name.as_str());
                }
            }
            i += 1;
        }
    }

    /// Write the headers and the runtime: the same lines in every state, at the
    /// current indentation, and nothing else changes.
    pub fn emit_runtime_preamble(&mut self)
        ensures
            final(self)@ == model::with_lines(old(self)@, runtime::preamble(), 0),
            final(self)@ == (model::State {
                lines: old(self)@.lines + model::padded(runtime::preamble(), old(self)@.pad),
                ..old(self)@
            }),
    {
        let mut i: usize = 0;
        let ghost st = self.state();
        while i < runtime::PIECES.len()
            invariant
                i <= runtime::PIECES@.len(),
                self.state() == model::with_lines(st, runtime::lines_before(i as int), 0),
            decreases runtime::PIECES@.len() - i,
        {
            let piece = runtime::render(i);
            let lines = text::split_lines(piece.as_str());
            self.emit_lines(&lines);
            proof {
                model::lemma_lines_in_two(
                    st,
                    runtime::lines_before(i as int),
                    text::lines_of(piece@),
                );
            }
            i += 1;
        }
        proof {
            reveal(runtime::preamble);
            model::lemma_lines_appended(st, runtime::preamble(), 0);
            assert(runtime::preamble().skip(0) =~= runtime::preamble());
        }
    }

    fn emit_lines(&mut self, lines: &Vec<String>)
        ensures
            final(self).state() == model::with_lines(
                old(self).state(),
                text::texts(lines@),
                0,
            ),
    {
        let mut i: usize = 0;
        while i < lines.len()
            invariant
                i <= lines@.len(),
                model::with_lines(old(self).state(), text::texts(lines@), 0)
                    == model::with_lines(self.state(), text::texts(lines@), i as int),
            decreases lines@.len() - i,
        {
            assert(text::texts(lines@)[i as int] == lines@[i as int]@);
            self.emit(lines[i].as_str());
            i += 1;
        }
    }

    /// Write an empty line, unless one was just written.
    fn space(&mut self)
        ensures
            final(self).state() == spaced(old(self).state()),
    {
        let n: usize = self.lines.len();
        if n > 0 {
            assert(text::texts(self.lines@).last() == self.lines@[n - 1]@);
            if text::same(self.lines[n - 1].as_str(), "") {
                proof {
                    reveal_strlit("");
                }
                return;
            }
            proof {
                reveal_strlit("");
                if self.lines@[n - 1]@.len() == 0 {
                    assert(self.lines@[n - 1]@ =~= ""@);
                }
            }
        }
        self.emit("");
    }

    fn gen_method_prototypes(&mut self, target: &str, methods: &Vec<Spanned<Item>>) -> (r: XResult<
        (),
    >)
        ensures
            stmts::went(
                r,
                final(self).state(),
                method_prototypes_c(old(self).state(), target@, methods@, 0),
            ),
    {
        let mut i: usize = 0;
        while i < methods.len()
            invariant
                i <= methods@.len(),
                method_prototypes_c(old(self).state(), target@, methods@, 0)
                    == method_prototypes_c(self.state(), target@, methods@, i as int),
            decreases methods@.len() - i,
        {
            if let Item::FnDecl { name, .. } = &methods[i].node {
                let called = exprs::method_fn_name(target, name.as_str());
                self.gen_fn_prototype(&methods[i].node, called.as_str())?;
            }
            i += 1;
        }
        Ok(())
    }

    fn gen_prototypes(&mut self, program: &Program) -> (r: XResult<()>)
        ensures
            stmts::went(
                r,
                final(self).state(),
                prototypes_c(old(self).state(), program.items@, 0),
            ),
    {
        let mut i: usize = 0;
        while i < program.items.len()
            invariant
                i <= program.items@.len(),
                prototypes_c(old(self).state(), program.items@, 0) == prototypes_c(
                    self.state(),
                    program.items@,
                    i as int,
                ),
            decreases program.items@.len() - i,
        {
            match &program.items[i].node {
                Item::FnDecl { name, .. } => self.gen_fn_prototype(
                    &program.items[i].node,
                    name.as_str(),
                )?,
                Item::ImplDecl { target, methods } => {
                    let owner = self.owner_name(target.as_str());
                    self.gen_method_prototypes(owner.as_str(), methods)?;
                },
                _ => {},
            }
            i += 1;
        }
        Ok(())
    }

    fn gen_methods(&mut self, target: &str, methods: &Vec<Spanned<Item>>) -> (r: XResult<()>)
        ensures
            stmts::went(
                r,
                final(self).state(),
                methods_c(old(self).state(), target@, methods@, 0),
            ),
    {
        let mut i: usize = 0;
        while i < methods.len()
            invariant
                i <= methods@.len(),
                methods_c(old(self).state(), target@, methods@, 0) == methods_c(
                    self.state(),
                    target@,
                    methods@,
                    i as int,
                ),
            decreases methods@.len() - i,
        {
            if let Item::FnDecl { name, .. } = &methods[i].node {
                let called = exprs::method_fn_name(target, name.as_str());
                self.gen_fn(&methods[i].node, called.as_str())?;
                self.emit("");
            }
            i += 1;
        }
        Ok(())
    }

    fn gen_functions(&mut self, program: &Program) -> (r: XResult<()>)
        ensures
            stmts::went(
                r,
                final(self).state(),
                functions_c(old(self).state(), program.items@, 0),
            ),
    {
        let mut i: usize = 0;
        while i < program.items.len()
            invariant
                i <= program.items@.len(),
                functions_c(old(self).state(), program.items@, 0) == functions_c(
                    self.state(),
                    program.items@,
                    i as int,
                ),
            decreases program.items@.len() - i,
        {
            match &program.items[i].node {
                Item::FnDecl { name, .. } => {
                    self.gen_fn(&program.items[i].node, name.as_str())?;
                    self.emit("");
                },
                Item::ImplDecl { target, methods } => {
                    let owner = self.owner_name(target.as_str());
                    self.gen_methods(owner.as_str(), methods)?;
                },
                _ => {},
            }
            i += 1;
        }
        Ok(())
    }

    /// The text of what was written.
    fn finish(self) -> (r: String)
        ensures
            r@ == finished(self.state()),
    {
        let mut lines = self.lines;
        let ghost before = lines@;
        if self.uses_tls {
            lines.insert(0, "#define __XLANG_TLS__ 1".to_string());
            assert(text::texts(lines@) =~= seq!["#define __XLANG_TLS__ 1"@] + text::texts(before));
        }
        let all = text::join(&lines, "\n");
        let body = text::trim_end(all.as_str());
        text::cat2(body, "\n")
    }

    /// The C program for a program.
    pub fn generate(self, program: &Program) -> (r: XResult<String>)
        ensures
            error::outcome(r) == program_c(self@, program.items@),
    {
        let mut g = self;
        g.declare_types(program);
        g.aliases = Aliases::of_program(program);
        g.declare_methods(program);
        let ghost known = g.state();
        g.emit_runtime_preamble();
        proof {
            model::lemma_with_lines(known, runtime::preamble(), 0);
        }
        let defs = g.collect_runtime_typedefs(program)?;
        g.emit_lines(&defs);
        g.space();
        g.gen_prototypes(program)?;
        g.emit("");
        g.gen_functions(program)?;
        Ok(g.finish())
    }
}

impl Default for CGen {
    fn default() -> (r: Self)
        ensures
            r@ == model::fresh(Map::empty()),
    {
        Self::new()
    }
}

} // verus!
