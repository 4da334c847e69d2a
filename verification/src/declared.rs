//! What a program declares: its aliases, and the types of what its functions and
//! methods give back and of the fields of its structs.

use vstd::prelude::*;

use crate::aliases;
use crate::aliases::Aliases;
use crate::ast;
use crate::ast::{FieldDecl, Item, Param, Program, TypeNode};
use crate::source::Spanned;
use crate::text;
use crate::values;

verus! {

/// What a program declares.
#[verifier::ext_equal]
pub struct Declared {
    pub aliases: aliases::Known,
    pub items: Seq<Spanned<Item>>,
}

/// What a list of items declares.
pub open spec fn of_items(items: Seq<Spanned<Item>>) -> Declared {
    Declared { aliases: aliases::of_items(items), items }
}

/// The type that the first function of a name gives back, of the items from the
/// `i`-th on.
pub open spec fn result_type(items: Seq<Spanned<Item>>, wanted: Seq<char>, i: int) -> Option<
    ast::Type,
>
    decreases items.len() - i,
{
    if i < 0 || i >= items.len() {
        None
    } else {
        match items[i].node {
            Item::FnDecl { name, return_type, .. } => if name@ == wanted {
                Some(return_type@)
            } else {
                result_type(items, wanted, i + 1)
            },
            _ => result_type(items, wanted, i + 1),
        }
    }
}

/// The type that the first method of a name gives back, of those of `owner` in the
/// items from the `i`-th on.
pub open spec fn method_type(
    known: aliases::Known,
    items: Seq<Spanned<Item>>,
    owner: Seq<char>,
    wanted: Seq<char>,
    i: int,
) -> Option<ast::Type>
    decreases items.len() - i,
{
    if i < 0 || i >= items.len() {
        None
    } else {
        match items[i].node {
            Item::ImplDecl { target, methods } => if aliases::meant_name(known, target@) == owner && result_type(
                methods@,
                wanted,
                0,
            ) is Some {
                result_type(methods@, wanted, 0)
            } else {
                method_type(known, items, owner, wanted, i + 1)
            },
            _ => method_type(known, items, owner, wanted, i + 1),
        }
    }
}

/// The parameters of the first function of a name, of the items from the `i`-th on.
pub open spec fn fn_params(items: Seq<Spanned<Item>>, wanted: Seq<char>, i: int) -> Option<
    Seq<Param>,
>
    decreases items.len() - i,
{
    if i < 0 || i >= items.len() {
        None
    } else {
        match items[i].node {
            Item::FnDecl { name, params, .. } => if name@ == wanted {
                Some(params@)
            } else {
                fn_params(items, wanted, i + 1)
            },
            _ => fn_params(items, wanted, i + 1),
        }
    }
}

/// The parameters of the first method of a name, of those of `owner` in the items
/// from the `i`-th on.
pub open spec fn method_params(
    known: aliases::Known,
    items: Seq<Spanned<Item>>,
    owner: Seq<char>,
    wanted: Seq<char>,
    i: int,
) -> Option<Seq<Param>>
    decreases items.len() - i,
{
    if i < 0 || i >= items.len() {
        None
    } else {
        match items[i].node {
            Item::ImplDecl { target, methods } => if aliases::meant_name(known, target@) == owner && fn_params(
                methods@,
                wanted,
                0,
            ) is Some {
                fn_params(methods@, wanted, 0)
            } else {
                method_params(known, items, owner, wanted, i + 1)
            },
            _ => method_params(known, items, owner, wanted, i + 1),
        }
    }
}

/// The type of the first field of a name, of the fields from the `i`-th on.
pub open spec fn type_among(fields: Seq<FieldDecl>, wanted: Seq<char>, i: int) -> Option<ast::Type>
    decreases fields.len() - i,
{
    if i < 0 || i >= fields.len() {
        None
    } else if fields[i].name@ == wanted {
        Some(fields[i].ty@)
    } else {
        type_among(fields, wanted, i + 1)
    }
}

/// The type of a field of the first struct of a name, of the items from the `i`-th
/// on.
pub open spec fn field_type(
    items: Seq<Spanned<Item>>,
    owner: Seq<char>,
    wanted: Seq<char>,
    i: int,
) -> Option<ast::Type>
    decreases items.len() - i,
{
    if i < 0 || i >= items.len() {
        None
    } else {
        match items[i].node {
            Item::StructDecl { name, fields } => if name@ == owner {
                type_among(fields@, wanted, 0)
            } else {
                field_type(items, owner, wanted, i + 1)
            },
            _ => field_type(items, owner, wanted, i + 1),
        }
    }
}

/// What a program declares.
pub(crate) struct Context<'a> {
    aliases: Aliases,
    items: &'a Vec<Spanned<Item>>,
}

impl<'a> View for Context<'a> {
    type V = Declared;

    closed spec fn view(&self) -> Declared {
        Declared { aliases: self.aliases@, items: self.items@ }
    }
}

fn find_result(items: &Vec<Spanned<Item>>, wanted: &str) -> (r: Option<TypeNode>)
    ensures
        values::type_if(r) == result_type(items@, wanted@, 0),
{
    let mut i: usize = 0;
    while i < items.len()
        invariant
            i <= items@.len(),
            result_type(items@, wanted@, 0) == result_type(items@, wanted@, i as int),
        decreases items@.len() - i,
    {
        if let Item::FnDecl { name, return_type, .. } = &items[i].node {
            if text::same(name.as_str(), wanted) {
                return Some(return_type.copied());
            }
        }
        i += 1;
    }
    None
}

pub(crate) open spec fn params_if(r: Option<&Vec<Param>>) -> Option<Seq<Param>> {
    match r {
        Some(params) => Some(params@),
        None => None,
    }
}

fn find_params<'a>(items: &'a Vec<Spanned<Item>>, wanted: &str) -> (r: Option<&'a Vec<Param>>)
    ensures
        params_if(r) == fn_params(items@, wanted@, 0),
{
    let mut i: usize = 0;
    while i < items.len()
        invariant
            i <= items@.len(),
            fn_params(items@, wanted@, 0) == fn_params(items@, wanted@, i as int),
        decreases items@.len() - i,
    {
        if let Item::FnDecl { name, params, .. } = &items[i].node {
            if text::same(name.as_str(), wanted) {
                return Some(params);
            }
        }
        i += 1;
    }
    None
}

fn find_among(fields: &Vec<FieldDecl>, wanted: &str) -> (r: Option<TypeNode>)
    ensures
        values::type_if(r) == type_among(fields@, wanted@, 0),
{
    let mut i: usize = 0;
    while i < fields.len()
        invariant
            i <= fields@.len(),
            type_among(fields@, wanted@, 0) == type_among(fields@, wanted@, i as int),
        decreases fields@.len() - i,
    {
        if text::same(fields[i].name.as_str(), wanted) {
            return Some(fields[i].ty.copied());
        }
        i += 1;
    }
    None
}

impl<'a> Context<'a> {
    /// What a program declares.
    pub(crate) fn of_program(program: &'a Program) -> (r: Self)
        ensures
            r@ == of_items(program.items@),
    {
        Context { aliases: Aliases::of_program(program), items: &program.items }
    }

    /// What a type stands for.
    pub(crate) fn meaning(&self, t: &TypeNode) -> (r: TypeNode)
        ensures
            r@ == aliases::meant(self@.aliases, t@),
    {
        self.aliases.meaning(t)
    }

    /// The name of what a name stands for.
    pub(crate) fn name_meaning(&self, name: &str) -> (r: String)
        ensures
            r@ == aliases::meant_name(self@.aliases, name@),
    {
        self.aliases.name_meaning(name)
    }

    /// The type that a function gives back.
    pub(crate) fn result_of(&self, wanted: &str) -> (r: Option<TypeNode>)
        ensures
            values::type_if(r) == result_type(self@.items, wanted@, 0),
    {
        find_result(self.items, wanted)
    }

    /// The type that a method gives back.
    pub(crate) fn method_of(&self, owner: &str, wanted: &str) -> (r: Option<TypeNode>)
        ensures
            values::type_if(r) == method_type(self@.aliases, self@.items, owner@, wanted@, 0),
    {
        let items = self.items;
        let mut i: usize = 0;
        while i < items.len()
            invariant
                i <= items@.len(),
                items@ == self@.items,
                method_type(self@.aliases, items@, owner@, wanted@, 0) == method_type(
                    self@.aliases,
                    items@,
                    owner@,
                    wanted@,
                    i as int,
                ),
            decreases items@.len() - i,
        {
            if let Item::ImplDecl { target, methods } = &items[i].node {
                let meant = self.aliases.name_meaning(target.as_str());
                if text::same(meant.as_str(), owner) {
                    let found = find_result(methods, wanted);
                    if found.is_some() {
                        return found;
                    }
                }
            }
            i += 1;
        }
        None
    }

    /// The parameters of a function.
    pub(crate) fn params_of(&self, wanted: &str) -> (r: Option<&'a Vec<Param>>)
        ensures
            params_if(r) == fn_params(self@.items, wanted@, 0),
    {
        find_params(self.items, wanted)
    }

    /// The parameters of a method.
    pub(crate) fn method_params_of(&self, owner: &str, wanted: &str) -> (r: Option<&'a Vec<Param>>)
        ensures
            params_if(r) == method_params(self@.aliases, self@.items, owner@, wanted@, 0),
    {
        let items = self.items;
        let mut i: usize = 0;
        while i < items.len()
            invariant
                i <= items@.len(),
                items@ == self@.items,
                method_params(self@.aliases, items@, owner@, wanted@, 0) == method_params(
                    self@.aliases,
                    items@,
                    owner@,
                    wanted@,
                    i as int,
                ),
            decreases items@.len() - i,
        {
            if let Item::ImplDecl { target, methods } = &items[i].node {
                let meant = self.aliases.name_meaning(target.as_str());
                if text::same(meant.as_str(), owner) {
                    let found = find_params(methods, wanted);
                    if found.is_some() {
                        return found;
                    }
                }
            }
            i += 1;
        }
        None
    }

    /// The type of a field.
    pub(crate) fn field_of(&self, owner: &str, wanted: &str) -> (r: Option<TypeNode>)
        ensures
            values::type_if(r) == field_type(self@.items, owner@, wanted@, 0),
    {
        let items = self.items;
        let mut i: usize = 0;
        while i < items.len()
            invariant
                i <= items@.len(),
                items@ == self@.items,
                field_type(items@, owner@, wanted@, 0) == field_type(
                    items@,
                    owner@,
                    wanted@,
                    i as int,
                ),
            decreases items@.len() - i,
        {
            if let Item::StructDecl { name, fields } = &items[i].node {
                if text::same(name.as_str(), owner) {
                    return find_among(fields, wanted);
                }
            }
            i += 1;
        }
        None
    }
}

} // verus!
