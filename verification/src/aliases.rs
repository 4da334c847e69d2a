//! Type aliases: a name that stands for another type.

use vstd::prelude::*;

use crate::ast;
use crate::ast::{Item, Program, TypeNode};
use crate::names::NameMap;
use crate::source::Spanned;
use crate::text;

verus! {

/// The aliases of a program.
#[verifier::ext_equal]
pub struct Known {
    /// What each alias stands for.
    pub types: Map<Seq<char>, ast::Type>,
    /// How many aliases are followed from one to the next; a longer way goes in a
    /// circle.
    pub hops: nat,
}

/// No alias.
pub open spec fn no_aliases() -> Known {
    Known { types: Map::empty(), hops: 0 }
}

/// Whether a name is that of a built-in scalar type.
pub open spec fn is_scalar(name: Seq<char>) -> bool {
    ||| name == "i32"@
    ||| name == "i64"@
    ||| name == "f32"@
    ||| name == "f64"@
    ||| name == "bool"@
    ||| name == "String"@
    ||| name == "Str"@
}

/// Whether an item declares a struct or an enum of this name.
pub open spec fn declares(item: Item, wanted: Seq<char>) -> bool {
    match item {
        Item::StructDecl { name, .. } => name@ == wanted,
        Item::EnumDecl { name, .. } => name@ == wanted,
        _ => false,
    }
}

/// Whether a name is that of a type which an alias cannot replace.
pub open spec fn is_taken(items: Seq<Spanned<Item>>, name: Seq<char>) -> bool {
    is_scalar(name) || exists|i: int|
        0 <= i < items.len() && declares((#[trigger] items[i]).node, name)
}

/// What the aliases among the first `n` items stand for; of two aliases with one
/// name the later one counts.
pub open spec fn alias_types(items: Seq<Spanned<Item>>, n: int) -> Map<Seq<char>, ast::Type>
    decreases n,
{
    if n <= 0 || n > items.len() {
        Map::empty()
    } else {
        match items[n - 1].node {
            Item::TypeAliasDecl { name, ty } => if is_taken(items, name@) {
                alias_types(items, n - 1)
            } else {
                alias_types(items, n - 1).insert(name@, ty@)
            },
            _ => alias_types(items, n - 1),
        }
    }
}

/// The aliases of a program.
pub open spec fn of_items(items: Seq<Spanned<Item>>) -> Known {
    Known { types: alias_types(items, items.len() as int), hops: items.len() }
}

/// A type with its aliases replaced, at most `hops` of them in a row.
pub open spec fn expanded(types: Map<Seq<char>, ast::Type>, t: ast::Type, hops: nat) -> ast::Type
    decreases hops, t,
{
    match t {
        ast::Type::Const { .. } => t,
        ast::Type::Named { name, args } => if args.len() > 0 {
            ast::Type::Named {
                name,
                args: Seq::new(
                    args.len(),
                    |i: int|
                        if 0 <= i < args.len() {
                            expanded(types, args[i], hops)
                        } else {
                            arbitrary()
                        },
                ),
            }
        } else if hops > 0 && types.dom().contains(name) {
            expanded(types, types[name], (hops - 1) as nat)
        } else {
            t
        },
    }
}

/// What a type stands for.
pub open spec fn meant(known: Known, t: ast::Type) -> ast::Type {
    expanded(known.types, t, known.hops)
}

/// The name of what a name stands for. A name that stands for a type with arguments
/// stays.
pub open spec fn meant_name(known: Known, name: Seq<char>) -> Seq<char> {
    match meant(known, ast::Type::Named { name, args: Seq::empty() }) {
        ast::Type::Named { name: n, args } => if args.len() == 0 {
            n
        } else {
            name
        },
        ast::Type::Const { .. } => name,
    }
}

/// What a type that may be missing stands for.
pub open spec fn meant_if(known: Known, t: Option<ast::Type>) -> Option<ast::Type> {
    match t {
        Some(t) => Some(meant(known, t)),
        None => None,
    }
}

/// The aliases of a program.
pub struct Aliases {
    types: NameMap<TypeNode>,
    hops: usize,
}

impl View for Aliases {
    type V = Known;

    closed spec fn view(&self) -> Known {
        Known { types: self.types@, hops: self.hops as nat }
    }
}

/// Whether a name is that of a built-in scalar type.
pub fn scalar(name: &str) -> (r: bool)
    ensures
        r == is_scalar(name@),
{
    text::same(name, "i32") || text::same(name, "i64") || text::same(name, "f32") || text::same(
        name,
        "f64",
    ) || text::same(name, "bool") || text::same(name, "String") || text::same(name, "Str")
}

/// Whether a name is that of a type which an alias cannot replace.
fn taken(program: &Program, wanted: &str) -> (r: bool)
    ensures
        r == is_taken(program.items@, wanted@),
{
    if scalar(wanted) {
        return true;
    }
    let mut i: usize = 0;
    while i < program.items.len()
        invariant
            i <= program.items@.len(),
            forall|k: int|
                0 <= k < i ==> !declares((#[trigger] program.items@[k]).node, wanted@),
        decreases program.items@.len() - i,
    {
        let hit = match &program.items[i].node {
            Item::StructDecl { name, .. } => text::same(name.as_str(), wanted),
            Item::EnumDecl { name, .. } => text::same(name.as_str(), wanted),
            _ => false,
        };
        if hit {
            assert(declares(program.items@[i as int].node, wanted@));
            return true;
        }
        i += 1;
    }
    false
}

impl Aliases {
    /// No alias.
    pub fn new() -> (r: Self)
        ensures
            r@ == no_aliases(),
    {
        Aliases { types: NameMap::new(), hops: 0 }
    }

    /// The aliases of a program.
    pub fn of_program(program: &Program) -> (r: Self)
        ensures
            r@ == of_items(program.items@),
    {
        let mut types: NameMap<TypeNode> = NameMap::new();
        let mut i: usize = 0;
        while i < program.items.len()
            invariant
                i <= program.items@.len(),
                types@ == alias_types(program.items@, i as int),
            decreases program.items@.len() - i,
        {
            if let Item::TypeAliasDecl { name, ty } = &program.items[i].node {
                if !taken(program, name.as_str()) {
                    types.insert(name.as_str(), ty.copied());
                }
            }
            i += 1;
        }
        Aliases { types, hops: program.items.len() }
    }

    /// A type with its aliases replaced, at most `hops` of them in a row.
    fn expand(&self, t: &TypeNode, hops: usize) -> (r: TypeNode)
        ensures
            r@ == expanded(self@.types, t@, hops as nat),
        decreases hops, t,
    {
        proof {
            ast::lemma_args(*t);
        }
        match t {
            TypeNode::ConstTypeArg { .. } => t.copied(),
            TypeNode::TypeExpr { name, args } => {
                if args.len() == 0 {
                    if hops > 0 {
                        if let Some(found) = self.types.get(name.as_str()) {
                            return self.expand(found, hops - 1);
                        }
                    }
                    return t.copied();
                }
                let mut out: Vec<TypeNode> = Vec::new();
                let mut i: usize = 0;
                while i < args.len()
                    invariant
                        i <= args@.len(),
                        out@.len() == i,
                        *t is TypeExpr,
                        t->args == *args,
                        forall|j: int|
                            0 <= j < i ==> (#[trigger] out@[j])@ == expanded(
                                self@.types,
                                args@[j]@,
                                hops as nat,
                            ),
                    decreases args@.len() - i,
                {
                    assert(decreases_to!(*t => t->args));
                    out.push(self.expand(&args[i], hops));
                    i += 1;
                }
                let r = TypeNode::TypeExpr { name: name.clone(), args: out };
                proof {
                    ast::lemma_args(r);
                    assert(r@->args =~= expanded(self@.types, t@, hops as nat)->args);
                }
                r
            },
        }
    }

    /// The name of what a name stands for.
    pub fn name_meaning(&self, name: &str) -> (r: String)
        ensures
            r@ == meant_name(self@, name@),
    {
        let t = TypeNode::TypeExpr { name: name.to_string(), args: Vec::new() };
        assert(t@->args =~= Seq::<ast::Type>::empty());
        let found = self.meaning(&t);
        proof {
            ast::lemma_args(found);
        }
        match found {
            TypeNode::TypeExpr { name: n, args } => if args.len() == 0 {
                n
            } else {
                name.to_string()
            },
            TypeNode::ConstTypeArg { .. } => name.to_string(),
        }
    }

    /// What a type stands for.
    pub fn meaning(&self, t: &TypeNode) -> (r: TypeNode)
        ensures
            r@ == meant(self@, t@),
    {
        self.expand(t, self.hops)
    }
}

} // verus!
