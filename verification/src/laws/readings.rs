//! The checker: what names stand for, which types are read off expressions, and what
//! may stand where.

use vstd::prelude::*;

use crate::aliases;
use crate::ast;
use crate::ast::{Expr, FieldDecl, FieldInit, Item, Param};
use crate::declared;
use crate::declared::Declared;
use crate::error;
use crate::scopes;
use crate::source::Spanned;
use crate::typecheck;
use crate::values;

verus! {

// ---------------------------------------------------------------------------
// Scopes
// ---------------------------------------------------------------------------

/// A declared name stands for what it was declared with last, and every other name for
/// what it stood for before.
pub proof fn law_declared_is_found<T>(v: Seq<Map<Seq<char>, T>>, name: Seq<char>, value: T, other: Seq<char>)
    requires
        v.len() > 0,
        other != name,
    ensures
        scopes::found(scopes::declared(v, name, value), name) == Some(value),
        scopes::found(scopes::declared(v, name, value), other) == scopes::found(v, other),
        scopes::declared(v, name, value).len() == v.len(),
{
    let u = scopes::declared(v, name, value);
    assert(u.drop_last() =~= v.drop_last());
}

/// Entering a scope changes no name, and leaving it brings back what was before, with
/// all that was declared in between gone.
pub proof fn law_scopes_nest<T>(v: Seq<Map<Seq<char>, T>>, name: Seq<char>, value: T)
    ensures
        scopes::found(scopes::entered(v), name) == scopes::found(v, name),
        scopes::entered(v).len() == v.len() + 1,
        scopes::left(scopes::entered(v)) == v,
        scopes::left(scopes::declared(scopes::entered(v), name, value)) == v,
        scopes::found(Seq::<Map<Seq<char>, T>>::empty(), name) is None,
{
    assert(scopes::entered(v).drop_last() =~= v);
    assert(scopes::declared(scopes::entered(v), name, value).drop_last() =~= v);
}

/// The innermost scope that declares a name decides; where none does, the name stands
/// for nothing.
pub proof fn law_innermost_decides<T>(v: Seq<Map<Seq<char>, T>>, name: Seq<char>, k: int)
    requires
        -1 <= k < v.len(),
        k >= 0 ==> v[k].dom().contains(name),
        forall|j: int| k < j < v.len() ==> !(#[trigger] v[j]).dom().contains(name),
    ensures
        k >= 0 ==> scopes::found(v, name) == Some(v[k][name]),
        k < 0 ==> scopes::found(v, name) is None,
    decreases v.len(),
{
    if v.len() > 0 && k < v.len() - 1 {
        assert(!v[v.len() - 1].dom().contains(name));
        law_innermost_decides(v.drop_last(), name, k);
    }
}

// ---------------------------------------------------------------------------
// What a program declares
// ---------------------------------------------------------------------------

/// Whether an item is a function of this name.
pub open spec fn is_fn(item: Item, wanted: Seq<char>) -> bool {
    item matches Item::FnDecl { name, .. } && name@ == wanted
}

/// The first function of a name tells its parameters and what it gives back.
pub proof fn law_first_function(items: Seq<Spanned<Item>>, wanted: Seq<char>, i: int, k: int)
    requires
        0 <= i <= k <= items.len(),
        forall|j: int| i <= j < k ==> !is_fn((#[trigger] items[j]).node, wanted),
        k < items.len() ==> is_fn(items[k].node, wanted),
    ensures
        k < items.len() ==> (items[k].node matches Item::FnDecl { params, return_type, .. }
            && declared::result_type(items, wanted, i) == Some(return_type@) && declared::fn_params(
            items,
            wanted,
            i,
        ) == Some(params@)),
        k == items.len() ==> declared::result_type(items, wanted, i) is None && declared::fn_params(
            items,
            wanted,
            i,
        ) is None,
    decreases k - i,
{
    if i < k {
        assert(!is_fn(items[i].node, wanted));
        law_first_function(items, wanted, i + 1, k);
    }
}

/// Whether an item is an `impl` block of this type with a method of this name.
pub open spec fn has_method(
    known: aliases::Known,
    item: Item,
    owner: Seq<char>,
    wanted: Seq<char>,
) -> bool {
    item matches Item::ImplDecl { target, methods } && aliases::meant_name(known, target@) == owner
        && exists|j: int| 0 <= j < methods@.len() && is_fn((#[trigger] methods@[j]).node, wanted)
}

proof fn lemma_in_block(methods: Seq<Spanned<Item>>, wanted: Seq<char>, i: int)
    requires
        0 <= i <= methods.len(),
    ensures
        declared::result_type(methods, wanted, i) is Some <==> exists|j: int|
            i <= j < methods.len() && is_fn((#[trigger] methods[j]).node, wanted),
        declared::fn_params(methods, wanted, i) is Some <==> exists|j: int|
            i <= j < methods.len() && is_fn((#[trigger] methods[j]).node, wanted),
    decreases methods.len() - i,
{
    if i < methods.len() {
        lemma_in_block(methods, wanted, i + 1);
        if is_fn(methods[i].node, wanted) {
        } else if exists|j: int| i <= j < methods.len() && is_fn((#[trigger] methods[j]).node, wanted) {
            let j = choose|j: int| i <= j < methods.len() && is_fn((#[trigger] methods[j]).node, wanted);
            assert(i + 1 <= j);
        }
    }
}

/// The first `impl` block of a type that has a method of a name tells its parameters and
/// what it gives back.
pub proof fn law_first_method(
    known: aliases::Known,
    items: Seq<Spanned<Item>>,
    owner: Seq<char>,
    wanted: Seq<char>,
    i: int,
    k: int,
)
    requires
        0 <= i <= k <= items.len(),
        forall|j: int| i <= j < k ==> !has_method(known, (#[trigger] items[j]).node, owner, wanted),
        k < items.len() ==> has_method(known, items[k].node, owner, wanted),
    ensures
        k < items.len() ==> (items[k].node matches Item::ImplDecl { methods, .. }
            && declared::method_type(known, items, owner, wanted, i) == declared::result_type(
            methods@,
            wanted,
            0,
        ) && declared::method_params(known, items, owner, wanted, i) == declared::fn_params(
            methods@,
            wanted,
            0,
        )),
        k == items.len() ==> declared::method_type(known, items, owner, wanted, i) is None
            && declared::method_params(known, items, owner, wanted, i) is None,
    decreases k - i,
{
    if i < items.len() {
        if let Item::ImplDecl { methods, .. } = items[i].node {
            lemma_in_block(methods@, wanted, 0);
        }
        if i < k {
            assert(!has_method(known, items[i].node, owner, wanted));
            law_first_method(known, items, owner, wanted, i + 1, k);
        }
    }
}

/// The first field of a name tells its type.
pub proof fn law_first_field(fields: Seq<FieldDecl>, wanted: Seq<char>, i: int, k: int)
    requires
        0 <= i <= k <= fields.len(),
        forall|j: int| i <= j < k ==> (#[trigger] fields[j]).name@ != wanted,
        k < fields.len() ==> fields[k].name@ == wanted,
    ensures
        k < fields.len() ==> declared::type_among(fields, wanted, i) == Some(fields[k].ty@),
        k == fields.len() ==> declared::type_among(fields, wanted, i) is None,
    decreases k - i,
{
    if i < k {
        assert(fields[i].name@ != wanted);
        law_first_field(fields, wanted, i + 1, k);
    }
}

/// Whether an item is a struct of this name.
pub open spec fn is_struct(item: Item, owner: Seq<char>) -> bool {
    item matches Item::StructDecl { name, .. } && name@ == owner
}

/// The first struct of a name tells the types of its fields.
pub proof fn law_first_struct(
    items: Seq<Spanned<Item>>,
    owner: Seq<char>,
    wanted: Seq<char>,
    i: int,
    k: int,
)
    requires
        0 <= i <= k <= items.len(),
        forall|j: int| i <= j < k ==> !is_struct((#[trigger] items[j]).node, owner),
        k < items.len() ==> is_struct(items[k].node, owner),
    ensures
        k < items.len() ==> (items[k].node matches Item::StructDecl { fields, .. }
            && declared::field_type(items, owner, wanted, i) == declared::type_among(
            fields@,
            wanted,
            0,
        )),
        k == items.len() ==> declared::field_type(items, owner, wanted, i) is None,
    decreases k - i,
{
    if i < k {
        assert(!is_struct(items[i].node, owner));
        law_first_struct(items, owner, wanted, i + 1, k);
    }
}

// ---------------------------------------------------------------------------
// Aliases
// ---------------------------------------------------------------------------

/// An alias stands for its type, with the aliases in that replaced in turn; the
/// arguments of a type are replaced one by one; and all else stays.
pub proof fn law_expanded(types: Map<Seq<char>, ast::Type>, name: Seq<char>, args: Seq<ast::Type>, hops: nat, i: int)
    ensures
        args.len() == 0 && hops > 0 && types.dom().contains(name) ==> aliases::expanded(
            types,
            ast::Type::Named { name, args },
            hops,
        ) == aliases::expanded(types, types[name], (hops - 1) as nat),
        args.len() == 0 && !types.dom().contains(name) ==> aliases::expanded(
            types,
            ast::Type::Named { name, args },
            hops,
        ) == (ast::Type::Named { name, args }),
        args.len() > 0 ==> (aliases::expanded(
            types,
            ast::Type::Named { name, args },
            hops,
        ) matches ast::Type::Named { name: n, args: a } && n == name && a.len() == args.len() && (0
            <= i < args.len() ==> a[i] == aliases::expanded(types, args[i], hops))),
{
    reveal_with_fuel(aliases::expanded, 2);
}

/// The aliases of a program are those of all its items, and as many of them are followed
/// in a row as there are items.
pub proof fn law_aliases_of_program(items: Seq<Spanned<Item>>)
    ensures
        aliases::of_items(items).types == aliases::alias_types(items, items.len() as int),
        aliases::of_items(items).hops == items.len(),
        declared::of_items(items).aliases == aliases::of_items(items),
        declared::of_items(items).items == items,
{
}

/// What a name stands for: the name of the type behind it, where that has no arguments,
/// and itself otherwise.
pub proof fn law_meant_name(known: aliases::Known, name: Seq<char>)
    ensures
        match aliases::meant(known, named(name)) {
            ast::Type::Named { name: n, args } => if args.len() == 0 {
                aliases::meant_name(known, name) == n
            } else {
                aliases::meant_name(known, name) == name
            },
            ast::Type::Const { .. } => aliases::meant_name(known, name) == name,
        },
        aliases::meant(known, named(name)) == aliases::expanded(
            known.types,
            named(name),
            known.hops,
        ),
{
}

/// Whether a name cannot be that of an alias: it is a built-in scalar type, or a struct
/// or enum of the program.
pub open spec fn taken(items: Seq<Spanned<Item>>, name: Seq<char>) -> bool {
    ||| name == "i32"@
    ||| name == "i64"@
    ||| name == "f32"@
    ||| name == "f64"@
    ||| name == "bool"@
    ||| name == "String"@
    ||| name == "Str"@
    ||| exists|i: int|
        0 <= i < items.len() && match (#[trigger] items[i]).node {
            Item::StructDecl { name: n, .. } => n@ == name,
            Item::EnumDecl { name: n, .. } => n@ == name,
            _ => false,
        }
}

/// Whether an item is an alias of this name.
pub open spec fn is_alias(item: Item, wanted: Seq<char>) -> bool {
    item matches Item::TypeAliasDecl { name, .. } && name@ == wanted
}

/// The last alias of a name counts, wherever it stands; a name that is taken is none.
pub proof fn law_last_alias(items: Seq<Spanned<Item>>, wanted: Seq<char>, n: int, k: int)
    requires
        -1 <= k < n <= items.len(),
        forall|j: int| k < j < n ==> !is_alias((#[trigger] items[j]).node, wanted),
        k >= 0 ==> is_alias(items[k].node, wanted),
    ensures
        !taken(items, wanted) && k >= 0 ==> (items[k].node matches Item::TypeAliasDecl { ty, .. }
            && aliases::alias_types(items, n).dom().contains(wanted) && aliases::alias_types(
            items,
            n,
        )[wanted] == ty@),
        taken(items, wanted) || k < 0 ==> !aliases::alias_types(items, n).dom().contains(wanted),
    decreases n,
{
    assert(aliases::is_taken(items, wanted) == taken(items, wanted)) by {
        if exists|i: int| 0 <= i < items.len() && aliases::declares((#[trigger] items[i]).node, wanted) {
            let i = choose|i: int|
                0 <= i < items.len() && aliases::declares((#[trigger] items[i]).node, wanted);
            assert(items[i].node == items[i].node);
        }
        if exists|i: int|
            0 <= i < items.len() && match (#[trigger] items[i]).node {
                Item::StructDecl { name: n, .. } => n@ == wanted,
                Item::EnumDecl { name: n, .. } => n@ == wanted,
                _ => false,
            } {
            let i = choose|i: int|
                0 <= i < items.len() && match (#[trigger] items[i]).node {
                    Item::StructDecl { name: n, .. } => n@ == wanted,
                    Item::EnumDecl { name: n, .. } => n@ == wanted,
                    _ => false,
                };
            assert(aliases::declares(items[i].node, wanted));
        }
    }
    if n > 0 {
        let before = items[n - 1].node;
        if k < n - 1 {
            assert(!is_alias(items[n - 1].node, wanted));
            if n - 1 > 0 || k >= 0 {
                lemma_last_alias(items, wanted, n, k);
            }
        } else {
            lemma_taken_never(items, wanted, n);
        }
    }
}

proof fn lemma_taken_never(items: Seq<Spanned<Item>>, wanted: Seq<char>, n: int)
    requires
        0 <= n <= items.len(),
    ensures
        aliases::is_taken(items, wanted) ==> !aliases::alias_types(items, n).dom().contains(wanted),
    decreases n,
{
    if n > 0 {
        lemma_taken_never(items, wanted, n - 1);
    }
}

proof fn lemma_last_alias(items: Seq<Spanned<Item>>, wanted: Seq<char>, n: int, k: int)
    requires
        -1 <= k < n - 1,
        0 < n <= items.len(),
        forall|j: int| k < j < n ==> !is_alias((#[trigger] items[j]).node, wanted),
        k >= 0 ==> is_alias(items[k].node, wanted),
    ensures
        aliases::alias_types(items, n).dom().contains(wanted) == aliases::alias_types(
            items,
            k + 1,
        ).dom().contains(wanted),
        aliases::alias_types(items, k + 1).dom().contains(wanted) ==> aliases::alias_types(items, n)[wanted]
            == aliases::alias_types(items, k + 1)[wanted],
        k >= 0 ==> (items[k].node matches Item::TypeAliasDecl { ty, .. } && (
        !aliases::is_taken(items, wanted) ==> aliases::alias_types(items, k + 1)
            == aliases::alias_types(items, k).insert(wanted, ty@))),
        aliases::is_taken(items, wanted) ==> !aliases::alias_types(items, n).dom().contains(wanted),
    decreases n,
{
    lemma_taken_never(items, wanted, n);
    assert(!is_alias(items[n - 1].node, wanted));
    if k < n - 2 {
        lemma_last_alias(items, wanted, n - 1, k);
    }
}

// ---------------------------------------------------------------------------
// Types of expressions
// ---------------------------------------------------------------------------

/// A type that was read off a value that is not made of literals alone.
pub open spec fn value_of(t: ast::Type) -> Option<values::Reading> {
    Some(values::Reading { ty: t, literal: false })
}

/// A type that was read off literals alone.
pub open spec fn literal_of(t: ast::Type) -> Option<values::Reading> {
    Some(values::Reading { ty: t, literal: true })
}

/// The scalar type of a name.
pub open spec fn named(name: Seq<char>) -> ast::Type {
    ast::Type::Named { name, args: Seq::empty() }
}

/// The types of literals.
pub proof fn law_literals_read(known: Declared, vars: values::Vars, e: Spanned<Expr>)
    ensures
        e.node is IntLiteral ==> values::reading(known, vars, e) == literal_of(named("i32"@)),
        e.node is FloatLiteral ==> values::reading(known, vars, e) == literal_of(named("f64"@)),
        e.node is StringLiteral ==> values::reading(known, vars, e) == literal_of(named("String"@)),
        e.node is BoolLiteral ==> values::reading(known, vars, e) == value_of(named("bool"@)),
        e.node is ArrayLiteral ==> values::reading(known, vars, e) is None,
        e.node is RangeExpr ==> values::reading(known, vars, e) is None,
        e.node is AssignmentExpr ==> values::reading(known, vars, e) is None,
{
}

/// The type of a variable is the one that it was declared with, and that of a struct
/// literal the struct, both with aliases replaced.
pub proof fn law_names_read(known: Declared, vars: values::Vars, e: Spanned<Expr>)
    ensures
        e.node matches Expr::Identifier { name } ==> (match scopes::found(vars, name@) {
            Some(seen) => match seen.ty {
                Some(t) => values::reading(known, vars, e) == value_of(
                    aliases::meant(known.aliases, t),
                ),
                None => values::reading(known, vars, e) is None,
            },
            None => values::reading(known, vars, e) is None,
        }),
        e.node matches Expr::StructLiteral { name, .. } ==> values::reading(known, vars, e) == value_of(
            aliases::meant(known.aliases, named(name@)),
        ),
{
}

/// A negation is a truth value; any other unary operator keeps the type.
pub proof fn law_unary_read(known: Declared, vars: values::Vars, e: Spanned<Expr>)
    requires
        e.node is UnaryExpr,
    ensures
        e.node matches Expr::UnaryExpr { op, value } && (if op@ == "!"@ {
            values::reading(known, vars, e) == value_of(named("bool"@))
        } else {
            values::reading(known, vars, e) == values::reading(known, vars, *value)
        }),
{
}

/// The type of a call is what the function or method is declared to give back.
pub proof fn law_calls_read(known: Declared, vars: values::Vars, e: Spanned<Expr>)
    requires
        e.node is CallExpr,
    ensures
        e.node matches Expr::CallExpr { callee, .. } && (match callee.node {
            Expr::Identifier { name } => match declared::result_type(known.items, name@, 0) {
                Some(t) => values::reading(known, vars, e) == value_of(
                    aliases::meant(known.aliases, t),
                ),
                None => values::reading(known, vars, e) is None,
            },
            Expr::FieldAccessExpr { object, field } => match values::reading(known, vars, *object) {
                Some(r) => match r.ty {
                    ast::Type::Named { name, args } => if args.len() == 0 {
                        match declared::method_type(known.aliases, known.items, name, field@, 0) {
                            Some(t) => values::reading(known, vars, e) == value_of(
                                aliases::meant(known.aliases, t),
                            ),
                            None => values::reading(known, vars, e) is None,
                        }
                    } else {
                        values::reading(known, vars, e) is None
                    },
                    _ => values::reading(known, vars, e) is None,
                },
                None => values::reading(known, vars, e) is None,
            },
            _ => values::reading(known, vars, e) is None,
        }),
{
    reveal_with_fuel(values::reading, 2);
}

/// The type of a field is the declared one, and that of an element the one that its
/// collection holds; a string holds the values of its bytes.
pub proof fn law_parts_read(known: Declared, vars: values::Vars, e: Spanned<Expr>)
    ensures
        e.node matches Expr::FieldAccessExpr { object, field } ==> (match values::reading(
            known,
            vars,
            *object,
        ) {
            Some(r) => match r.ty {
                ast::Type::Named { name, args } => if args.len() == 0 {
                    match declared::field_type(known.items, name, field@, 0) {
                        Some(t) => values::reading(known, vars, e) == value_of(
                            aliases::meant(known.aliases, t),
                        ),
                        None => values::reading(known, vars, e) is None,
                    }
                } else {
                    values::reading(known, vars, e) is None
                },
                _ => values::reading(known, vars, e) is None,
            },
            None => values::reading(known, vars, e) is None,
        }),
        e.node matches Expr::IndexExpr { object, .. } ==> (match values::reading(
            known,
            vars,
            *object,
        ) {
            Some(r) => match r.ty {
                ast::Type::Named { name, args } => if args.len() == 0 && (name == "String"@ || name
                    == "Str"@) {
                    values::reading(known, vars, e) == value_of(named("i32"@))
                } else if args.len() > 0 && (name == "Vec"@ || name == "Slice"@ || name == "Array"@) {
                    values::reading(known, vars, e) == value_of(args[0])
                } else {
                    values::reading(known, vars, e) is None
                },
                _ => values::reading(known, vars, e) is None,
            },
            None => values::reading(known, vars, e) is None,
        }),
{
}

/// Whether a name is that of a built-in scalar type.
pub open spec fn scalar_name(name: Seq<char>) -> bool {
    ||| name == "i32"@
    ||| name == "i64"@
    ||| name == "f32"@
    ||| name == "f64"@
    ||| name == "bool"@
    ||| name == "String"@
    ||| name == "Str"@
}

/// Comparisons and logic give truth values, whatever they are applied to. With a string,
/// `+` and `*` give a string and any other operator nothing that is known.
pub proof fn law_operators_read(
    op: Seq<char>,
    a: Option<values::Reading>,
    b: Option<values::Reading>,
    x: Seq<char>,
    y: Seq<char>,
)
    ensures
        op == "<"@ || op == "<="@ || op == ">"@ || op == ">="@ || op == "=="@ || op == "!="@ || op
            == "&&"@ || op == "||"@ ==> values::combined(op, a, b) == value_of(named("bool"@)),
        !values::tells_truth(op) && (a is None || b is None) ==> values::combined(op, a, b) is None,
        (op == "+"@ || op == "*"@) && a is Some && a->0.ty == named(x) && b is Some && b->0.ty == named(
            y,
        ) && scalar_name(x) && scalar_name(y) && (x == "String"@ || x == "Str"@ || y == "String"@
            || y == "Str"@) ==> values::combined(op, a, b) == literal_of(named("String"@)),
{
    reveal_strlit("+");
    reveal_strlit("*");
    reveal_strlit("<");
    reveal_strlit("<=");
    reveal_strlit(">");
    reveal_strlit(">=");
    reveal_strlit("==");
    reveal_strlit("!=");
    reveal_strlit("&&");
    reveal_strlit("||");
    assert("+"@[0] == '+' && "*"@[0] == '*' && "<"@[0] == '<' && "<="@.len() == 2 && ">"@[0] == '>'
        && ">="@.len() == 2 && "=="@.len() == 2 && "!="@.len() == 2 && "&&"@.len() == 2 && "||"@.len()
        == 2 && "+"@.len() == 1 && "*"@.len() == 1);
}

/// Whether two names are of numbers of one family, or the same.
pub open spec fn one_family(x: Seq<char>, y: Seq<char>) -> bool {
    ||| (x == "i32"@ || x == "i64"@) && (y == "i32"@ || y == "i64"@)
    ||| (x == "f32"@ || x == "f64"@) && (y == "f32"@ || y == "f64"@)
    ||| (x == "String"@ || x == "Str"@) && (y == "String"@ || y == "Str"@)
    ||| x == y
}

/// Numbers of one family give the type of the one that is no literal; two of different
/// types, or of different families, give nothing that is known.
pub proof fn law_arithmetic_read(
    op: Seq<char>,
    a: values::Reading,
    b: values::Reading,
    x: Seq<char>,
    y: Seq<char>,
)
    requires
        op == "+"@ || op == "-"@ || op == "*"@ || op == "/"@ || op == "%"@,
        a.ty == named(x),
        b.ty == named(y),
        scalar_name(x) && x != "String"@ && x != "Str"@,
        scalar_name(y) && y != "String"@ && y != "Str"@,
    ensures
        ({
            let r = values::combined(op, Some(a), Some(b));
            &&& !one_family(x, y) ==> r is None
            &&& one_family(x, y) && a.literal ==> r == Some(b)
            &&& one_family(x, y) && !a.literal && b.literal ==> r == Some(a)
            &&& !a.literal && !b.literal ==> r == if x == y {
                Some(a)
            } else {
                None
            }
        }),
{
    reveal_strlit("+");
    reveal_strlit("-");
    reveal_strlit("*");
    reveal_strlit("/");
    reveal_strlit("%");
    reveal_strlit("<");
    reveal_strlit("<=");
    reveal_strlit(">");
    reveal_strlit(">=");
    reveal_strlit("==");
    reveal_strlit("!=");
    reveal_strlit("&&");
    reveal_strlit("||");
    assert("+"@[0] == '+' && "-"@[0] == '-' && "*"@[0] == '*' && "/"@[0] == '/' && "%"@[0] == '%');
    assert("+"@.len() == 1 && "-"@.len() == 1 && "*"@.len() == 1 && "/"@.len() == 1 && "%"@.len() == 1);
    assert("<"@[0] == '<' && ">"@[0] == '>' && "<="@.len() == 2 && ">="@.len() == 2 && "=="@.len() == 2
        && "!="@.len() == 2 && "&&"@.len() == 2 && "||"@.len() == 2);
    assert(!values::tells_truth(op));
}

/// The type of an operation is found from those of its two sides.
pub proof fn law_binary_read(known: Declared, vars: values::Vars, e: Spanned<Expr>)
    requires
        e.node is BinaryExpr,
    ensures
        e.node matches Expr::BinaryExpr { op, left, right } && values::reading(known, vars, e)
            == values::combined(
            op@,
            values::reading(known, vars, *left),
            values::reading(known, vars, *right),
        ),
{
}

// ---------------------------------------------------------------------------
// What may stand where
// ---------------------------------------------------------------------------

/// Whether a type is one that values are not cast to or from: a scalar, or an option,
/// result, array, vector or slice.
pub open spec fn guarded(t: ast::Type) -> bool {
    t matches ast::Type::Named { name, args } && (if args.len() == 0 {
        scalar_name(name)
    } else {
        name == "Option"@ || name == "Result"@ || name == "Array"@ || name == "Vec"@ || name
            == "Slice"@
    })
}

/// Whether a value of one guarded type may stand for another: the two are the same, or
/// scalars of one family of which the value is a literal or both are strings.
pub open spec fn may_stand(r: values::Reading, wanted: ast::Type) -> bool {
    r.ty == wanted || (r.ty matches ast::Type::Named { name: x, args: a } && (
    wanted matches ast::Type::Named { name: y, args: b } && a.len() == 0 && b.len() == 0
        && scalar_name(x) && scalar_name(y) && one_family(x, y) && (r.literal || y == "String"@ || y
        == "Str"@)))
}

/// How a type is told.
pub open spec fn shown(t: ast::Type) -> Seq<char> {
    match t {
        ast::Type::Named { name, args } => if args.len() == 0 {
            name
        } else {
            name + "<...>"@
        },
        ast::Type::Const { value } => value,
    }
}

/// There are no implicit casts: a value is refused exactly where its type and the one
/// that is wanted are both known and guarded and it may not stand for it.
pub proof fn law_no_casts(
    known: Declared,
    vars: values::Vars,
    wanted: ast::Type,
    e: Spanned<Expr>,
)
    ensures
        ({
            let w = aliases::meant(known.aliases, wanted);
            match values::reading(known, vars, e) {
                Some(r) => if guarded(w) && guarded(r.ty) && !may_stand(r, w) {
                    values::cast_verdict(known, vars, Some(wanted), e) == Err::<(), error::Fault>(
                        error::Fault::Type(
                            "a value of type "@ + shown(r.ty) + " cannot stand for one of type "@
                                + shown(w) + "; there are no implicit casts"@,
                        ),
                    )
                } else {
                    values::cast_verdict(known, vars, Some(wanted), e) is Ok
                },
                None => values::cast_verdict(known, vars, Some(wanted), e) is Ok,
            }
        }),
        values::cast_verdict(known, vars, None, e) is Ok,
{
}

/// A condition is refused exactly where its type is known and is not `bool`.
pub proof fn law_condition(known: Declared, vars: values::Vars, word: Seq<char>, e: Spanned<Expr>)
    ensures
        match values::reading(known, vars, e) {
            Some(r) => if r.ty == named("bool"@) {
                values::condition_verdict(known, vars, word, e) is Ok
            } else {
                values::condition_verdict(known, vars, word, e) == Err::<(), error::Fault>(
                    error::Fault::Type(word + " condition must be bool, got "@ + shown(r.ty)),
                )
            },
            None => values::condition_verdict(known, vars, word, e) is Ok,
        },
{
}

/// What is wanted of the value of an assignment: the type of the variable, or of the
/// field, that is assigned to.
pub proof fn law_place(known: Declared, vars: values::Vars, target: Spanned<Expr>)
    ensures
        target.node matches Expr::Identifier { name } ==> (match scopes::found(vars, name@) {
            Some(seen) => values::place_type(known, vars, target) == seen.ty,
            None => values::place_type(known, vars, target) is None,
        }),
        target.node matches Expr::FieldAccessExpr { object, field } ==> (match values::reading(
            known,
            vars,
            *object,
        ) {
            Some(r) => match r.ty {
                ast::Type::Named { name, args } => args.len() == 0 ==> values::place_type(
                    known,
                    vars,
                    target,
                ) == declared::field_type(known.items, name, field@, 0),
                _ => values::place_type(known, vars, target) is None,
            },
            None => values::place_type(known, vars, target) is None,
        }),
{
}

/// The arguments of a call are in order exactly where each of them may stand for its
/// parameter; the receiver of a method takes the first one.
pub proof fn law_arguments(
    known: Declared,
    vars: values::Vars,
    params: Seq<Param>,
    from: int,
    args: Seq<Spanned<Expr>>,
    i: int,
)
    requires
        0 <= from,
        0 <= i <= args.len(),
    ensures
        values::passed_verdict(known, vars, params, from, args, i) is Ok <==> forall|k: int|
            i <= k < args.len() && from + k < params.len() ==> values::cast_verdict(
                known,
                vars,
                Some(params[from + k].ty@),
                #[trigger] args[k],
            ) is Ok,
    decreases args.len() - i,
{
    if i < args.len() && from + i < params.len() {
        law_arguments(known, vars, params, from, args, i + 1);
        if values::passed_verdict(known, vars, params, from, args, i) is Ok {
            assert forall|k: int| i <= k < args.len() && from + k < params.len() implies values::cast_verdict(
                known,
                vars,
                Some(params[from + k].ty@),
                #[trigger] args[k],
            ) is Ok by {}
        }
    }
}

/// What a call goes to: the function of the name, or the method of the type of its
/// object, behind the receiver.
pub proof fn law_called(known: Declared, vars: values::Vars, callee: Spanned<Expr>, args: Seq<Spanned<Expr>>)
    ensures
        callee.node matches Expr::Identifier { name } ==> (match declared::fn_params(
            known.items,
            name@,
            0,
        ) {
            Some(params) => values::call_verdict(known, vars, callee, args) == values::passed_verdict(
                known,
                vars,
                params,
                0,
                args,
                0,
            ),
            None => values::call_verdict(known, vars, callee, args) is Ok,
        }),
        callee.node matches Expr::FieldAccessExpr { object, field } ==> (match values::reading(
            known,
            vars,
            *object,
        ) {
            Some(r) => match r.ty {
                ast::Type::Named { name, args: targs } => if targs.len() == 0 {
                    match declared::method_params(known.aliases, known.items, name, field@, 0) {
                        Some(params) => values::call_verdict(known, vars, callee, args)
                            == values::passed_verdict(known, vars, params, 1, args, 0),
                        None => values::call_verdict(known, vars, callee, args) is Ok,
                    }
                } else {
                    values::call_verdict(known, vars, callee, args) is Ok
                },
                _ => values::call_verdict(known, vars, callee, args) is Ok,
            },
            None => values::call_verdict(known, vars, callee, args) is Ok,
        }),
{
}

/// The values of a struct literal are in order exactly where each of them may stand for
/// its field.
pub proof fn law_fields(
    known: Declared,
    vars: values::Vars,
    name: Seq<char>,
    fields: Seq<FieldInit>,
    i: int,
)
    requires
        0 <= i <= fields.len(),
    ensures
        values::filled_verdict(known, vars, name, fields, i) is Ok <==> forall|k: int|
            i <= k < fields.len() ==> values::cast_verdict(
                known,
                vars,
                declared::field_type(known.items, name, (#[trigger] fields[k]).name@, 0),
                fields[k].value,
            ) is Ok,
    decreases fields.len() - i,
{
    if i < fields.len() {
        law_fields(known, vars, name, fields, i + 1);
        if values::filled_verdict(known, vars, name, fields, i) is Ok {
            assert forall|k: int| i <= k < fields.len() implies values::cast_verdict(
                known,
                vars,
                declared::field_type(known.items, name, (#[trigger] fields[k]).name@, 0),
                fields[k].value,
            ) is Ok by {}
        }
    }
}

/// What is told of a fault is its message.
pub proof fn law_message(m: Seq<char>)
    ensures
        error::Fault::Type(m).message() == m,
        error::Fault::Codegen(m).message() == m,
{
}

/// What is told of a function or method whose name is taken.
pub proof fn law_overloading_told(name: Seq<char>)
    ensures
        typecheck::overloaded(name) == error::Fault::Type(
            "function "@ + name + " is declared twice; overloading is not allowed"@,
        ),
{
}

} // verus!
