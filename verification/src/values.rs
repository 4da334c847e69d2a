//! The types that can be read off an expression and what is declared, and where a
//! value of one type may stand for another.

use vstd::prelude::*;

use crate::aliases;
use crate::ast;
use crate::ast::{Expr, FieldInit, Param, TypeNode};
use crate::declared;
use crate::declared::{Context, Declared};
use crate::error;
use crate::error::{XError, XResult};
use crate::scopes;
use crate::scopes::Scopes;
use crate::source::Spanned;
use crate::text;

verus! {

/// What is known of a declared variable.
#[verifier::ext_equal]
pub struct Seen {
    pub mutable: bool,
    /// Its type, where it was declared with one.
    pub ty: Option<ast::Type>,
}

/// For each scope, the variables it declares.
pub type Vars = Seq<Map<Seq<char>, Seen>>;

/// A declared variable.
pub struct Var {
    pub mutable: bool,
    pub ty: Option<TypeNode>,
}

/// A type that may be missing.
pub open spec fn type_if(t: Option<TypeNode>) -> Option<ast::Type> {
    match t {
        Some(t) => Some(t@),
        None => None,
    }
}

impl View for Var {
    type V = Seen;

    open spec fn view(&self) -> Seen {
        Seen { mutable: self.mutable, ty: type_if(self.ty) }
    }
}

/// The type of an expression. That of a literal, and of what is made of literals
/// alone, may also be another type of the same family.
#[verifier::ext_equal]
pub struct Reading {
    pub ty: ast::Type,
    pub literal: bool,
}

/// The type with this name and no arguments.
pub open spec fn plain(name: Seq<char>) -> ast::Type {
    ast::Type::Named { name, args: Seq::empty() }
}

/// Whether a type is a built-in scalar type.
pub open spec fn scalar(t: ast::Type) -> bool {
    t matches ast::Type::Named { name, args } && args.len() == 0 && aliases::is_scalar(name)
}

/// Whether a name is that of a string type.
pub open spec fn is_text(name: Seq<char>) -> bool {
    name == "String"@ || name == "Str"@
}

/// Whether two scalar types are of one family: whole numbers, numbers with a
/// fraction, strings, or truth values.
pub open spec fn akin(a: Seq<char>, b: Seq<char>) -> bool {
    ||| (a == "i32"@ || a == "i64"@) && (b == "i32"@ || b == "i64"@)
    ||| (a == "f32"@ || a == "f64"@) && (b == "f32"@ || b == "f64"@)
    ||| is_text(a) && is_text(b)
    ||| a == b
}

/// Whether a type is built into the language.
pub open spec fn built_in(t: ast::Type) -> bool {
    match t {
        ast::Type::Named { name, args } => if args.len() == 0 {
            aliases::is_scalar(name)
        } else {
            name == "Option"@ || name == "Result"@ || name == "Array"@ || name == "Vec"@ || name
                == "Slice"@
        },
        ast::Type::Const { .. } => false,
    }
}

/// How a type is shown.
pub open spec fn type_text(t: ast::Type) -> Seq<char> {
    match t {
        ast::Type::Named { name, args } => if args.len() == 0 {
            name
        } else {
            name + "<...>"@
        },
        ast::Type::Const { value } => value,
    }
}

/// Whether an operator gives a truth value, whatever its operands are.
pub open spec fn tells_truth(op: Seq<char>) -> bool {
    ||| op == "<"@
    ||| op == "<="@
    ||| op == ">"@
    ||| op == ">="@
    ||| op == "=="@
    ||| op == "!="@
    ||| op == "&&"@
    ||| op == "||"@
}

/// The type of an operation on two values; nothing where it cannot be read off
/// their types.
pub open spec fn combined(op: Seq<char>, a: Option<Reading>, b: Option<Reading>) -> Option<Reading> {
    if tells_truth(op) {
        Some(Reading { ty: plain("bool"@), literal: false })
    } else if a is None || b is None || !scalar(a->0.ty) || !scalar(b->0.ty) {
        None
    } else if is_text(a->0.ty->name) || is_text(b->0.ty->name) {
        if op == "+"@ || op == "*"@ {
            Some(Reading { ty: plain("String"@), literal: true })
        } else {
            None
        }
    } else if !akin(a->0.ty->name, b->0.ty->name) {
        None
    } else if a->0.literal {
        b
    } else if b->0.literal || a->0.ty->name == b->0.ty->name {
        a
    } else {
        None
    }
}

/// The declared type of a variable.
pub open spec fn declared_type(vars: Vars, name: Seq<char>) -> Option<ast::Type> {
    match scopes::found(vars, name) {
        Some(seen) => seen.ty,
        None => None,
    }
}

/// The name of a type that has no arguments.
pub open spec fn bare(r: Option<Reading>) -> Option<Seq<char>> {
    match r {
        Some(r) => match r.ty {
            ast::Type::Named { name, args } => if args.len() == 0 {
                Some(name)
            } else {
                None
            },
            ast::Type::Const { .. } => None,
        },
        None => None,
    }
}

/// The type of the elements of a type: a string has the values of its bytes.
pub open spec fn element(t: ast::Type) -> Option<ast::Type> {
    match t {
        ast::Type::Named { name, args } => if args.len() == 0 {
            if is_text(name) {
                Some(plain("i32"@))
            } else {
                None
            }
        } else if name == "Vec"@ || name == "Slice"@ || name == "Array"@ {
            Some(args[0])
        } else {
            None
        },
        ast::Type::Const { .. } => None,
    }
}

/// A value of a declared type.
pub open spec fn told(known: Declared, t: Option<ast::Type>) -> Option<Reading> {
    match t {
        Some(t) => Some(Reading { ty: aliases::meant(known.aliases, t), literal: false }),
        None => None,
    }
}

/// The type of a field of a value.
pub open spec fn field_read(known: Declared, r: Option<Reading>, field: Seq<char>) -> Option<
    ast::Type,
> {
    match bare(r) {
        Some(owner) => declared::field_type(known.items, owner, field, 0),
        None => None,
    }
}

/// The type of an expression, where it can be read off the expression and what is
/// declared.
pub open spec fn reading(known: Declared, vars: Vars, e: Spanned<Expr>) -> Option<Reading>
    decreases e,
{
    match e.node {
        Expr::IntLiteral { .. } => Some(Reading { ty: plain("i32"@), literal: true }),
        Expr::FloatLiteral { .. } => Some(Reading { ty: plain("f64"@), literal: true }),
        Expr::StringLiteral { .. } => Some(Reading { ty: plain("String"@), literal: true }),
        Expr::BoolLiteral { .. } => Some(Reading { ty: plain("bool"@), literal: false }),
        Expr::Identifier { name } => told(known, declared_type(vars, name@)),
        Expr::BinaryExpr { op, left, right } => combined(
            op@,
            reading(known, vars, *left),
            reading(known, vars, *right),
        ),
        Expr::UnaryExpr { op, value } => if op@ == "!"@ {
            Some(Reading { ty: plain("bool"@), literal: false })
        } else {
            reading(known, vars, *value)
        },
        Expr::StructLiteral { name, .. } => told(known, Some(plain(name@))),
        Expr::CallExpr { callee, .. } => match callee.node {
            Expr::Identifier { name } => told(known, declared::result_type(known.items, name@, 0)),
            Expr::FieldAccessExpr { object, field } => match bare(reading(known, vars, *object)) {
                Some(owner) => told(
                    known,
                    declared::method_type(known.aliases, known.items, owner, field@, 0),
                ),
                None => None,
            },
            _ => None,
        },
        Expr::FieldAccessExpr { object, field } => told(
            known,
            field_read(known, reading(known, vars, *object), field@),
        ),
        Expr::IndexExpr { object, .. } => match reading(known, vars, *object) {
            Some(r) => match element(r.ty) {
                Some(t) => Some(Reading { ty: t, literal: false }),
                None => None,
            },
            None => None,
        },
        _ => None,
    }
}

/// The declared type of what is assigned to.
pub open spec fn place_type(known: Declared, vars: Vars, target: Spanned<Expr>) -> Option<
    ast::Type,
> {
    match target.node {
        Expr::Identifier { name } => declared_type(vars, name@),
        Expr::FieldAccessExpr { object, field } => field_read(
            known,
            reading(known, vars, *object),
            field@,
        ),
        _ => None,
    }
}

/// Whether a value may stand where one of type `wanted` is expected.
pub open spec fn fits(r: Reading, wanted: ast::Type) -> bool {
    r.ty == wanted || (scalar(r.ty) && scalar(wanted) && akin(r.ty->name, wanted->name) && (
    r.literal || is_text(wanted->name)))
}

/// What is said of a value of one type where another is wanted.
pub open spec fn cast_text(found: ast::Type, wanted: ast::Type) -> Seq<char> {
    "a value of type "@ + type_text(found) + " cannot stand for one of type "@ + type_text(wanted)
        + "; there are no implicit casts"@
}

/// There are no implicit casts: a value of one built-in type cannot stand where
/// another built-in type is wanted.
pub open spec fn cast_verdict(
    known: Declared,
    vars: Vars,
    wanted: Option<ast::Type>,
    e: Spanned<Expr>,
) -> Result<(), error::Fault> {
    match aliases::meant_if(known.aliases, wanted) {
        Some(w) => match reading(known, vars, e) {
            Some(r) => if built_in(w) && built_in(r.ty) && !fits(r, w) {
                Err(error::Fault::Type(cast_text(r.ty, w)))
            } else {
                Ok(())
            },
            None => Ok(()),
        },
        None => Ok(()),
    }
}

/// What a call goes to.
pub struct Called {
    /// The parameters of the function or method.
    pub params: Seq<Param>,
    /// Which of them takes the first argument. That of a method follows the
    /// receiver.
    pub from: int,
}

/// What a call goes to, where the program declares it.
pub open spec fn called(known: Declared, vars: Vars, callee: Spanned<Expr>) -> Option<Called> {
    match callee.node {
        Expr::Identifier { name } => match declared::fn_params(known.items, name@, 0) {
            Some(params) => Some(Called { params, from: 0 }),
            None => None,
        },
        Expr::FieldAccessExpr { object, field } => match bare(reading(known, vars, *object)) {
            Some(owner) => match declared::method_params(known.aliases, known.items, owner, field@, 0) {
                Some(params) => Some(Called { params, from: 1 }),
                None => None,
            },
            None => None,
        },
        _ => None,
    }
}

/// The arguments from the `i`-th on, for the parameters from the `from`-th on.
pub open spec fn passed_verdict(
    known: Declared,
    vars: Vars,
    params: Seq<Param>,
    from: int,
    args: Seq<Spanned<Expr>>,
    i: int,
) -> Result<(), error::Fault>
    decreases args.len() - i,
{
    if i < 0 || i >= args.len() || from + i >= params.len() {
        Ok(())
    } else {
        match cast_verdict(known, vars, Some(params[from + i].ty@), args[i]) {
            Err(f) => Err(f),
            Ok(_) => passed_verdict(known, vars, params, from, args, i + 1),
        }
    }
}

/// The arguments of a call.
pub open spec fn call_verdict(
    known: Declared,
    vars: Vars,
    callee: Spanned<Expr>,
    args: Seq<Spanned<Expr>>,
) -> Result<(), error::Fault> {
    match called(known, vars, callee) {
        Some(c) => passed_verdict(known, vars, c.params, c.from, args, 0),
        None => Ok(()),
    }
}

/// The values of the fields of a struct from the `i`-th on.
pub open spec fn filled_verdict(
    known: Declared,
    vars: Vars,
    name: Seq<char>,
    fields: Seq<FieldInit>,
    i: int,
) -> Result<(), error::Fault>
    decreases fields.len() - i,
{
    if i < 0 || i >= fields.len() {
        Ok(())
    } else {
        match cast_verdict(
            known,
            vars,
            declared::field_type(known.items, name, fields[i].name@, 0),
            fields[i].value,
        ) {
            Err(f) => Err(f),
            Ok(_) => filled_verdict(known, vars, name, fields, i + 1),
        }
    }
}

/// A condition must be a truth value; `word` is the keyword that it belongs to.
pub open spec fn condition_verdict(
    known: Declared,
    vars: Vars,
    word: Seq<char>,
    e: Spanned<Expr>,
) -> Result<(), error::Fault> {
    match reading(known, vars, e) {
        Some(r) => if r.ty == plain("bool"@) {
            Ok(())
        } else {
            Err(error::Fault::Type(word + " condition must be bool, got "@ + type_text(r.ty)))
        },
        None => Ok(()),
    }
}

/// The type of an expression.
struct Read {
    ty: TypeNode,
    literal: bool,
}

impl Read {
    spec fn value(self) -> Reading {
        Reading { ty: self.ty@, literal: self.literal }
    }
}

spec fn read_if(r: Option<Read>) -> Option<Reading> {
    match r {
        Some(r) => Some(r.value()),
        None => None,
    }
}

/// The type with this name and no arguments.
pub fn plain_node(name: &str) -> (r: TypeNode)
    ensures
        r@ == plain(name@),
{
    let r = TypeNode::TypeExpr { name: name.to_string(), args: Vec::new() };
    assert(r@->args =~= Seq::<ast::Type>::empty());
    r
}

/// The name of a built-in scalar type.
fn scalar_name(t: &TypeNode) -> (r: Option<&str>)
    ensures
        r is Some == scalar(t@),
        r is Some ==> r->0@ == t@->name,
{
    proof {
        ast::lemma_args(*t);
    }
    match t {
        TypeNode::TypeExpr { name, args } => if args.len() == 0 && aliases::scalar(name.as_str()) {
            Some(name.as_str())
        } else {
            None
        },
        TypeNode::ConstTypeArg { .. } => None,
    }
}

fn text_name(name: &str) -> (r: bool)
    ensures
        r == is_text(name@),
{
    text::same(name, "String") || text::same(name, "Str")
}

fn kin(a: &str, b: &str) -> (r: bool)
    ensures
        r == akin(a@, b@),
{
    if text::same(a, "i32") || text::same(a, "i64") {
        if text::same(b, "i32") || text::same(b, "i64") {
            return true;
        }
    }
    if text::same(a, "f32") || text::same(a, "f64") {
        if text::same(b, "f32") || text::same(b, "f64") {
            return true;
        }
    }
    (text_name(a) && text_name(b)) || text::same(a, b)
}

/// Whether two nodes denote the same type.
fn same_type(a: &TypeNode, b: &TypeNode) -> (r: bool)
    ensures
        r == (a@ == b@),
    decreases a,
{
    proof {
        ast::lemma_args(*a);
        ast::lemma_args(*b);
    }
    match a {
        TypeNode::ConstTypeArg { value: v } => match b {
            TypeNode::ConstTypeArg { value: w } => text::same(v.as_str(), w.as_str()),
            TypeNode::TypeExpr { .. } => false,
        },
        TypeNode::TypeExpr { name: n, args: xs } => match b {
            TypeNode::ConstTypeArg { .. } => false,
            TypeNode::TypeExpr { name: m, args: ys } => {
                if !text::same(n.as_str(), m.as_str()) {
                    return false;
                }
                if xs.len() != ys.len() {
                    assert(a@->args.len() != b@->args.len());
                    return false;
                }
                let mut i: usize = 0;
                while i < xs.len()
                    invariant
                        i <= xs@.len(),
                        xs@.len() == ys@.len(),
                        *a is TypeExpr,
                        a->args == *xs,
                        a@->args == ast::types_of(xs@),
                        b@->args == ast::types_of(ys@),
                        b@ is Named,
                        a@ is Named,
                        forall|j: int| 0 <= j < i ==> (#[trigger] xs@[j])@ == ys@[j]@,
                    decreases xs@.len() - i,
                {
                    assert(decreases_to!(*a => a->args));
                    if !same_type(&xs[i], &ys[i]) {
                        assert(a@->args[i as int] != b@->args[i as int]);
                        return false;
                    }
                    i += 1;
                }
                assert(ast::types_of(xs@) =~= ast::types_of(ys@));
                true
            },
        },
    }
}

/// Whether a type is built into the language.
fn is_built_in(t: &TypeNode) -> (r: bool)
    ensures
        r == built_in(t@),
{
    proof {
        ast::lemma_args(*t);
    }
    match t {
        TypeNode::TypeExpr { name, args } => {
            let n = name.as_str();
            if args.len() == 0 {
                aliases::scalar(n)
            } else {
                text::same(n, "Option") || text::same(n, "Result") || text::same(n, "Array")
                    || text::same(n, "Vec") || text::same(n, "Slice")
            }
        },
        TypeNode::ConstTypeArg { .. } => false,
    }
}

/// How a type is shown.
fn show_type(t: &TypeNode) -> (r: String)
    ensures
        r@ == type_text(t@),
{
    proof {
        ast::lemma_args(*t);
    }
    match t {
        TypeNode::TypeExpr { name, args } => if args.len() == 0 {
            name.clone()
        } else {
            text::cat2(name.as_str(), "<...>")
        },
        TypeNode::ConstTypeArg { value } => value.clone(),
    }
}

fn truth_op(op: &str) -> (r: bool)
    ensures
        r == tells_truth(op@),
{
    text::same(op, "<") || text::same(op, "<=") || text::same(op, ">") || text::same(op, ">=")
        || text::same(op, "==") || text::same(op, "!=") || text::same(op, "&&") || text::same(
        op,
        "||",
    )
}

fn combine(op: &str, a: Option<Read>, b: Option<Read>) -> (r: Option<Read>)
    ensures
        read_if(r) == combined(op@, read_if(a), read_if(b)),
{
    if truth_op(op) {
        return Some(Read { ty: plain_node("bool"), literal: false });
    }
    let (a, b) = match (a, b) {
        (Some(a), Some(b)) => (a, b),
        _ => {
            return None;
        },
    };
    let (both_text, kindred, equal) = match (scalar_name(&a.ty), scalar_name(&b.ty)) {
        (Some(x), Some(y)) => (text_name(x) || text_name(y), kin(x, y), text::same(x, y)),
        _ => {
            return None;
        },
    };
    if both_text {
        if text::same(op, "+") || text::same(op, "*") {
            return Some(Read { ty: plain_node("String"), literal: true });
        }
        return None;
    }
    if !kindred {
        return None;
    }
    if a.literal {
        return Some(b);
    }
    if b.literal || equal {
        return Some(a);
    }
    None
}

/// The name of a type that has no arguments.
fn bare_name(r: &Option<Read>) -> (name: Option<&str>)
    ensures
        name is Some == bare(read_if(*r)) is Some,
        name is Some ==> name->0@ == bare(read_if(*r))->0,
{
    match r {
        Some(found) => {
            proof {
                ast::lemma_args(found.ty);
            }
            match &found.ty {
                TypeNode::TypeExpr { name, args } => if args.len() == 0 {
                    Some(name.as_str())
                } else {
                    None
                },
                TypeNode::ConstTypeArg { .. } => None,
            }
        },
        None => None,
    }
}

/// The type of the elements of a type.
fn element_node(t: &TypeNode) -> (r: Option<TypeNode>)
    ensures
        type_if(r) == element(t@),
{
    proof {
        ast::lemma_args(*t);
    }
    match t {
        TypeNode::TypeExpr { name, args } => {
            let n = name.as_str();
            if args.len() == 0 {
                if text_name(n) {
                    Some(plain_node("i32"))
                } else {
                    None
                }
            } else if text::same(n, "Vec") || text::same(n, "Slice") || text::same(n, "Array") {
                assert(t@->args[0] == args@[0]@);
                Some(args[0].copied())
            } else {
                None
            }
        },
        TypeNode::ConstTypeArg { .. } => None,
    }
}

/// A value of a declared type.
fn tell(known: &Context, t: Option<TypeNode>) -> (r: Option<Read>)
    ensures
        read_if(r) == told(known@, type_if(t)),
{
    match t {
        Some(t) => Some(Read { ty: known.meaning(&t), literal: false }),
        None => None,
    }
}

/// The type of a field of a value.
fn read_field(known: &Context, r: &Option<Read>, field: &str) -> (t: Option<TypeNode>)
    ensures
        type_if(t) == field_read(known@, read_if(*r), field@),
{
    match bare_name(r) {
        Some(owner) => known.field_of(owner, field),
        None => None,
    }
}

fn read(known: &Context, vars: &Scopes<Var>, e: &Spanned<Expr>) -> (r: Option<Read>)
    ensures
        read_if(r) == reading(known@, vars@, *e),
    decreases e,
{
    match &e.node {
        Expr::IntLiteral { .. } => Some(Read { ty: plain_node("i32"), literal: true }),
        Expr::FloatLiteral { .. } => Some(Read { ty: plain_node("f64"), literal: true }),
        Expr::StringLiteral { .. } => Some(Read { ty: plain_node("String"), literal: true }),
        Expr::BoolLiteral { .. } => Some(Read { ty: plain_node("bool"), literal: false }),
        Expr::Identifier { name } => match vars.lookup(name.as_str()) {
            Some(var) => match &var.ty {
                Some(t) => Some(Read { ty: known.meaning(t), literal: false }),
                None => None,
            },
            None => None,
        },
        Expr::BinaryExpr { op, left, right } => {
            let l = read(known, vars, left);
            let r = read(known, vars, right);
            combine(op.as_str(), l, r)
        },
        Expr::UnaryExpr { op, value } => if text::same(op.as_str(), "!") {
            Some(Read { ty: plain_node("bool"), literal: false })
        } else {
            read(known, vars, value)
        },
        Expr::StructLiteral { name, .. } => tell(known, Some(plain_node(name.as_str()))),
        Expr::CallExpr { callee, .. } => match &callee.node {
            Expr::Identifier { name } => tell(known, known.result_of(name.as_str())),
            Expr::FieldAccessExpr { object, field } => {
                let found = read(known, vars, object);
                match bare_name(&found) {
                    Some(owner) => tell(known, known.method_of(owner, field.as_str())),
                    None => None,
                }
            },
            _ => None,
        },
        Expr::FieldAccessExpr { object, field } => {
            let found = read(known, vars, object);
            tell(known, read_field(known, &found, field.as_str()))
        },
        Expr::IndexExpr { object, .. } => match read(known, vars, object) {
            Some(found) => match element_node(&found.ty) {
                Some(ty) => Some(Read { ty, literal: false }),
                None => None,
            },
            None => None,
        },
        _ => None,
    }
}

/// The declared type of what is assigned to.
pub(crate) fn place_node(known: &Context, vars: &Scopes<Var>, target: &Spanned<Expr>) -> (r: Option<
    TypeNode,
>)
    ensures
        type_if(r) == place_type(known@, vars@, *target),
{
    match &target.node {
        Expr::Identifier { name } => match vars.lookup(name.as_str()) {
            Some(var) => match &var.ty {
                Some(t) => Some(t.copied()),
                None => None,
            },
            None => None,
        },
        Expr::FieldAccessExpr { object, field } => {
            let found = read(known, vars, object);
            read_field(known, &found, field.as_str())
        },
        _ => None,
    }
}

/// Check that a value may stand where a type is wanted.
pub(crate) fn check_cast(
    known: &Context,
    vars: &Scopes<Var>,
    wanted: &Option<TypeNode>,
    e: &Spanned<Expr>,
) -> (r: XResult<()>)
    ensures
        error::outcome(r) == cast_verdict(known@, vars@, type_if(*wanted), *e),
{
    let w = match wanted {
        Some(t) => known.meaning(t),
        None => {
            return Ok(());
        },
    };
    let found = match read(known, vars, e) {
        Some(found) => found,
        None => {
            return Ok(());
        },
    };
    let family = match (scalar_name(&found.ty), scalar_name(&w)) {
        (Some(x), Some(y)) => kin(x, y) && (found.literal || text_name(y)),
        _ => false,
    };
    if is_built_in(&w) && is_built_in(&found.ty) && !(same_type(&found.ty, &w) || family) {
        let x = show_type(&found.ty);
        let y = show_type(&w);
        return Err(
            XError::Type(
                text::cat5(
                    "a value of type ",
                    x.as_str(),
                    " cannot stand for one of type ",
                    y.as_str(),
                    "; there are no implicit casts",
                ),
            ),
        );
    }
    Ok(())
}

fn check_passed(
    known: &Context,
    vars: &Scopes<Var>,
    params: &Vec<Param>,
    from: usize,
    args: &Vec<Spanned<Expr>>,
) -> (r: XResult<()>)
    requires
        from <= 1,
    ensures
        error::outcome(r) == passed_verdict(known@, vars@, params@, from as int, args@, 0),
{
    let mut i: usize = 0;
    while i < args.len() && from < params.len() && i < params.len() - from
        invariant
            i <= args@.len(),
            passed_verdict(known@, vars@, params@, from as int, args@, 0) == passed_verdict(
                known@,
                vars@,
                params@,
                from as int,
                args@,
                i as int,
            ),
        decreases args@.len() - i,
    {
        let wanted = Some(params[from + i].ty.copied());
        check_cast(known, vars, &wanted, &args[i])?;
        i += 1;
    }
    Ok(())
}

/// Check that the arguments of a call may stand for its parameters.
pub(crate) fn check_call(
    known: &Context,
    vars: &Scopes<Var>,
    callee: &Spanned<Expr>,
    args: &Vec<Spanned<Expr>>,
) -> (r: XResult<()>)
    ensures
        error::outcome(r) == call_verdict(known@, vars@, *callee, args@),
{
    match &callee.node {
        Expr::Identifier { name } => match known.params_of(name.as_str()) {
            Some(params) => check_passed(known, vars, params, 0, args),
            None => Ok(()),
        },
        Expr::FieldAccessExpr { object, field } => {
            let found = read(known, vars, object);
            match bare_name(&found) {
                Some(owner) => match known.method_params_of(owner, field.as_str()) {
                    Some(params) => check_passed(known, vars, params, 1, args),
                    None => Ok(()),
                },
                None => Ok(()),
            }
        },
        _ => Ok(()),
    }
}

/// Check that the values of the fields of a struct may stand for them.
pub(crate) fn check_filled(
    known: &Context,
    vars: &Scopes<Var>,
    name: &str,
    fields: &Vec<FieldInit>,
) -> (r: XResult<()>)
    ensures
        error::outcome(r) == filled_verdict(known@, vars@, name@, fields@, 0),
{
    let mut i: usize = 0;
    while i < fields.len()
        invariant
            i <= fields@.len(),
            filled_verdict(known@, vars@, name@, fields@, 0) == filled_verdict(
                known@,
                vars@,
                name@,
                fields@,
                i as int,
            ),
        decreases fields@.len() - i,
    {
        let wanted = known.field_of(name, fields[i].name.as_str());
        check_cast(known, vars, &wanted, &fields[i].value)?;
        i += 1;
    }
    Ok(())
}

/// Check that a condition is a truth value.
pub(crate) fn check_condition(
    known: &Context,
    vars: &Scopes<Var>,
    word: &str,
    e: &Spanned<Expr>,
) -> (r: XResult<()>)
    ensures
        error::outcome(r) == condition_verdict(known@, vars@, word@, *e),
{
    match read(known, vars, e) {
        Some(found) => {
            let truth = plain_node("bool");
            if same_type(&found.ty, &truth) {
                Ok(())
            } else {
                let shown = show_type(&found.ty);
                Err(
                    XError::Type(
                        text::cat3(word, " condition must be bool, got ", shown.as_str()),
                    ),
                )
            }
        },
        None => Ok(()),
    }
}

} // verus!
