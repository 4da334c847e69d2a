//! The checker: which variables may be assigned to, what may be a condition and
//! what may be put where; and the table of expression types that code generation
//! consults.

use vstd::prelude::*;

use crate::aliases;
use crate::ast::{Block, ElseBranch, Expr, FieldInit, Item, MatchArm, Param, Pattern, Program, Stmt, TypeNode};
use crate::ast;
use crate::codegen::exprs;
use crate::codegen::model;
use crate::declared;
use crate::declared::{Context, Declared};
use crate::error::{debug_quoted, XError, XResult};
use crate::error;
use crate::laws::checker;
use crate::names::NameSet;
use crate::scopes::Scopes;
use crate::scopes;
use crate::source::{Span, Spanned};
use crate::text;
use crate::values;
use crate::values::{Seen, Var, Vars};

verus! {

// ---------------------------------------------------------------------------
// Types of expressions
// ---------------------------------------------------------------------------

/// The types that were inferred for expressions, by the place of the expression.
pub struct TypeMap {
    entries: Vec<(Span, TypeNode)>,
}

/// What a list of entries says of each place; of two entries for one place the
/// later one counts.
pub open spec fn type_table(entries: Seq<(Span, TypeNode)>) -> Map<Span, ast::Type>
    decreases entries.len(),
{
    if entries.len() == 0 {
        Map::empty()
    } else {
        type_table(entries.drop_last()).insert(entries.last().0, entries.last().1@)
    }
}

impl View for TypeMap {
    type V = Map<Span, ast::Type>;

    closed spec fn view(&self) -> Map<Span, ast::Type> {
        type_table(self.entries@)
    }
}

/// The type recorded for an expression.
pub open spec fn type_at(types: Map<Span, ast::Type>, e: Spanned<Expr>) -> Option<ast::Type> {
    if types.dom().contains(e.span) {
        Some(types[e.span])
    } else {
        None
    }
}

proof fn lemma_last_type(entries: Seq<(Span, TypeNode)>, i: int)
    requires
        0 <= i < entries.len(),
        forall|j: int| i < j < entries.len() ==> (#[trigger] entries[j]).0 != entries[i].0,
    ensures
        type_table(entries).dom().contains(entries[i].0),
        type_table(entries)[entries[i].0] == entries[i].1@,
    decreases entries.len(),
{
    if i < entries.len() - 1 {
        assert(entries[entries.len() - 1].0 != entries[i].0);
        lemma_last_type(entries.drop_last(), i);
    }
}

proof fn lemma_no_type(entries: Seq<(Span, TypeNode)>, place: Span)
    requires
        forall|j: int| 0 <= j < entries.len() ==> (#[trigger] entries[j]).0 != place,
    ensures
        !type_table(entries).dom().contains(place),
    decreases entries.len(),
{
    if entries.len() > 0 {
        assert(entries[entries.len() - 1].0 != place);
        lemma_no_type(entries.drop_last(), place);
    }
}

impl TypeMap {
    /// The table that knows no type.
    pub fn new() -> (r: Self)
        ensures
            r@ == Map::<Span, ast::Type>::empty(),
    {
        TypeMap { entries: Vec::new() }
    }

    /// Record the type of the expression at a place.
    pub fn insert(&mut self, place: Span, ty: TypeNode)
        ensures
            final(self)@ == old(self)@.insert(place, ty@),
    {
        let ghost before = self.entries@;
        self.entries.push((place, ty));
        assert(self.entries@.drop_last() =~= before);
    }

    /// The type of an expression.
    pub fn type_node(&self, e: &Spanned<Expr>) -> (r: Option<&TypeNode>)
        ensures
            (match r {
                Some(t) => Some(t@),
                None => None,
            }) == type_at(self@, *e),
    {
        let mut i: usize = self.entries.len();
        while i > 0
            invariant
                i <= self.entries@.len(),
                forall|j: int|
                    i <= j < self.entries@.len() ==> (#[trigger] self.entries@[j]).0 != e.span,
            decreases i,
        {
            i -= 1;
            if self.entries[i].0 == e.span {
                proof {
                    lemma_last_type(self.entries@, i as int);
                }
                return Some(&self.entries[i].1);
            }
        }
        proof {
            lemma_no_type(self.entries@, e.span);
        }
        None
    }
}

// ---------------------------------------------------------------------------
// Which assignments are in order
// ---------------------------------------------------------------------------

/// What statements are judged against, besides the variables: what the program
/// declares, and the type that the function returns.
#[verifier::ext_equal]
pub struct Frame {
    pub known: Declared,
    pub ret: Option<ast::Type>,
}

/// A variable that is not mutable.
pub open spec fn fixed(ty: Option<ast::Type>) -> Seen {
    Seen { mutable: false, ty }
}

/// Whether a variable is mutable, if it is declared.
pub open spec fn mutability(vars: Vars, name: Seq<char>) -> Option<bool> {
    match scopes::found(vars, name) {
        Some(seen) => Some(seen.mutable),
        None => None,
    }
}

/// What is said of an assignment to a variable that is not mutable; `shown` is
/// the name as it is quoted.
pub open spec fn immutable_text(name: Seq<char>, shown: Seq<char>) -> Seq<char> {
    "cannot assign to immutable variable "@ + shown + "; declare it with `let mut "@ + name
        + "` if reassignment is intended"@
}

/// What is said of an assignment to a variable that is not declared.
pub open spec fn unknown_text(shown: Seq<char>) -> Seq<char> {
    "cannot assign to unknown variable "@ + shown
}

/// Assigning to a variable is in order where it is declared as mutable.
pub open spec fn variable_verdict(
    known: Option<bool>,
    name: Seq<char>,
    shown: Seq<char>,
) -> Result<(), error::Fault> {
    match known {
        Some(true) => Ok(()),
        Some(false) => Err(error::Fault::Type(immutable_text(name, shown))),
        None => Err(error::Fault::Type(unknown_text(shown))),
    }
}

/// A variable may be assigned to where it is mutable, a field where the
/// variable that it belongs to may, and nothing else.
pub open spec fn target_verdict(vars: Vars, target: Spanned<Expr>) -> Result<(), error::Fault>
    decreases target,
{
    match target.node {
        Expr::Identifier { name } => variable_verdict(
            mutability(vars, name@),
            name@,
            error::debug_text(name@),
        ),
        Expr::FieldAccessExpr { object, .. } => target_verdict(vars, *object),
        _ => Err(error::Fault::Type("assignment target must be a variable or field access"@)),
    }
}

/// The verdict on the types of an assignment.
pub open spec fn assigned_verdict(
    fr: Frame,
    vars: Vars,
    target: Spanned<Expr>,
    value: Spanned<Expr>,
) -> Result<(), error::Fault> {
    values::cast_verdict(fr.known, vars, values::place_type(fr.known, vars, target), value)
}

/// The verdict on an expression: that on the first assignment, argument or field in
/// it that is out of order.
pub open spec fn expr_verdict(fr: Frame, vars: Vars, e: Spanned<Expr>) -> Result<(), error::Fault>
    decreases e, 0int,
{
    match e.node {
        Expr::IntLiteral { .. } => Ok(()),
        Expr::FloatLiteral { .. } => Ok(()),
        Expr::StringLiteral { .. } => Ok(()),
        Expr::BoolLiteral { .. } => Ok(()),
        Expr::Identifier { .. } => Ok(()),
        Expr::ArrayLiteral { elements } => exprs_verdict(fr, vars, elements@, 0),
        Expr::BinaryExpr { left, right, .. } => match expr_verdict(fr, vars, *left) {
            Err(f) => Err(f),
            Ok(_) => expr_verdict(fr, vars, *right),
        },
        Expr::UnaryExpr { value, .. } => expr_verdict(fr, vars, *value),
        Expr::AssignmentExpr { target, value } => match target_verdict(vars, *target) {
            Err(f) => Err(f),
            Ok(_) => match expr_verdict(fr, vars, *value) {
                Err(f) => Err(f),
                Ok(_) => assigned_verdict(fr, vars, *target, *value),
            },
        },
        Expr::CallExpr { callee, args } => match expr_verdict(fr, vars, *callee) {
            Err(f) => Err(f),
            Ok(_) => match exprs_verdict(fr, vars, args@, 0) {
                Err(f) => Err(f),
                Ok(_) => values::call_verdict(fr.known, vars, *callee, args@),
            },
        },
        Expr::FieldAccessExpr { object, .. } => expr_verdict(fr, vars, *object),
        Expr::StructLiteral { name, fields } => match inits_verdict(fr, vars, fields@, 0) {
            Err(f) => Err(f),
            Ok(_) => values::filled_verdict(
                fr.known,
                vars,
                aliases::meant_name(fr.known.aliases, name@),
                fields@,
                0,
            ),
        },
        Expr::IndexExpr { object, index } => match expr_verdict(fr, vars, *object) {
            Err(f) => Err(f),
            Ok(_) => expr_verdict(fr, vars, *index),
        },
        Expr::RangeExpr { start, end, .. } => match expr_verdict(fr, vars, *start) {
            Err(f) => Err(f),
            Ok(_) => expr_verdict(fr, vars, *end),
        },
    }
}

/// The verdict on the expressions of a list from the `i`-th on.
pub open spec fn exprs_verdict(fr: Frame, vars: Vars, es: Seq<Spanned<Expr>>, i: int) -> Result<
    (),
    error::Fault,
>
    decreases es, es.len() - i,
{
    if i < 0 || i >= es.len() {
        Ok(())
    } else {
        match expr_verdict(fr, vars, es[i]) {
            Err(f) => Err(f),
            Ok(_) => exprs_verdict(fr, vars, es, i + 1),
        }
    }
}

/// The verdict on the values of a struct literal from the `i`-th field on.
pub open spec fn inits_verdict(fr: Frame, vars: Vars, fields: Seq<FieldInit>, i: int) -> Result<
    (),
    error::Fault,
>
    decreases fields, fields.len() - i,
{
    if i < 0 || i >= fields.len() {
        Ok(())
    } else {
        match expr_verdict(fr, vars, fields[i].value) {
            Err(f) => Err(f),
            Ok(_) => inits_verdict(fr, vars, fields, i + 1),
        }
    }
}

/// The names that a pattern binds.
pub open spec fn bound_names(p: Pattern) -> Seq<String> {
    match p {
        Pattern::VariantPattern { bindings, .. } => bindings@,
        _ => Seq::empty(),
    }
}

/// The scopes after the names of a list, from the `i`-th on, were declared as
/// immutable variables.
pub open spec fn with_names(vars: Vars, names: Seq<String>, i: int) -> Vars
    decreases names.len() - i,
{
    if i < 0 || i >= names.len() {
        vars
    } else {
        with_names(scopes::declared(vars, names[i]@, fixed(None)), names, i + 1)
    }
}

/// What is known of a parameter. It is immutable, but for `mut self`.
pub open spec fn param(p: Param) -> Seen {
    Seen { mutable: p.mutable && p.name@ == "self"@, ty: Some(p.ty@) }
}

/// The scopes after the parameters of a list, from the `i`-th on, were declared.
pub open spec fn with_params(vars: Vars, params: Seq<Param>, i: int) -> Vars
    decreases params.len() - i,
{
    if i < 0 || i >= params.len() {
        vars
    } else {
        with_params(scopes::declared(vars, params[i].name@, param(params[i])), params, i + 1)
    }
}

/// The verdict on a condition: on the assignments in it, and on its type.
pub open spec fn tested_verdict(
    fr: Frame,
    vars: Vars,
    word: Seq<char>,
    e: Spanned<Expr>,
) -> Result<(), error::Fault> {
    match expr_verdict(fr, vars, e) {
        Err(f) => Err(f),
        Ok(_) => values::condition_verdict(fr.known, vars, word, e),
    }
}

/// The type of a loop variable: over a range it counts.
pub open spec fn loop_type(iterable: Spanned<Expr>) -> Option<ast::Type> {
    match iterable.node {
        Expr::RangeExpr { .. } => Some(values::plain("i32"@)),
        _ => None,
    }
}

/// Statements in a scope of their own: the scopes after them, or the first fault.
pub open spec fn block_verdict(fr: Frame, vars: Vars, block: Block) -> Result<Vars, error::Fault>
    decreases block, 0int,
{
    match stmts_verdict(fr, scopes::entered(vars), block.statements@, 0) {
        Err(f) => Err(f),
        Ok(after) => Ok(scopes::left(after)),
    }
}

/// The statements of a list from the `i`-th on: the scopes after them, or the
/// first fault.
pub open spec fn stmts_verdict(fr: Frame, vars: Vars, ss: Seq<Spanned<Stmt>>, i: int) -> Result<
    Vars,
    error::Fault,
>
    decreases ss, ss.len() - i,
{
    if i < 0 || i >= ss.len() {
        Ok(vars)
    } else {
        match stmt_verdict(fr, vars, ss[i]) {
            Err(f) => Err(f),
            Ok(after) => stmts_verdict(fr, after, ss, i + 1),
        }
    }
}

/// The arms of a `match` from the `i`-th on, each in a scope of its own that
/// holds the names bound by its pattern.
pub open spec fn arms_verdict(fr: Frame, vars: Vars, arms: Seq<MatchArm>, i: int) -> Result<
    Vars,
    error::Fault,
>
    decreases arms, arms.len() - i,
{
    if i < 0 || i >= arms.len() {
        Ok(vars)
    } else {
        match stmts_verdict(
            fr,
            with_names(scopes::entered(vars), bound_names(arms[i].pattern), 0),
            arms[i].body.statements@,
            0,
        ) {
            Err(f) => Err(f),
            Ok(after) => arms_verdict(fr, scopes::left(after), arms, i + 1),
        }
    }
}

/// One statement: the scopes after it, or the first fault in it.
pub open spec fn stmt_verdict(fr: Frame, vars: Vars, s: Spanned<Stmt>) -> Result<Vars, error::Fault>
    decreases s, 0int,
{
    match s.node {
        Stmt::LetStmt { mutable, name, ty, value } => match expr_verdict(fr, vars, value) {
            Err(f) => Err(f),
            Ok(_) => match values::cast_verdict(fr.known, vars, Some(ty@), value) {
                Err(f) => Err(f),
                Ok(_) => Ok(
                    scopes::declared(vars, name@, Seen { mutable, ty: Some(ty@) }),
                ),
            },
        },
        Stmt::IfStmt { condition, then_block, else_branch } => match tested_verdict(
            fr,
            vars,
            "if"@,
            condition,
        ) {
            Err(f) => Err(f),
            Ok(_) => match block_verdict(fr, vars, then_block) {
                Err(f) => Err(f),
                Ok(after) => match else_branch {
                    Some(ElseBranch::Block(block)) => block_verdict(fr, after, block),
                    Some(ElseBranch::IfStmt(stmt)) => stmt_verdict(fr, after, *stmt),
                    None => Ok(after),
                },
            },
        },
        Stmt::ForStmt { iterator, iterable, body } => match expr_verdict(fr, vars, iterable) {
            Err(f) => Err(f),
            Ok(_) => match stmts_verdict(
                fr,
                scopes::declared(
                    scopes::entered(vars),
                    iterator@,
                    fixed(loop_type(iterable)),
                ),
                body.statements@,
                0,
            ) {
                Err(f) => Err(f),
                Ok(after) => Ok(scopes::left(after)),
            },
        },
        Stmt::WhileStmt { condition, body } => match tested_verdict(
            fr,
            vars,
            "while"@,
            condition,
        ) {
            Err(f) => Err(f),
            Ok(_) => block_verdict(fr, vars, body),
        },
        Stmt::MatchStmt { value, arms } => match expr_verdict(fr, vars, value) {
            Err(f) => Err(f),
            Ok(_) => arms_verdict(fr, vars, arms@, 0),
        },
        Stmt::ReturnStmt { value } => match value {
            Some(value) => match expr_verdict(fr, vars, value) {
                Err(f) => Err(f),
                Ok(_) => match values::cast_verdict(fr.known, vars, fr.ret, value) {
                    Err(f) => Err(f),
                    Ok(_) => Ok(vars),
                },
            },
            None => Ok(vars),
        },
        Stmt::ExprStmt { expr } => match expr_verdict(fr, vars, expr) {
            Err(f) => Err(f),
            Ok(_) => Ok(vars),
        },
        Stmt::BreakStmt => Ok(vars),
        Stmt::ContinueStmt => Ok(vars),
    }
}

/// A function, in a scope of its own that holds its parameters.
pub open spec fn fn_verdict(known: Declared, vars: Vars, item: Item) -> Result<
    Vars,
    error::Fault,
> {
    match item {
        Item::FnDecl { params, return_type, body, .. } => match stmts_verdict(
            Frame { known, ret: Some(return_type@) },
            with_params(scopes::entered(vars), params@, 0),
            body.statements@,
            0,
        ) {
            Err(f) => Err(f),
            Ok(after) => Ok(scopes::left(after)),
        },
        _ => Ok(vars),
    }
}

/// The methods of an `impl` block from the `i`-th on.
pub open spec fn methods_verdict(
    known: Declared,
    vars: Vars,
    methods: Seq<Spanned<Item>>,
    i: int,
) -> Result<Vars, error::Fault>
    decreases methods.len() - i,
{
    if i < 0 || i >= methods.len() {
        Ok(vars)
    } else {
        match fn_verdict(known, vars, methods[i].node) {
            Err(f) => Err(f),
            Ok(after) => methods_verdict(known, after, methods, i + 1),
        }
    }
}

/// An item: functions and methods can be out of order, other items cannot.
pub open spec fn item_verdict(known: Declared, vars: Vars, item: Item) -> Result<
    Vars,
    error::Fault,
> {
    match item {
        Item::ImplDecl { methods, .. } => methods_verdict(known, vars, methods@, 0),
        _ => fn_verdict(known, vars, item),
    }
}

/// The items from the `i`-th on.
pub open spec fn items_verdict(
    known: Declared,
    vars: Vars,
    items: Seq<Spanned<Item>>,
    i: int,
) -> Result<Vars, error::Fault>
    decreases items.len() - i,
{
    if i < 0 || i >= items.len() {
        Ok(vars)
    } else {
        match item_verdict(known, vars, items[i].node) {
            Err(f) => Err(f),
            Ok(after) => items_verdict(known, after, items, i + 1),
        }
    }
}

/// Whether one of the first `n` items is a function of this name.
pub open spec fn named_before(items: Seq<Spanned<Item>>, wanted: Seq<char>, n: int) -> bool {
    exists|k: int|
        0 <= k < n && k < items.len() && ((#[trigger] items[k]).node matches Item::FnDecl {
            name,
            ..
        } && name@ == wanted)
}

/// What is said of a function whose name is taken.
pub open spec fn overloaded(name: Seq<char>) -> error::Fault {
    error::Fault::Type("function "@ + name + " is declared twice; overloading is not allowed"@)
}

/// The names of the functions from the `i`-th on: no two of a list have the same.
pub open spec fn names_verdict(items: Seq<Spanned<Item>>, i: int) -> Result<(), error::Fault>
    decreases items.len() - i,
{
    if i < 0 || i >= items.len() {
        Ok(())
    } else {
        match items[i].node {
            Item::FnDecl { name, .. } => if named_before(items, name@, i) {
                Err(overloaded(name@))
            } else {
                names_verdict(items, i + 1)
            },
            _ => names_verdict(items, i + 1),
        }
    }
}

/// The names of the methods of the `impl` blocks from the `i`-th on.
pub open spec fn method_names_verdict(items: Seq<Spanned<Item>>, i: int) -> Result<(), error::Fault>
    decreases items.len() - i,
{
    if i < 0 || i >= items.len() {
        Ok(())
    } else {
        match items[i].node {
            Item::ImplDecl { methods, .. } => match names_verdict(methods@, 0) {
                Err(f) => Err(f),
                Ok(_) => method_names_verdict(items, i + 1),
            },
            _ => method_names_verdict(items, i + 1),
        }
    }
}

/// The methods of a type from the `i`-th on become functions with names of their
/// own: the names that are taken after them, or the first that is taken twice.
pub open spec fn block_taken(
    owner: Seq<char>,
    methods: Seq<Spanned<Item>>,
    i: int,
    taken: Set<Seq<char>>,
) -> Result<Set<Seq<char>>, error::Fault>
    decreases methods.len() - i,
{
    if i < 0 || i >= methods.len() {
        Ok(taken)
    } else {
        match methods[i].node {
            Item::FnDecl { name, .. } => {
                let called = model::method_name(owner, name@);
                if taken.contains(called) {
                    Err(error::Fault::Type("two methods become the function "@ + called))
                } else {
                    block_taken(owner, methods, i + 1, taken.insert(called))
                }
            },
            _ => block_taken(owner, methods, i + 1, taken),
        }
    }
}

/// The methods of the `impl` blocks from the `i`-th item on become functions with
/// names of their own.
pub open spec fn methods_taken(
    known: aliases::Known,
    items: Seq<Spanned<Item>>,
    i: int,
    taken: Set<Seq<char>>,
) -> Result<Set<Seq<char>>, error::Fault>
    decreases items.len() - i,
{
    if i < 0 || i >= items.len() {
        Ok(taken)
    } else {
        match items[i].node {
            Item::ImplDecl { target, methods } => match block_taken(
                aliases::meant_name(known, target@),
                methods@,
                0,
                taken,
            ) {
                Err(f) => Err(f),
                Ok(taken) => methods_taken(known, items, i + 1, taken),
            },
            _ => methods_taken(known, items, i + 1, taken),
        }
    }
}

/// The verdict on a program: on the names of its functions and methods, and then the
/// first assignment, condition or value in it that is out of order, if any.
pub open spec fn program_verdict(program: Program) -> Result<(), error::Fault> {
    let items = program.items@;
    match names_verdict(items, 0) {
        Err(f) => Err(f),
        Ok(_) => match method_names_verdict(items, 0) {
            Err(f) => Err(f),
            Ok(_) => match methods_taken(aliases::of_items(items), items, 0, Set::empty()) {
                Err(f) => Err(f),
                Ok(_) => match items_verdict(declared::of_items(items), Seq::empty(), items, 0) {
                    Err(f) => Err(f),
                    Ok(_) => Ok(()),
                },
            },
        },
    }
}

/// The verdict on an assignment to a variable, from what is known of the
/// variable and how its name is quoted.
pub fn judge_variable(known: Option<bool>, name: &str, shown: &str) -> (r: XResult<()>)
    ensures
        error::outcome(r) == variable_verdict(known, name@, shown@),
{
    match known {
        Some(true) => Ok(()),
        Some(false) => Err(
            XError::Type(
                text::cat5(
                    "cannot assign to immutable variable ",
                    shown,
                    "; declare it with `let mut ",
                    name,
                    "` if reassignment is intended",
                ),
            ),
        ),
        None => Err(XError::Type(text::cat2("cannot assign to unknown variable ", shown))),
    }
}

/// The scopes that are open at a point of the check, and what else statements are
/// judged against.
pub struct Checker<'a> {
    scopes: Scopes<Var>,
    known: Context<'a>,
    ret: Option<TypeNode>,
}

/// Check that no two functions of a list have the same name.
fn check_names(items: &Vec<Spanned<Item>>) -> (r: XResult<()>)
    ensures
        error::outcome(r) == names_verdict(items@, 0),
{
    let mut seen = NameSet::new();
    let mut i: usize = 0;
    while i < items.len()
        invariant
            i <= items@.len(),
            forall|n: Seq<char>| #[trigger] seen@.contains(n) == named_before(items@, n, i as int),
            names_verdict(items@, 0) == names_verdict(items@, i as int),
        decreases items@.len() - i,
    {
        let ghost before = seen@;
        if let Item::FnDecl { name, .. } = &items[i].node {
            if seen.contains(name.as_str()) {
                return Err(
                    XError::Type(
                        text::cat3(
                            "function ",
                            name.as_str(),
                            " is declared twice; overloading is not allowed",
                        ),
                    ),
                );
            }
            seen.insert(name.as_str());
        }
        proof {
            lemma_named(items@, i as int, before, seen@);
        }
        i += 1;
    }
    Ok(())
}

proof fn lemma_named(
    items: Seq<Spanned<Item>>,
    i: int,
    before: Set<Seq<char>>,
    after: Set<Seq<char>>,
)
    requires
        0 <= i < items.len(),
        forall|n: Seq<char>| #[trigger] before.contains(n) == named_before(items, n, i),
        items[i].node matches Item::FnDecl { name, .. } ==> after == before.insert(name@),
        !(items[i].node is FnDecl) ==> after == before,
    ensures
        forall|n: Seq<char>| #[trigger] after.contains(n) == named_before(items, n, i + 1),
{
    assert forall|n: Seq<char>| #[trigger] after.contains(n) == named_before(items, n, i + 1) by {
        if before.contains(n) {
            let k = choose|k: int|
                0 <= k < i && k < items.len() && ((#[trigger] items[k]).node matches Item::FnDecl {
                    name,
                    ..
                } && name@ == n);
            assert(items[k].node is FnDecl);
        }
        if named_before(items, n, i + 1) {
            let k = choose|k: int|
                0 <= k < i + 1 && k < items.len() && ((
                #[trigger] items[k]).node matches Item::FnDecl { name, .. } && name@ == n);
            if k < i {
                assert(named_before(items, n, i));
            }
        }
        if let Item::FnDecl { name, .. } = items[i].node {
            if name@ == n {
                assert(named_before(items, n, i + 1));
            }
        }
    }
}

/// Check that no two methods of an `impl` block have the same name.
fn check_method_names(items: &Vec<Spanned<Item>>) -> (r: XResult<()>)
    ensures
        error::outcome(r) == method_names_verdict(items@, 0),
{
    let mut i: usize = 0;
    while i < items.len()
        invariant
            i <= items@.len(),
            method_names_verdict(items@, 0) == method_names_verdict(items@, i as int),
        decreases items@.len() - i,
    {
        if let Item::ImplDecl { methods, .. } = &items[i].node {
            check_names(methods)?;
        }
        i += 1;
    }
    Ok(())
}

/// Check that the methods of a type become functions with names of their own.
fn check_block_taken(
    owner: &str,
    methods: &Vec<Spanned<Item>>,
    taken: &mut NameSet,
) -> (r: XResult<()>)
    ensures
        match block_taken(owner@, methods@, 0, old(taken)@) {
            Ok(after) => r is Ok && final(taken)@ == after,
            Err(f) => r is Err && r->Err_0@ == f,
        },
{
    let mut i: usize = 0;
    while i < methods.len()
        invariant
            i <= methods@.len(),
            block_taken(owner@, methods@, 0, old(taken)@) == block_taken(
                owner@,
                methods@,
                i as int,
                taken@,
            ),
        decreases methods@.len() - i,
    {
        if let Item::FnDecl { name, .. } = &methods[i].node {
            let called = exprs::method_fn_name(owner, name.as_str());
            if taken.contains(called.as_str()) {
                return Err(
                    XError::Type(text::cat2("two methods become the function ", called.as_str())),
                );
            }
            taken.insert(called.as_str());
        }
        i += 1;
    }
    Ok(())
}

/// Check that the methods of a program become functions with names of their own.
fn check_methods_taken(program: &Program, known: &Context) -> (r: XResult<()>)
    requires
        known@ == declared::of_items(program.items@),
    ensures
        match methods_taken(aliases::of_items(program.items@), program.items@, 0, Set::empty()) {
            Ok(_) => r is Ok,
            Err(f) => r is Err && r->Err_0@ == f,
        },
{
    let mut taken = NameSet::new();
    let mut i: usize = 0;
    while i < program.items.len()
        invariant
            i <= program.items@.len(),
            known@.aliases == aliases::of_items(program.items@),
            methods_taken(aliases::of_items(program.items@), program.items@, 0, Set::empty())
                == methods_taken(
                aliases::of_items(program.items@),
                program.items@,
                i as int,
                taken@,
            ),
        decreases program.items@.len() - i,
    {
        if let Item::ImplDecl { target, methods } = &program.items[i].node {
            let owner = known.name_meaning(target.as_str());
            check_block_taken(owner.as_str(), methods, &mut taken)?;
        }
        i += 1;
    }
    Ok(())
}

/// Check a program: no function is overloaded, every assignment goes to a mutable
/// variable, every condition is a truth value, and no value stands for one of
/// another type.
pub fn check_program(program: &Program) -> (r: XResult<()>)
    ensures
        error::outcome(r) == program_verdict(*program),
{
    check_names(&program.items)?;
    check_method_names(&program.items)?;
    let mut checker = Checker::of_program(program);
    check_methods_taken(program, &checker.known)?;
    checker.check_program(program)
}

impl<'a> Checker<'a> {
    /// The variables in scope.
    pub closed spec fn vars(&self) -> Vars {
        self.scopes@
    }

    /// What statements are judged against, besides the variables.
    pub closed spec fn frame(&self) -> Frame {
        Frame { known: self.known@, ret: values::type_if(self.ret) }
    }

    /// A checker for statements of a program, with no scope open.
    pub fn of_program(program: &'a Program) -> (r: Self)
        ensures
            r.vars() == Vars::empty(),
            r.frame() == (Frame { known: declared::of_items(program.items@), ret: None }),
    {
        Checker { scopes: Scopes::new(), known: Context::of_program(program), ret: None }
    }

    fn check_program(&mut self, program: &Program) -> (r: XResult<()>)
        requires
            old(self).vars() == Vars::empty(),
            old(self).frame().known == declared::of_items(program.items@),
        ensures
            match items_verdict(
                declared::of_items(program.items@),
                Seq::empty(),
                program.items@,
                0,
            ) {
                Ok(_) => r is Ok,
                Err(f) => r is Err && r->Err_0@ == f,
            },
    {
        let mut i: usize = 0;
        while i < program.items.len()
            invariant
                i <= program.items@.len(),
                self.frame().known == declared::of_items(program.items@),
                items_verdict(
                    declared::of_items(program.items@),
                    Seq::empty(),
                    program.items@,
                    0,
                ) == items_verdict(
                    declared::of_items(program.items@),
                    self.vars(),
                    program.items@,
                    i as int,
                ),
            decreases program.items@.len() - i,
        {
            self.check_item(&program.items[i].node)?;
            i += 1;
        }
        Ok(())
    }

    fn check_item(&mut self, item: &Item) -> (r: XResult<()>)
        ensures
            match item_verdict(old(self).frame().known, old(self).vars(), *item) {
                Ok(after) => r is Ok && final(self).vars() == after,
                Err(f) => r is Err && r->Err_0@ == f,
            },
            final(self).frame().known == old(self).frame().known,
    {
        match item {
            Item::ImplDecl { methods, .. } => self.check_methods(methods),
            _ => self.check_function(item),
        }
    }

    fn check_methods(&mut self, methods: &Vec<Spanned<Item>>) -> (r: XResult<()>)
        ensures
            match methods_verdict(old(self).frame().known, old(self).vars(), methods@, 0) {
                Ok(after) => r is Ok && final(self).vars() == after,
                Err(f) => r is Err && r->Err_0@ == f,
            },
            final(self).frame().known == old(self).frame().known,
    {
        let mut i: usize = 0;
        let ghost known = self.frame().known;
        while i < methods.len()
            invariant
                i <= methods@.len(),
                known == old(self).frame().known,
                self.frame().known == known,
                methods_verdict(known, old(self).vars(), methods@, 0) == methods_verdict(
                    known,
                    self.vars(),
                    methods@,
                    i as int,
                ),
            decreases methods@.len() - i,
        {
            self.check_function(&methods[i].node)?;
            i += 1;
        }
        Ok(())
    }

    fn check_function(&mut self, item: &Item) -> (r: XResult<()>)
        ensures
            match fn_verdict(old(self).frame().known, old(self).vars(), *item) {
                Ok(after) => r is Ok && final(self).vars() == after,
                Err(f) => r is Err && r->Err_0@ == f,
            },
            final(self).frame().known == old(self).frame().known,
    {
        if let Item::FnDecl { params, return_type, body, .. } = item {
            self.ret = Some(return_type.copied());
            self.push_scope();
            let mut k: usize = 0;
            let ghost opened = self.vars();
            let ghost frame = self.frame();
            while k < params.len()
                invariant
                    k <= params@.len(),
                    self.frame() == frame,
                    with_params(opened, params@, 0) == with_params(
                        self.vars(),
                        params@,
                        k as int,
                    ),
                decreases params@.len() - k,
            {
                let name = params[k].name.as_str();
                let mutable = params[k].mutable && text::same(name, "self");
                self.declare(name, Var { mutable, ty: Some(params[k].ty.copied()) });
                k += 1;
            }
            self.check_statements(&body.statements)?;
            self.pop_scope();
        }
        Ok(())
    }

    /// Open a scope.
    pub fn push_scope(&mut self)
        ensures
            final(self).vars() == scopes::entered(old(self).vars()),
            final(self).frame() == old(self).frame(),
    {
        self.scopes.push();
    }

    /// Close the innermost scope.
    pub fn pop_scope(&mut self)
        ensures
            final(self).vars() == scopes::left(old(self).vars()),
            final(self).frame() == old(self).frame(),
    {
        self.scopes.pop();
    }

    fn declare(&mut self, name: &str, var: Var)
        ensures
            final(self).vars() == scopes::declared(old(self).vars(), name@, var@),
            final(self).frame() == old(self).frame(),
    {
        self.scopes.declare(name, var);
    }

    /// Whether a variable is mutable, if it is declared.
    fn lookup(&self, name: &str) -> (r: Option<bool>)
        ensures
            r == mutability(self.vars(), name@),
    {
        match self.scopes.lookup(name) {
            Some(var) => Some(var.mutable),
            None => None,
        }
    }

    fn check_block(&mut self, block: &Block) -> (r: XResult<()>)
        ensures
            match block_verdict(old(self).frame(), old(self).vars(), *block) {
                Ok(after) => r is Ok && final(self).vars() == after,
                Err(f) => r is Err && r->Err_0@ == f,
            },
            final(self).frame() == old(self).frame(),
        decreases block, 0int,
    {
        self.push_scope();
        self.check_statements(&block.statements)?;
        self.pop_scope();
        Ok(())
    }

    fn check_statements(&mut self, statements: &Vec<Spanned<Stmt>>) -> (r: XResult<()>)
        ensures
            match stmts_verdict(old(self).frame(), old(self).vars(), statements@, 0) {
                Ok(after) => r is Ok && final(self).vars() == after,
                Err(f) => r is Err && r->Err_0@ == f,
            },
            final(self).frame() == old(self).frame(),
        decreases statements@, statements@.len(),
    {
        let mut i: usize = 0;
        while i < statements.len()
            invariant
                i <= statements@.len(),
                self.frame() == old(self).frame(),
                stmts_verdict(old(self).frame(), old(self).vars(), statements@, 0) == stmts_verdict(
                    self.frame(),
                    self.vars(),
                    statements@,
                    i as int,
                ),
            decreases statements@.len() - i,
        {
            self.check_stmt(&statements[i])?;
            i += 1;
        }
        Ok(())
    }

    fn check_arms(&mut self, arms: &Vec<MatchArm>) -> (r: XResult<()>)
        ensures
            match arms_verdict(old(self).frame(), old(self).vars(), arms@, 0) {
                Ok(after) => r is Ok && final(self).vars() == after,
                Err(f) => r is Err && r->Err_0@ == f,
            },
            final(self).frame() == old(self).frame(),
        decreases arms@, arms@.len(),
    {
        let mut i: usize = 0;
        while i < arms.len()
            invariant
                i <= arms@.len(),
                self.frame() == old(self).frame(),
                arms_verdict(old(self).frame(), old(self).vars(), arms@, 0) == arms_verdict(
                    self.frame(),
                    self.vars(),
                    arms@,
                    i as int,
                ),
            decreases arms@.len() - i,
        {
            self.push_scope();
            match &arms[i].pattern {
                Pattern::VariantPattern { bindings, .. } => {
                    let mut k: usize = 0;
                    let ghost opened = self.vars();
                    while k < bindings.len()
                        invariant
                            k <= bindings@.len(),
                            self.frame() == old(self).frame(),
                            with_names(opened, bindings@, 0) == with_names(
                                self.vars(),
                                bindings@,
                                k as int,
                            ),
                        decreases bindings@.len() - k,
                    {
                        self.declare(bindings[k].as_str(), Var { mutable: false, ty: None });
                        k += 1;
                    }
                },
                _ => {},
            }
            assert(decreases_to!(arms@ => arms@[i as int]));
            self.check_statements(&arms[i].body.statements)?;
            self.pop_scope();
            i += 1;
        }
        Ok(())
    }

    /// Check one statement. Where one without a block in it fails, the scopes are as
    /// before; a `let` that fails declares nothing. Of those that are accepted only a
    /// `let` declares; the names of loops, patterns and blocks do not leak out.
    pub fn check_stmt(&mut self, stmt: &Spanned<Stmt>) -> (r: XResult<()>)
        ensures
            r is Ok ==> (stmt.node matches Stmt::LetStmt { mutable, name, ty, .. }
                ==> final(self).vars() == scopes::declared(
                old(self).vars(),
                name@,
                (Seen { mutable, ty: Some(ty@) }),
            )),
            r is Ok && !(stmt.node is LetStmt) && checker::well_nested(*stmt) ==> final(self).vars()
                == old(self).vars(),
            r is Err && (stmt.node is LetStmt || stmt.node is ReturnStmt || stmt.node is ExprStmt)
                ==> final(self).vars() == old(self).vars(),
            match stmt_verdict(old(self).frame(), old(self).vars(), *stmt) {
                Ok(after) => r is Ok && final(self).vars() == after,
                Err(f) => r is Err && r->Err_0@ == f,
            },
            final(self).frame() == old(self).frame(),
        decreases stmt, 0int,
    {
        proof {
            if stmt_verdict(self.frame(), self.vars(), *stmt) is Ok && !(stmt.node is LetStmt)
                && checker::well_nested(*stmt) {
                checker::law_only_let_declares(self.frame(), self.vars(), *stmt);
            }
        }
        match &stmt.node {
            Stmt::LetStmt { mutable, name, ty, value } => {
                self.check_expr(value)?;
                let wanted = Some(ty.copied());
                values::check_cast(&self.known, &self.scopes, &wanted, value)?;
                self.declare(name.as_str(), Var { mutable: *mutable, ty: wanted });
            },
            Stmt::IfStmt { condition, then_block, else_branch } => {
                self.check_condition("if", condition)?;
                self.check_block(then_block)?;
                match else_branch {
                    Some(ElseBranch::Block(block)) => self.check_block(block)?,
                    Some(ElseBranch::IfStmt(stmt)) => self.check_stmt(stmt)?,
                    None => {},
                }
            },
            Stmt::ForStmt { iterator, iterable, body } => {
                self.check_expr(iterable)?;
                self.push_scope();
                let ty = match &iterable.node {
                    Expr::RangeExpr { .. } => Some(values::plain_node("i32")),
                    _ => None,
                };
                self.declare(iterator.as_str(), Var { mutable: false, ty });
                self.check_statements(&body.statements)?;
                self.pop_scope();
            },
            Stmt::WhileStmt { condition, body } => {
                self.check_condition("while", condition)?;
                self.check_block(body)?;
            },
            Stmt::MatchStmt { value, arms } => {
                self.check_expr(value)?;
                self.check_arms(arms)?;
            },
            Stmt::ReturnStmt { value } => {
                if let Some(value) = value {
                    self.check_expr(value)?;
                    values::check_cast(&self.known, &self.scopes, &self.ret, value)?;
                }
            },
            Stmt::ExprStmt { expr } => self.check_expr(expr)?,
            Stmt::BreakStmt => {},
            Stmt::ContinueStmt => {},
        }
        Ok(())
    }

    /// Check the assignments in a condition, and its type.
    fn check_condition(&self, word: &str, e: &Spanned<Expr>) -> (r: XResult<()>)
        ensures
            error::outcome(r) == tested_verdict(self.frame(), self.vars(), word@, *e),
    {
        self.check_expr(e)?;
        values::check_condition(&self.known, &self.scopes, word, e)
    }

    fn check_exprs(&self, es: &Vec<Spanned<Expr>>) -> (r: XResult<()>)
        ensures
            error::outcome(r) == exprs_verdict(self.frame(), self.vars(), es@, 0),
        decreases es@, es@.len(),
    {
        let mut i: usize = 0;
        while i < es.len()
            invariant
                i <= es@.len(),
                exprs_verdict(self.frame(), self.vars(), es@, 0) == exprs_verdict(self.frame(), self.vars(), es@, i as int),
            decreases es@.len() - i,
        {
            self.check_expr(&es[i])?;
            i += 1;
        }
        Ok(())
    }

    fn check_inits(&self, fields: &Vec<FieldInit>) -> (r: XResult<()>)
        ensures
            error::outcome(r) == inits_verdict(self.frame(), self.vars(), fields@, 0),
        decreases fields@, fields@.len(),
    {
        let mut i: usize = 0;
        while i < fields.len()
            invariant
                i <= fields@.len(),
                inits_verdict(self.frame(), self.vars(), fields@, 0) == inits_verdict(
                    self.frame(),
                    self.vars(),
                    fields@,
                    i as int,
                ),
            decreases fields@.len() - i,
        {
            assert(decreases_to!(fields@ => fields@[i as int]));
            self.check_expr(&fields[i].value)?;
            i += 1;
        }
        Ok(())
    }

    fn check_expr(&self, expr: &Spanned<Expr>) -> (r: XResult<()>)
        ensures
            error::outcome(r) == expr_verdict(self.frame(), self.vars(), *expr),
        decreases expr, 0int,
    {
        match &expr.node {
            Expr::IntLiteral { .. } => {},
            Expr::FloatLiteral { .. } => {},
            Expr::StringLiteral { .. } => {},
            Expr::BoolLiteral { .. } => {},
            Expr::Identifier { .. } => {},
            Expr::ArrayLiteral { elements } => self.check_exprs(elements)?,
            Expr::BinaryExpr { left, right, .. } => {
                self.check_expr(left)?;
                self.check_expr(right)?;
            },
            Expr::UnaryExpr { value, .. } => self.check_expr(value)?,
            Expr::AssignmentExpr { target, value } => {
                self.check_assignment_target(target)?;
                self.check_expr(value)?;
                let wanted = values::place_node(&self.known, &self.scopes, target);
                values::check_cast(&self.known, &self.scopes, &wanted, value)?;
            },
            Expr::CallExpr { callee, args } => {
                self.check_expr(callee)?;
                self.check_exprs(args)?;
                values::check_call(&self.known, &self.scopes, callee, args)?;
            },
            Expr::FieldAccessExpr { object, .. } => self.check_expr(object)?,
            Expr::StructLiteral { name, fields } => {
                self.check_inits(fields)?;
                let owner = self.known.name_meaning(name.as_str());
                values::check_filled(&self.known, &self.scopes, owner.as_str(), fields)?;
            },
            Expr::IndexExpr { object, index } => {
                self.check_expr(object)?;
                self.check_expr(index)?;
            },
            Expr::RangeExpr { start, end, .. } => {
                self.check_expr(start)?;
                self.check_expr(end)?;
            },
        }
        Ok(())
    }

    fn check_assignment_target(&self, target: &Spanned<Expr>) -> (r: XResult<()>)
        ensures
            error::outcome(r) == target_verdict(self.vars(), *target),
        decreases target,
    {
        match &target.node {
            Expr::Identifier { name } => {
                let shown = debug_quoted(name.as_str());
                judge_variable(self.lookup(name.as_str()), name.as_str(), shown.as_str())
            },
            Expr::FieldAccessExpr { object, .. } => self.check_assignment_target(object),
            _ => Err(
                XError::Type("assignment target must be a variable or field access".to_string()),
            ),
        }
    }
}

} // verus!
