//! The syntax tree of a program.

use vstd::prelude::*;

use crate::source::Spanned;

verus! {

/// A program: one module with its imports and items.
#[derive(Debug)]
pub struct Program {
    pub module: String,
    pub imports: Vec<String>,
    pub items: Vec<Spanned<Item>>,
}

/// A top-level declaration.
#[derive(Debug)]
pub enum Item {
    StructDecl { name: String, fields: Vec<FieldDecl> },
    TypeAliasDecl { name: String, ty: TypeNode },
    EnumDecl { name: String, variants: Vec<EnumVariant> },
    FnDecl { name: String, params: Vec<Param>, return_type: TypeNode, body: Block },
    ImplDecl { target: String, methods: Vec<Spanned<Item>> },
}

/// A field of a struct declaration.
#[derive(Debug)]
pub struct FieldDecl {
    pub name: String,
    pub ty: TypeNode,
}

/// A variant of an enum declaration, with the type of its payload if it has one.
#[derive(Debug)]
pub struct EnumVariant {
    pub name: String,
    pub payload: Option<TypeNode>,
}

/// A function parameter; `mutable` marks `mut self`.
#[derive(Debug)]
pub struct Param {
    pub mutable: bool,
    pub name: String,
    pub ty: TypeNode,
}

/// A type as written: a name with arguments, or a constant in argument position.
#[derive(Debug)]
pub enum TypeNode {
    TypeExpr { name: String, args: Vec<TypeNode> },
    ConstTypeArg { value: String },
}

/// Statements between braces.
#[derive(Debug)]
pub struct Block {
    pub statements: Vec<Spanned<Stmt>>,
}

/// A statement.
#[derive(Debug)]
#[allow(inconsistent_fields)]
pub enum Stmt {
    LetStmt { mutable: bool, name: String, ty: TypeNode, value: Spanned<Expr> },
    IfStmt { condition: Spanned<Expr>, then_block: Block, else_branch: Option<ElseBranch> },
    ForStmt { iterator: String, iterable: Spanned<Expr>, body: Block },
    WhileStmt { condition: Spanned<Expr>, body: Block },
    MatchStmt { value: Spanned<Expr>, arms: Vec<MatchArm> },
    ReturnStmt { value: Option<Spanned<Expr>> },
    ExprStmt { expr: Spanned<Expr> },
    BreakStmt,
    ContinueStmt,
}

/// What follows `else`.
#[derive(Debug)]
pub enum ElseBranch {
    Block(Block),
    IfStmt(Box<Spanned<Stmt>>),
}

/// One arm of a `match`.
#[derive(Debug)]
pub struct MatchArm {
    pub pattern: Pattern,
    pub body: Block,
}

/// The pattern of a `match` arm.
#[derive(Debug)]
pub enum Pattern {
    VariantPattern { name: String, bindings: Vec<String> },
    LiteralPattern { value: String },
    RangePattern { start: String, end: String, inclusive: bool },
    OrPattern { alternatives: Vec<Pattern> },
    WildcardPattern,
}

/// An expression. Numbers keep the text that they were written with.
#[derive(Debug)]
#[allow(inconsistent_fields)]
pub enum Expr {
    IntLiteral { value: String },
    FloatLiteral { value: String },
    StringLiteral { value: String },
    BoolLiteral { value: bool },
    Identifier { name: String },
    ArrayLiteral { elements: Vec<Spanned<Expr>> },
    BinaryExpr { op: String, left: Box<Spanned<Expr>>, right: Box<Spanned<Expr>> },
    UnaryExpr { op: String, value: Box<Spanned<Expr>> },
    AssignmentExpr { target: Box<Spanned<Expr>>, value: Box<Spanned<Expr>> },
    CallExpr { callee: Box<Spanned<Expr>>, args: Vec<Spanned<Expr>> },
    FieldAccessExpr { object: Box<Spanned<Expr>>, field: String },
    StructLiteral { name: String, fields: Vec<FieldInit> },
    IndexExpr { object: Box<Spanned<Expr>>, index: Box<Spanned<Expr>> },
    RangeExpr { start: Box<Spanned<Expr>>, end: Box<Spanned<Expr>>, inclusive: bool },
}

/// A field of a struct literal with its value.
#[derive(Debug)]
pub struct FieldInit {
    pub name: String,
    pub value: Spanned<Expr>,
}

/// The mathematical value of a `TypeNode`.
#[verifier::ext_equal]
pub enum Type {
    Named { name: Seq<char>, args: Seq<Type> },
    Const { value: Seq<char> },
}

impl TypeNode {
    /// The type that the node denotes.
    pub open spec fn ty(self) -> Type
        decreases self,
    {
        match self {
            TypeNode::TypeExpr { name, args } => Type::Named {
                name: name@,
                args: Seq::new(
                    args@.len(),
                    |i: int|
                        if 0 <= i < args@.len() {
                            args@[i].ty()
                        } else {
                            arbitrary()
                        },
                ),
            },
            TypeNode::ConstTypeArg { value } => Type::Const { value: value@ },
        }
    }

    /// Another node for the same type.
    pub fn copied(&self) -> (r: TypeNode)
        ensures
            r@ == self@,
        decreases self,
    {
        match self {
            TypeNode::TypeExpr { name, args } => {
                let mut out: Vec<TypeNode> = Vec::new();
                let mut i: usize = 0;
                while i < args.len()
                    invariant
                        i <= args@.len(),
                        out@.len() == i,
                        *self is TypeExpr,
                        self->args == *args,
                        forall|j: int| 0 <= j < i ==> (#[trigger] out@[j]).ty() == args@[j].ty(),
                    decreases args@.len() - i,
                {
                    assert(decreases_to!(*self => self->args));
                    out.push(args[i].copied());
                    i += 1;
                }
                let r = TypeNode::TypeExpr { name: name.clone(), args: out };
                assert(r.ty()->args =~= self.ty()->args);
                r
            },
            TypeNode::ConstTypeArg { value } => TypeNode::ConstTypeArg { value: value.clone() },
        }
    }
}

/// Nodes for the same types.
pub fn copied_args(args: &Vec<TypeNode>) -> (r: Vec<TypeNode>)
    ensures
        types_of(r@) == types_of(args@),
{
    let mut out: Vec<TypeNode> = Vec::new();
    let mut i: usize = 0;
    while i < args.len()
        invariant
            i <= args@.len(),
            out@.len() == i,
            forall|j: int| 0 <= j < i ==> (#[trigger] out@[j])@ == args@[j]@,
        decreases args@.len() - i,
    {
        out.push(args[i].copied());
        i += 1;
    }
    assert(types_of(out@) =~= types_of(args@));
    out
}

impl View for TypeNode {
    type V = Type;

    open spec fn view(&self) -> Type {
        self.ty()
    }
}

/// The types of the arguments of a type.
pub open spec fn types_of(args: Seq<TypeNode>) -> Seq<Type> {
    args.map_values(|t: TypeNode| t@)
}

/// A type expression denotes its name applied to the types of its arguments.
pub proof fn lemma_args(t: TypeNode)
    ensures
        t matches TypeNode::TypeExpr { name, args } ==> t@ == (Type::Named {
            name: name@,
            args: types_of(args@),
        }),
{
    if let TypeNode::TypeExpr { name, args } = t {
        assert(t@->args =~= types_of(args@));
    }
}

} // verus!
