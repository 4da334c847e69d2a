//! From source text to C: the checker and the code generator on whole programs.

use xlang::ast::{
    Block, ElseBranch, EnumVariant, Expr, FieldDecl, FieldInit, Item, MatchArm, Param, Pattern,
    Program, Stmt, TypeNode,
};
use xlang::codegen::builtins::{CALLS, PLAIN_CALLS};
use xlang::codegen::c::CGen;
use xlang::codegen::stmts::{length_error, match_variant_error, variant_error};
use xlang::error::XError;
use xlang::source::{Span, Spanned};
use xlang::typecheck::{check_program, judge_variable, Checker, TypeMap};

// ---------------------------------------------------------------------------
// A small front end
// ---------------------------------------------------------------------------

#[derive(Clone, Debug, PartialEq)]
enum Tok {
    Word(String),
    Int(String),
    Float(String),
    Str(String),
    Sym(String),
    End,
}

fn tokenize(source: &str) -> Vec<Tok> {
    let cs: Vec<char> = source.chars().collect();
    let mut out = Vec::new();
    let mut i = 0;
    while i < cs.len() {
        let c = cs[i];
        if c.is_whitespace() {
            i += 1;
        } else if c == '/' && cs.get(i + 1) == Some(&'/') {
            while i < cs.len() && cs[i] != '\n' {
                i += 1;
            }
        } else if c.is_alphabetic() || c == '_' {
            let start = i;
            while i < cs.len() && (cs[i].is_alphanumeric() || cs[i] == '_') {
                i += 1;
            }
            out.push(Tok::Word(cs[start..i].iter().collect()));
        } else if c.is_ascii_digit() {
            let start = i;
            while i < cs.len() && cs[i].is_ascii_digit() {
                i += 1;
            }
            let fraction = i + 1 < cs.len() && cs[i] == '.' && cs[i + 1].is_ascii_digit();
            if fraction {
                i += 1;
                while i < cs.len() && cs[i].is_ascii_digit() {
                    i += 1;
                }
                out.push(Tok::Float(cs[start..i].iter().collect()));
            } else {
                out.push(Tok::Int(cs[start..i].iter().collect()));
            }
        } else if c == '"' {
            i += 1;
            let mut text = String::new();
            while cs[i] != '"' {
                if cs[i] == '\\' {
                    i += 1;
                    text.push(match cs[i] {
                        'n' => '\n',
                        't' => '\t',
                        'e' => '\u{1b}',
                        other => other,
                    });
                } else {
                    text.push(cs[i]);
                }
                i += 1;
            }
            i += 1;
            out.push(Tok::Str(text));
        } else {
            let three: String = cs[i..cs.len().min(i + 3)].iter().collect();
            let two: String = cs[i..cs.len().min(i + 2)].iter().collect();
            let known = ["..=", "<<=", ">>="];
            let pairs = [
                "..", "=>", "==", "!=", "<=", ">=", "&&", "||", "+=", "-=", "*=", "/=", "%=",
                "<<",
            ];
            let sym = if known.contains(&three.as_str()) {
                three
            } else if pairs.contains(&two.as_str()) {
                two
            } else {
                c.to_string()
            };
            i += sym.chars().count();
            out.push(Tok::Sym(sym));
        }
    }
    out.push(Tok::End);
    out
}

struct Parser {
    toks: Vec<Tok>,
    at: usize,
    next_place: usize,
}

fn copy_type(t: &TypeNode) -> TypeNode {
    t.copied()
}

fn copy_expr(p: &mut Parser, e: &Spanned<Expr>) -> Spanned<Expr> {
    let node = match &e.node {
        Expr::Identifier { name } => Expr::Identifier { name: name.clone() },
        Expr::IntLiteral { value } => Expr::IntLiteral { value: value.clone() },
        Expr::FieldAccessExpr { object, field } => Expr::FieldAccessExpr {
            object: Box::new(copy_expr(p, object)),
            field: field.clone(),
        },
        Expr::IndexExpr { object, index } => Expr::IndexExpr {
            object: Box::new(copy_expr(p, object)),
            index: Box::new(copy_expr(p, index)),
        },
        other => panic!("no target: {other:?}"),
    };
    p.spanned(node)
}

impl Parser {
    fn new(source: &str) -> Self {
        Parser { toks: tokenize(source), at: 0, next_place: 0 }
    }

    fn spanned<T>(&mut self, node: T) -> Spanned<T> {
        self.next_place += 1;
        Spanned { node, span: Span { start: self.next_place, end: self.next_place } }
    }

    fn peek(&self) -> &Tok {
        &self.toks[self.at]
    }

    fn take(&mut self) -> Tok {
        let t = self.toks[self.at].clone();
        self.at += 1;
        t
    }

    fn is(&self, s: &str) -> bool {
        match self.peek() {
            Tok::Word(w) => w == s,
            Tok::Sym(w) => w == s,
            _ => false,
        }
    }

    fn accept(&mut self, s: &str) -> bool {
        let found = self.is(s);
        if found {
            self.at += 1;
        }
        found
    }

    fn expect(&mut self, s: &str) {
        assert!(self.accept(s), "expected {s}, got {:?}", self.peek());
    }

    fn word(&mut self) -> String {
        match self.take() {
            Tok::Word(w) => w,
            other => panic!("expected a name, got {other:?}"),
        }
    }

    fn program(&mut self) -> Program {
        self.expect("module");
        let module = self.word();
        let mut imports = Vec::new();
        while self.accept("import") {
            imports.push(self.word());
        }
        let mut items = Vec::new();
        while *self.peek() != Tok::End {
            let item = self.item();
            items.push(self.spanned(item));
        }
        Program { module, imports, items }
    }

    fn item(&mut self) -> Item {
        match self.word().as_str() {
            "struct" => {
                let name = self.word();
                let mut fields = Vec::new();
                self.expect("{");
                while !self.accept("}") {
                    let name = self.word();
                    self.expect(":");
                    let ty = self.ty();
                    self.accept(",");
                    fields.push(FieldDecl { name, ty });
                }
                Item::StructDecl { name, fields }
            }
            "type" => {
                let name = self.word();
                self.expect("=");
                Item::TypeAliasDecl { name, ty: self.ty() }
            }
            "enum" => {
                let name = self.word();
                let mut variants = Vec::new();
                self.expect("{");
                while !self.accept("}") {
                    let name = self.word();
                    let payload = if self.accept("(") {
                        let t = self.ty();
                        self.expect(")");
                        Some(t)
                    } else {
                        None
                    };
                    self.accept(",");
                    variants.push(EnumVariant { name, payload });
                }
                Item::EnumDecl { name, variants }
            }
            "fn" => self.function(),
            "impl" => {
                let target = self.word();
                let mut methods = Vec::new();
                self.expect("{");
                while !self.accept("}") {
                    self.expect("fn");
                    let item = self.function();
                    methods.push(self.spanned(item));
                }
                Item::ImplDecl { target, methods }
            }
            other => panic!("no item: {other}"),
        }
    }

    fn function(&mut self) -> Item {
        let name = self.word();
        let mut params = Vec::new();
        self.expect("(");
        while !self.accept(")") {
            let mutable = self.accept("mut");
            let name = self.word();
            self.expect(":");
            let ty = self.ty();
            self.accept(",");
            params.push(Param { mutable, name, ty });
        }
        self.expect(":");
        let return_type = self.ty();
        let body = self.block();
        Item::FnDecl { name, params, return_type, body }
    }

    fn ty(&mut self) -> TypeNode {
        if let Tok::Int(value) = self.peek().clone() {
            self.at += 1;
            return TypeNode::ConstTypeArg { value };
        }
        let name = self.word();
        let mut args = Vec::new();
        if self.accept("<") {
            while !self.accept(">") {
                args.push(self.ty());
                self.accept(",");
            }
        }
        TypeNode::TypeExpr { name, args }
    }

    fn block(&mut self) -> Block {
        let mut statements = Vec::new();
        self.expect("{");
        while !self.accept("}") {
            let s = self.stmt();
            statements.push(s);
        }
        Block { statements }
    }

    fn stmt(&mut self) -> Spanned<Stmt> {
        let node = if self.accept("let") {
            let mutable = self.accept("mut");
            let name = self.word();
            self.expect(":");
            let ty = self.ty();
            self.expect("=");
            let value = self.expr(true);
            Stmt::LetStmt { mutable, name, ty, value }
        } else if self.accept("return") {
            let value = if self.is("}") { None } else { Some(self.expr(true)) };
            Stmt::ReturnStmt { value }
        } else if self.accept("if") {
            if self.accept("let") {
                let pattern = self.pattern();
                self.expect("=");
                let value = self.expr(false);
                let body = self.block();
                let mut arms = vec![MatchArm { pattern, body }];
                if self.accept("else") {
                    arms.push(MatchArm { pattern: Pattern::WildcardPattern, body: self.block() });
                }
                Stmt::MatchStmt { value, arms }
            } else {
                let condition = self.expr(false);
                let then_block = self.block();
                let else_branch = if self.accept("else") {
                    if self.is("if") {
                        Some(ElseBranch::IfStmt(Box::new(self.stmt())))
                    } else {
                        Some(ElseBranch::Block(self.block()))
                    }
                } else {
                    None
                };
                Stmt::IfStmt { condition, then_block, else_branch }
            }
        } else if self.accept("while") {
            let condition = self.expr(false);
            Stmt::WhileStmt { condition, body: self.block() }
        } else if self.accept("for") {
            let iterator = self.word();
            self.expect("in");
            let iterable = self.expr(false);
            Stmt::ForStmt { iterator, iterable, body: self.block() }
        } else if self.accept("match") {
            let value = self.expr(false);
            let mut arms = Vec::new();
            self.expect("{");
            while !self.accept("}") {
                let pattern = self.pattern();
                self.expect("=>");
                let body = self.block();
                self.accept(",");
                arms.push(MatchArm { pattern, body });
            }
            Stmt::MatchStmt { value, arms }
        } else if self.accept("break") {
            Stmt::BreakStmt
        } else if self.accept("continue") {
            Stmt::ContinueStmt
        } else {
            Stmt::ExprStmt { expr: self.expr(true) }
        };
        self.accept(";");
        self.spanned(node)
    }

    fn pattern(&mut self) -> Pattern {
        let first = self.single_pattern();
        if !self.is("|") {
            return first;
        }
        let mut alternatives = vec![first];
        while self.accept("|") {
            alternatives.push(self.single_pattern());
        }
        Pattern::OrPattern { alternatives }
    }

    fn number(&mut self) -> String {
        let sign = if self.accept("-") { "-" } else { "" };
        match self.take() {
            Tok::Int(v) => format!("{sign}{v}"),
            other => panic!("expected a number, got {other:?}"),
        }
    }

    fn single_pattern(&mut self) -> Pattern {
        if self.accept("_") {
            return Pattern::WildcardPattern;
        }
        match self.peek().clone() {
            Tok::Word(name) => {
                self.at += 1;
                let mut bindings = Vec::new();
                if self.accept("(") {
                    while !self.accept(")") {
                        bindings.push(self.word());
                        self.accept(",");
                    }
                }
                Pattern::VariantPattern { name, bindings }
            }
            Tok::Str(value) => {
                self.at += 1;
                Pattern::LiteralPattern { value }
            }
            _ => {
                let start = self.number();
                if self.accept("..=") {
                    Pattern::RangePattern { start, end: self.number(), inclusive: true }
                } else if self.accept("..") {
                    Pattern::RangePattern { start, end: self.number(), inclusive: false }
                } else {
                    Pattern::LiteralPattern { value: start }
                }
            }
        }
    }

    fn expr(&mut self, structs: bool) -> Spanned<Expr> {
        let left = self.range(structs);
        if self.accept("=") {
            let value = self.expr(structs);
            return self.spanned(Expr::AssignmentExpr {
                target: Box::new(left),
                value: Box::new(value),
            });
        }
        for op in ["+=", "-=", "*=", "/=", "%="] {
            if self.accept(op) {
                let right = self.expr(structs);
                let again = copy_expr(self, &left);
                let value = self.spanned(Expr::BinaryExpr {
                    op: op[..1].to_string(),
                    left: Box::new(again),
                    right: Box::new(right),
                });
                return self.spanned(Expr::AssignmentExpr {
                    target: Box::new(left),
                    value: Box::new(value),
                });
            }
        }
        left
    }

    fn range(&mut self, structs: bool) -> Spanned<Expr> {
        let start = self.binary(0, structs);
        let inclusive = self.is("..=");
        if self.accept("..=") || self.accept("..") {
            let end = self.binary(0, structs);
            return self.spanned(Expr::RangeExpr {
                start: Box::new(start),
                end: Box::new(end),
                inclusive,
            });
        }
        start
    }

    fn binary(&mut self, level: usize, structs: bool) -> Spanned<Expr> {
        let levels: [&[&str]; 6] = [
            &["||"],
            &["&&"],
            &["==", "!="],
            &["<=", ">=", "<", ">"],
            &["+", "-"],
            &["*", "/", "%"],
        ];
        if level == levels.len() {
            return self.unary(structs);
        }
        let mut left = self.binary(level + 1, structs);
        loop {
            let found = levels[level].iter().find(|op| self.is(op)).map(|op| op.to_string());
            match found {
                Some(op) => {
                    self.at += 1;
                    let right = self.binary(level + 1, structs);
                    left = self.spanned(Expr::BinaryExpr {
                        op,
                        left: Box::new(left),
                        right: Box::new(right),
                    });
                }
                None => return left,
            }
        }
    }

    fn unary(&mut self, structs: bool) -> Spanned<Expr> {
        for op in ["-", "!"] {
            if self.accept(op) {
                let value = self.unary(structs);
                return self.spanned(Expr::UnaryExpr {
                    op: op.to_string(),
                    value: Box::new(value),
                });
            }
        }
        self.postfix(structs)
    }

    fn postfix(&mut self, structs: bool) -> Spanned<Expr> {
        let mut e = self.primary(structs);
        loop {
            if self.accept("(") {
                let args = self.list(")");
                e = self.spanned(Expr::CallExpr { callee: Box::new(e), args });
            } else if self.accept(".") {
                let field = self.word();
                e = self.spanned(Expr::FieldAccessExpr { object: Box::new(e), field });
            } else if self.accept("[") {
                let index = self.expr(true);
                self.expect("]");
                e = self.spanned(Expr::IndexExpr { object: Box::new(e), index: Box::new(index) });
            } else {
                return e;
            }
        }
    }

    fn list(&mut self, end: &str) -> Vec<Spanned<Expr>> {
        let mut out = Vec::new();
        while !self.accept(end) {
            out.push(self.expr(true));
            self.accept(",");
        }
        out
    }

    fn primary(&mut self, structs: bool) -> Spanned<Expr> {
        let node = match self.take() {
            Tok::Int(value) => Expr::IntLiteral { value },
            Tok::Float(value) => Expr::FloatLiteral { value },
            Tok::Str(value) => Expr::StringLiteral { value },
            Tok::Word(w) if w == "true" || w == "false" => Expr::BoolLiteral { value: w == "true" },
            Tok::Word(name) => {
                let upper = name.chars().next().is_some_and(|c| c.is_uppercase());
                if structs && upper && self.is("{") {
                    self.at += 1;
                    let mut fields = Vec::new();
                    while !self.accept("}") {
                        let name = self.word();
                        self.expect(":");
                        let value = self.expr(true);
                        self.accept(",");
                        fields.push(FieldInit { name, value });
                    }
                    Expr::StructLiteral { name, fields }
                } else {
                    Expr::Identifier { name }
                }
            }
            Tok::Sym(s) if s == "[" => Expr::ArrayLiteral { elements: self.list("]") },
            Tok::Sym(s) if s == "(" => {
                let e = self.expr(true);
                self.expect(")");
                return e;
            }
            other => panic!("no expression: {other:?}"),
        };
        self.spanned(node)
    }
}

fn parse(source: &str) -> Program {
    Parser::new(source).program()
}

// ---------------------------------------------------------------------------
// Types of expressions
// ---------------------------------------------------------------------------

struct Infer<'a> {
    program: &'a Program,
    types: TypeMap,
    vars: Vec<Vec<(String, TypeNode)>>,
}

fn named(name: &str) -> TypeNode {
    TypeNode::TypeExpr { name: name.to_string(), args: Vec::new() }
}

fn head(t: &TypeNode) -> (&str, &[TypeNode]) {
    match t {
        TypeNode::TypeExpr { name, args } => (name.as_str(), args.as_slice()),
        TypeNode::ConstTypeArg { .. } => ("", &[]),
    }
}

impl<'a> Infer<'a> {
    fn run(program: &'a Program) -> TypeMap {
        let mut me = Infer { program, types: TypeMap::new(), vars: Vec::new() };
        for item in &program.items {
            match &item.node {
                Item::FnDecl { params, body, .. } => me.function(params, body),
                Item::ImplDecl { methods, .. } => {
                    for m in methods {
                        if let Item::FnDecl { params, body, .. } = &m.node {
                            me.function(params, body);
                        }
                    }
                }
                _ => {}
            }
        }
        me.types
    }

    fn function(&mut self, params: &[Param], body: &Block) {
        self.vars.push(Vec::new());
        for p in params {
            self.declare(&p.name, copy_type(&p.ty));
        }
        self.statements(&body.statements);
        self.vars.pop();
    }

    fn declare(&mut self, name: &str, ty: TypeNode) {
        self.vars.last_mut().expect("a scope").push((name.to_string(), ty));
    }

    fn block(&mut self, block: &Block) {
        self.vars.push(Vec::new());
        self.statements(&block.statements);
        self.vars.pop();
    }

    fn statements(&mut self, ss: &[Spanned<Stmt>]) {
        for s in ss {
            self.statement(s);
        }
    }

    fn statement(&mut self, s: &Spanned<Stmt>) {
        match &s.node {
            Stmt::LetStmt { name, ty, value, .. } => {
                self.expr(value);
                self.declare(name, copy_type(ty));
            }
            Stmt::IfStmt { condition, then_block, else_branch } => {
                self.expr(condition);
                self.block(then_block);
                match else_branch {
                    Some(ElseBranch::Block(b)) => self.block(b),
                    Some(ElseBranch::IfStmt(inner)) => self.statement(inner),
                    None => {}
                }
            }
            Stmt::ForStmt { iterator, iterable, body } => {
                let over = self.expr(iterable);
                self.vars.push(Vec::new());
                let elem = match &over {
                    Some(t) if !head(t).1.is_empty() => copy_type(&head(t).1[0]),
                    _ => named("i32"),
                };
                self.declare(iterator, elem);
                self.statements(&body.statements);
                self.vars.pop();
            }
            Stmt::WhileStmt { condition, body } => {
                self.expr(condition);
                self.block(body);
            }
            Stmt::MatchStmt { value, arms } => {
                let scrutinee = self.expr(value);
                for arm in arms {
                    self.vars.push(Vec::new());
                    if let Pattern::VariantPattern { name, bindings } = &arm.pattern {
                        if let (Some(b), Some(t)) = (bindings.first(), &scrutinee) {
                            if let Some(p) = self.payload(t, name) {
                                self.declare(b, p);
                            }
                        }
                    }
                    self.statements(&arm.body.statements);
                    self.vars.pop();
                }
            }
            Stmt::ReturnStmt { value: Some(e) } => {
                self.expr(e);
            }
            Stmt::ExprStmt { expr } => {
                self.expr(expr);
            }
            _ => {}
        }
    }

    fn payload(&self, scrutinee: &TypeNode, variant: &str) -> Option<TypeNode> {
        let (name, args) = head(scrutinee);
        match (name, variant) {
            ("Option", "Some") | ("Result", "Ok") => return Some(copy_type(&args[0])),
            ("Result", "Err") => return Some(copy_type(&args[1])),
            _ => {}
        }
        for item in &self.program.items {
            if let Item::EnumDecl { name: en, variants } = &item.node {
                if en == name {
                    let v = variants.iter().find(|v| v.name == variant)?;
                    return v.payload.as_ref().map(copy_type);
                }
            }
        }
        None
    }

    fn variable(&self, name: &str) -> Option<TypeNode> {
        for scope in self.vars.iter().rev() {
            for (n, t) in scope.iter().rev() {
                if n == name {
                    return Some(copy_type(t));
                }
            }
        }
        for item in &self.program.items {
            if let Item::EnumDecl { name: en, variants } = &item.node {
                if variants.iter().any(|v| v.name == name) {
                    return Some(named(en));
                }
            }
        }
        None
    }

    fn result_of(&self, target: Option<&str>, called: &str) -> Option<TypeNode> {
        for item in &self.program.items {
            match (&item.node, target) {
                (Item::FnDecl { name, return_type, .. }, None) if name == called => {
                    return Some(copy_type(return_type));
                }
                (Item::ImplDecl { target: t, methods }, Some(wanted)) if t == wanted => {
                    for m in methods {
                        if let Item::FnDecl { name, return_type, .. } = &m.node {
                            if name == called {
                                return Some(copy_type(return_type));
                            }
                        }
                    }
                }
                _ => {}
            }
        }
        None
    }

    fn field(&self, owner: &str, field: &str) -> Option<TypeNode> {
        for item in &self.program.items {
            if let Item::StructDecl { name, fields } = &item.node {
                if name == owner {
                    return fields.iter().find(|f| f.name == field).map(|f| copy_type(&f.ty));
                }
            }
        }
        None
    }

    fn expr(&mut self, e: &Spanned<Expr>) -> Option<TypeNode> {
        let found = match &e.node {
            Expr::IntLiteral { .. } => Some(named("i32")),
            Expr::FloatLiteral { .. } => Some(named("f64")),
            Expr::StringLiteral { .. } => Some(named("String")),
            Expr::BoolLiteral { .. } => Some(named("bool")),
            Expr::Identifier { name } => self.variable(name),
            Expr::ArrayLiteral { elements } => {
                for x in elements {
                    self.expr(x);
                }
                None
            }
            Expr::BinaryExpr { op, left, right } => {
                let l = self.expr(left);
                let r = self.expr(right);
                match op.as_str() {
                    "+" | "-" | "*" | "/" | "%" => {
                        let text = [&l, &r].iter().any(|t| {
                            t.as_ref().is_some_and(|t| matches!(head(t).0, "String" | "Str"))
                        });
                        if text { Some(named("String")) } else { l }
                    }
                    _ => Some(named("bool")),
                }
            }
            Expr::UnaryExpr { value, .. } => self.expr(value),
            Expr::AssignmentExpr { target, value } => {
                self.expr(target);
                self.expr(value)
            }
            Expr::CallExpr { callee, args } => {
                for a in args {
                    self.expr(a);
                }
                match &callee.node {
                    Expr::Identifier { name } => {
                        let variant = self.variable(name);
                        if variant.is_some() { variant } else { self.result_of(None, name) }
                    }
                    Expr::FieldAccessExpr { object, field } => {
                        let owner = self.expr(object);
                        owner.and_then(|t| self.result_of(Some(head(&t).0), field))
                    }
                    _ => None,
                }
            }
            Expr::FieldAccessExpr { object, field } => {
                let owner = self.expr(object);
                owner.and_then(|t| self.field(head(&t).0, field))
            }
            Expr::StructLiteral { name, fields } => {
                for f in fields {
                    self.expr(&f.value);
                }
                Some(named(name))
            }
            Expr::IndexExpr { object, index } => {
                self.expr(index);
                let over = self.expr(object);
                over.map(|t| match head(&t) {
                    ("String", _) | ("Str", _) => named("i32"),
                    (_, args) => copy_type(&args[0]),
                })
            }
            Expr::RangeExpr { start, end, .. } => {
                self.expr(start);
                self.expr(end);
                None
            }
        };
        if let Some(t) = &found {
            self.types.insert(e.span, copy_type(t));
        }
        found
    }
}

fn gen_c(source: &str) -> String {
    let program = parse(source);
    match CGen::new().generate(&program) {
        Ok(c) => c,
        Err(e) => panic!("codegen: {}", e.message()),
    }
}

/// Like `gen_c` but with the types of expressions, so that type-dependent
/// lowering is exercised.
fn gen_c_typed(source: &str) -> String {
    let program = parse(source);
    let types = Infer::run(&program);
    match CGen::with_types(types).generate(&program) {
        Ok(c) => c,
        Err(e) => panic!("codegen: {}", e.message()),
    }
}

/// The error that generating a program gives.
fn gen_error(source: &str) -> String {
    let program = parse(source);
    let types = Infer::run(&program);
    match CGen::with_types(types).generate(&program) {
        Ok(_) => panic!("no error"),
        Err(XError::Codegen(m)) => m,
        Err(XError::Type(m)) => panic!("a type error: {m}"),
    }
}

fn check_source(source: &str) -> String {
    match check_program(&parse(source)) {
        Ok(()) => "ok".to_string(),
        Err(err) => err.message(),
    }
}

// ---------------------------------------------------------------------------
// The checker
// ---------------------------------------------------------------------------

#[test]
fn rejects_assignment_to_immutable_local() {
    let err = check_source(
        r#"
module main

fn main(): i32 {
    let x: i32 = 1
    x = 2
    return x
}
"#,
    );

    assert!(err.contains("cannot assign to immutable variable \"x\""));
}

#[test]
fn allows_assignment_to_mutable_local() {
    let result = check_source(
        r#"
module main

fn main(): i32 {
    let mut x: i32 = 1
    x = 2
    return x
}
"#,
    );

    assert_eq!(result, "ok");
}

#[test]
fn rejects_assignment_to_function_param() {
    let err = check_source(
        r#"
module main

fn bump(x: i32): i32 {
    x = x + 1
    return x
}
"#,
    );

    assert!(err.contains("cannot assign to immutable variable \"x\""));
}

// ---------------------------------------------------------------------------
// The code generator
// ---------------------------------------------------------------------------

#[test]
fn lowers_option_match_to_if_else() {
    let c = gen_c(
        "module main\nfn f(o: Option<i32>): i32 { match o { Some(v) => { return v } None => { return 0 } } }\nfn main(): i32 { return 0 }",
    );
    assert!(c.contains("typedef struct"), "no Option struct: {c}");
    assert!(c.contains(".some"), "no .some field: {c}");
    assert!(c.contains("if (o.some)"), "no match lowering: {c}");
}

#[test]
fn lowers_result_match_to_if_else() {
    let c = gen_c(
        "module main\nfn f(r: Result<i32, String>): i32 { match r { Ok(v) => { return v } Err(e) => { return 0 } } }\nfn main(): i32 { return 0 }",
    );
    assert!(c.contains(".ok"), "no .ok field: {c}");
    assert!(c.contains("if (r.ok)"), "no result match lowering: {c}");
}

#[test]
fn emits_struct_literal_compound() {
    let c = gen_c(
        "module main\nstruct P { x: i32 }\nfn main(): i32 { let p: P = P { x: 1 } return p.x }",
    );
    assert!(c.contains("(P){ .x ="), "no struct literal: {c}");
}

#[test]
fn emits_vec_push_helper_call() {
    let c = gen_c(
        "module main\nfn main(): i32 { let mut v: Vec<i32> = vec_new() v.push(1) return 0 }",
    );
    assert!(c.contains("__xlang_vec_push_i32(&v,"), "no vec push: {c}");
}

#[test]
fn emits_fork_call() {
    let c = gen_c("module main\nfn main(): i32 { let p: i32 = fork() return p }");
    assert!(c.contains("fork();"), "no fork: {c}");
}

#[test]
fn lowers_for_in_over_array() {
    let c = gen_c(
        "module main\nfn main(): i32 { let a: Array<i32, 3> = [1, 2, 3] for n in a { print_i32(n) } return 0 }",
    );
    assert!(c.contains("< 3;"), "no array bound N: {c}");
    assert!(c.contains(".data["), "no .data index: {c}");
}

#[test]
fn lowers_numeric_range_for_loop() {
    // `for i in 0..n` -> C `for (i = 0; i < bound; i++)`, with the end
    // captured once into a temp so the bound is fixed at loop entry.
    let c = gen_c(
        "module main\nfn sum(n: i32): i32 { let mut s: i32 = 0 for i in 0..n { s += i } return s } fn main(): i32 { return sum(5) }",
    );
    assert!(c.contains("__xlang_rg_end"), "no captured range bound: {c}");
    assert!(
        c.contains("for (int32_t i = 0; i < __xlang_rg_end"),
        "no numeric for-loop: {c}"
    );
    assert!(c.contains("i++)"), "no increment: {c}");
}

#[test]
fn lowers_inclusive_range_for_loop() {
    // `for i in 0..=n` -> C `for (i = 0; i <= bound; i++)`.
    let c = gen_c(
        "module main\nfn main(): i32 { let mut c: i32 = 0 for k in 1..=5 { c += k } return c }",
    );
    assert!(
        c.contains("for (int32_t k = 1; k <= __xlang_rg_end"),
        "no inclusive numeric for-loop: {c}"
    );
}

#[test]
fn lowers_string_plus_to_concat() {
    // `s1 + s2` lowers to __xlang_str_concat (driven by the type map).
    let c = gen_c_typed(
        "module main\nfn cat(a: String, b: String): String { return a + b }\nfn main(): i32 { return 0 }",
    );
    assert!(
        c.contains("return __xlang_str_concat(a, b);"),
        "string + should lower to concat: {c}"
    );
    // A numeric + must stay a plain add (the runtime always *defines*
    // __xlang_str_concat, so check the call site, not the bare name).
    let c2 = gen_c_typed(
        "module main\nfn add(a: i32, b: i32): i32 { return a + b }\nfn main(): i32 { return 0 }",
    );
    assert!(
        c2.contains("return (a + b);"),
        "numeric + should stay an add: {c2}"
    );
    assert!(
        !c2.contains("__xlang_str_concat(a, b)"),
        "numeric + must not call concat: {c2}"
    );
}

#[test]
fn lowers_string_comparison_to_strcmp() {
    // `s1 < s2` → strcmp(s1, s2) < 0 ; `s1 == s2` → strcmp(s1, s2) == 0
    // (without this, == would be C pointer comparison — a latent bug).
    let c = gen_c_typed(
        "module main\nfn lt(a: String, b: String): bool { return a < b }\nfn main(): i32 { return 0 }",
    );
    assert!(
        c.contains("return (strcmp(a, b) < 0);"),
        "string < should lower to strcmp: {c}"
    );
    let c2 = gen_c_typed(
        "module main\nfn eq(a: String, b: String): bool { return a == b }\nfn main(): i32 { return 0 }",
    );
    assert!(
        c2.contains("return (strcmp(a, b) == 0);"),
        "string == should lower to strcmp: {c2}"
    );
}

#[test]
fn lowers_method_call_to_mangled_function() {
    // `p.length()` → __xlang_method_Point_length(p); method bodies compile
    // as the mangled free function.
    let c = gen_c_typed(
        "module main\nstruct Point { x: i32 }\nimpl Point { fn sq(self: Point): i32 { return self.x * self.x } }\nfn main(): i32 { let p: Point = Point { x: 3 } return p.sq() }",
    );
    assert!(
        c.contains("__xlang_method_Point_sq"),
        "method should compile to a mangled function: {c}"
    );
    assert!(
        c.contains("return __xlang_method_Point_sq(p);"),
        "method call should dispatch to the mangled function with receiver: {c}"
    );
}

#[test]
fn lowers_if_let_to_match_with_temp() {
    // `if let Some(v) = func() { .. }` desugars to a match whose scrutinee
    // is a call; codegen binds it to a typed temp so it can read .some.
    let c = gen_c_typed(
        "module main\nfn f(): Option<i32> { return Some(1) }\nfn main(): i32 { if let Some(v) = f() { return v } return 0 }",
    );
    assert!(
        c.contains("__xlang_m") && c.contains(".some"),
        "if let on a call should bind a temp and test the discriminant: {c}"
    );
}

#[test]
fn orders_vec_typedef_before_struct_using_it() {
    // A struct with a `Vec<T>` field must be emitted AFTER the `Vec_T`
    // typedef (it contains `Vec_T counts;` by value). Regression for a bug
    // where the struct was emitted first → "unknown type name Vec_i32".
    let c =
        gen_c_typed("module main\nstruct Bag { items: Vec<i32> }\nfn main(): i32 { return 0 }");
    let vec_pos = c.find("} Vec_i32;").unwrap_or(usize::MAX);
    let struct_pos = c.find("} Bag;").unwrap_or(usize::MAX);
    assert!(
        vec_pos < struct_pos,
        "Vec_i32 typedef should precede the Bag struct that uses it: {c}"
    );
}

#[test]
fn lowers_for_in_over_field_access() {
    // `for v in self.items` (a field-access iterable) binds a temp and
    // iterates it — the iterable no longer has to be a bare identifier.
    let c = gen_c_typed(
        "module main\nstruct B { xs: Vec<i32> }\nimpl B { fn s(self: B): i32 { let mut t: i32 = 0 for v in self.xs { t += v } return t } }\nfn main(): i32 { return 0 }",
    );
    assert!(
        c.contains("__xlang_it") && c.contains(".len;"),
        "for-in over a field should bind a temp and use .len: {c}"
    );
}

#[test]
fn lowers_match_or_and_range_patterns() {
    // `1 | 2` → `(x == 1 || x == 2)`; `3..=5` → `(x >= 3 && x <= 5)`.
    let c = gen_c(
        "module main\nfn f(x: i32): i32 { match x { 1 | 2 => { return 1 } 3..=5 => { return 2 } _ => { return 0 } } }\nfn main(): i32 { return 0 }",
    );
    assert!(
        c.contains("x == 1 || x == 2"),
        "OR pattern should lower to ||: {c}"
    );
    assert!(
        c.contains("x >= 3 && x <= 5"),
        "inclusive range should lower to <=: {c}"
    );
}

#[test]
fn lowers_int_to_i64_to_cast() {
    // int_to_i64 was in the type table but not lowered → undefined symbol.
    // It must lower to a C cast, not a function call.
    let c = gen_c(
        "module main\nfn widen(x: i32): i64 { return int_to_i64(x) }\nfn main(): i32 { return 0 }",
    );
    assert!(
        c.contains("(int64_t)(x)") && !c.contains("int_to_i64("),
        "int_to_i64 should lower to a cast: {c}"
    );
}

#[test]
fn lowers_string_repeat_to_str_repeat() {
    // `s * n` → __xlang_str_repeat(s, n); numeric `*` must stay a multiply.
    let c = gen_c_typed(
        "module main\nfn rep(s: String, n: i32): String { return s * n }\nfn main(): i32 { return 0 }",
    );
    assert!(
        c.contains("__xlang_str_repeat(s, n)"),
        "string * should lower to str_repeat: {c}"
    );
    let c2 = gen_c_typed(
        "module main\nfn mul(a: i32, b: i32): i32 { return a * b }\nfn main(): i32 { return 0 }",
    );
    assert!(
        c2.contains("return (a * b)"),
        "numeric * should stay a multiply: {c2}"
    );
    // The runtime always *defines* __xlang_str_repeat, so check the call
    // site, not the bare name.
    assert!(
        !c2.contains("__xlang_str_repeat(a, b)"),
        "numeric * must not call str_repeat: {c2}"
    );
}

#[test]
fn lowers_unit_variant_enum() {
    // An enum lowers to int32_t; a variant `B` → its index; `match` on a
    // variant pattern compares the index.
    let c = gen_c(
        "module main\nenum E { A, B, C }\nfn f(x: E): i32 { match x { A => { return 0 } B => { return 1 } _ => { return 9 } } }\nfn main(): i32 { let e: E = B return f(e) }",
    );
    // variant B is index 1, both at construction and in the match arm.
    assert!(
        c.contains("int32_t e = 1;"),
        "variant B should be value 1: {c}"
    );
    assert!(c.contains("x == 1"), "match arm B should compare to 1: {c}");
}

#[test]
fn lowers_enum_method_call() {
    // `impl Enum { fn m(self) }` reuses the struct-method machinery: the
    // receiver's type (an enum → its name) dispatches to the mangled fn.
    let c = gen_c_typed(
        "module main\nenum E { A, B }\nimpl E { fn idx(self: E): i32 { return self } }\nfn main(): i32 { let e: E = B return e.idx() }",
    );
    assert!(
        c.contains("__xlang_method_E_idx"),
        "enum method should compile to the mangled function: {c}"
    );
    assert!(
        c.contains("return __xlang_method_E_idx(e);"),
        "enum method call should dispatch with the receiver: {c}"
    );
}

#[test]
fn lowers_payload_enum_construction_and_match() {
    // `enum S { Ok, Err(String) }` → tagged struct; `Err("x")` sets
    // .tag + .u.v1; `Err(m) =>` reads m from .u.v1.
    let c = gen_c_typed(
        "module main\nenum S { Ok, Err(String) }\nfn f(s: S): String { match s { Ok => { return \"\" } Err(m) => { return m } } }\nfn main(): i32 { let s: S = Err(\"x\") print_str(f(s)) return 0 }",
    );
    assert!(
        c.contains("typedef struct S") && c.contains("union"),
        "payload enum should emit a tagged struct with a union: {c}"
    );
    assert!(
        c.contains(".tag = 1, .u.v1 ="),
        "Err(...) construction should set tag 1 and the v1 payload: {c}"
    );
    assert!(
        c.contains(".tag == 1)") && c.contains("= s.u.v1;"),
        "Err(m) arm should test .tag==1 and bind m from .u.v1: {c}"
    );
}

#[test]
fn lowers_enum_with_struct_payload_and_wildcard() {
    // A struct payload (`Two(Pair)`) and a wildcard arm: the struct binds
    // through the union member, and `_ =>` lowers to the final `else`.
    let c = gen_c_typed(
        "module main\nstruct Pair { a: i32\n b: i32 }\nenum E { Empty, Two(Pair) }\nfn f(e: E): i32 { match e { Empty => { return 0 } Two(p) => { return p.a + p.b } _ => { return -1 } } }\nfn main(): i32 { return 0 }",
    );
    assert!(
        c.contains("= e.u.v1;"),
        "Two(p) arm should bind the struct payload from .u.v1: {c}"
    );
    assert!(
        c.contains("} else {"),
        "wildcard arm should lower to the final else: {c}"
    );
}

#[test]
fn emits_match_literal_if_else() {
    let c = gen_c(
        "module main\nfn main(): i32 { let x: i32 = 2 match x { 1 => { return 1 } _ => { return 0 } } }",
    );
    assert!(c.contains("if (x == 1)"), "no literal match if: {c}");
    assert!(c.contains("} else {"), "no wildcard else: {c}");
}

#[test]
fn emits_print_printf() {
    let c = gen_c("module main\nfn main(): i32 { print_i32(42) return 0 }");
    assert!(c.contains("printf("), "no printf: {c}");
}

#[test]
fn emits_array_literal_initializer() {
    let c = gen_c("module main\nfn main(): i32 { let a: Array<i32, 2> = [1, 2] return 0 }");
    assert!(c.contains(".data = {"), "no array literal init: {c}");
}

#[test]
fn emits_function_prototype() {
    let c = gen_c(
        "module main\nfn helper(x: i32): i32 { return x }\nfn main(): i32 { return helper(1) }",
    );
    assert!(
        c.contains("int32_t helper(int32_t x);"),
        "no prototype: {c}"
    );
}

#[test]
fn emits_str_eq_as_strcmp() {
    let c = gen_c(
        "module main\nfn f(a: String, b: String): bool { return str_eq(a, b) }\nfn main(): i32 { return 0 }",
    );
    assert!(c.contains("strcmp("), "no strcmp for str_eq: {c}");
}

#[test]
fn emits_str_find_and_slice_helpers() {
    let c = gen_c(
        "module main\nfn main(): i32 { let s: String = \"hi\" let i: i32 = str_find(s, \"h\") let t: String = str_slice(s, 0, 1) return 0 }",
    );
    assert!(c.contains("__xlang_str_find("), "no str_find: {c}");
    assert!(c.contains("__xlang_str_slice("), "no str_slice: {c}");
}

#[test]
fn emits_str_lower_upper() {
    let c = gen_c(
        "module main\nfn main(): i32 { let s: String = \"Hi\" let a: String = str_lower(s) let b: String = str_upper(s) return 0 }",
    );
    assert!(c.contains("__xlang_str_lower("), "no str_lower: {c}");
    assert!(c.contains("__xlang_str_upper("), "no str_upper: {c}");
}

#[test]
fn emits_str_repeat_chr() {
    let c = gen_c(
        "module main\nfn main(): i32 { let s: String = str_repeat(\"ab\", 3) let c: String = chr(65) return 0 }",
    );
    assert!(c.contains("__xlang_str_repeat("), "no str_repeat: {c}");
    assert!(c.contains("__xlang_chr("), "no chr: {c}");
}

#[test]
fn emits_time_format_helpers_and_calls() {
    // `time_format(fmt)` / `time_format_utc(fmt)` lower to the strftime
    // wrappers, and the wrappers themselves are emitted into the preamble.
    let c = gen_c(
        "module main\nfn main(): i32 { let a: String = time_format(\"%Y-%m-%d\") let b: String = time_format_utc(\"%H:%M:%S\") let d: String = time_format_at(\"%Y\", 0) let e: String = time_format_at_utc(\"%Y\", 0) return 0 }",
    );
    assert!(
        c.contains("__xlang_time_format("),
        "no time_format call: {c}"
    );
    assert!(
        c.contains("__xlang_time_format_utc("),
        "no time_format_utc call: {c}"
    );
    assert!(
        c.contains("__xlang_time_format_at("),
        "no time_format_at call: {c}"
    );
    assert!(
        c.contains("__xlang_time_format_at_utc("),
        "no time_format_at_utc call: {c}"
    );
    assert!(
        c.contains("char* __xlang_time_format(const char* fmt)"),
        "no time_format helper definition: {c}"
    );
    assert!(
        c.contains("char* __xlang_time_format_utc(const char* fmt)"),
        "no time_format_utc helper definition: {c}"
    );
    assert!(
        c.contains("char* __xlang_time_format_at(const char* fmt, int32_t epoch)"),
        "no time_format_at helper definition: {c}"
    );
}

#[test]
fn emits_time_now_wall_epoch_builtin() {
    // `time_now()` → wall-clock epoch (time(NULL)), distinct from the
    // monotonic `now_s`. Used by relative-date arithmetic (date -d yesterday).
    let c = gen_c("module main\nfn main(): i32 { let t: i32 = time_now() return t }");
    assert!(c.contains("__xlang_time_now()"), "no time_now call: {c}");
    assert!(
        c.contains("int32_t __xlang_time_now()"),
        "no time_now helper definition: {c}"
    );
}

#[test]
fn emits_recv_all_drain_builtin() {
    // `recv_all(fd)` drains a non-blocking socket into one growable buffer
    // (loops recv to EAGAIN), so servers can read HTTP bodies > 64KB.
    let c = gen_c("module main\nfn main(): i32 { let s: String = recv_all(3) return 0 }");
    assert!(c.contains("__xlang_recv_all("), "no recv_all call: {c}");
    assert!(
        c.contains("char* __xlang_recv_all(int32_t fd)"),
        "no recv_all helper definition: {c}"
    );
}

#[test]
fn emits_tcp_listen_reuseport_builtin() {
    // `tcp_listen_reuseport(port)` sets SO_REUSEPORT before bind so a prefork
    // worker pool can share one port (nginx multi-worker model).
    let c = gen_c(
        "module main\nfn main(): i32 { let fd: i32 = tcp_listen_reuseport(8080) return fd }",
    );
    assert!(
        c.contains("__xlang_tcp_listen_reuseport("),
        "no tcp_listen_reuseport call: {c}"
    );
    assert!(
        c.contains("int32_t __xlang_tcp_listen_reuseport(int32_t port)"),
        "no tcp_listen_reuseport helper definition: {c}"
    );
}

#[test]
fn str_find_from_has_no_per_call_strlen() {
    // str_find_from must NOT call strlen(s) — that's O(n) per call, making
    // loops over it (wc -l's count_lines) O(n²). Regressed wc -l on Linux.
    let c = gen_c("module main\nfn f(s: String): i32 { return str_find_from(s, \"x\", 0) }");
    let helper = c
        .find("int32_t __xlang_str_find_from")
        .map(|i| &c[i..])
        .unwrap_or("");
    assert!(
        !helper[..400].contains("strlen(s)"),
        "str_find_from calls strlen(s) per call (O(n²) in loops): {helper}"
    );
}

#[test]
fn str_translate_is_table_based_and_emits_str_delete() {
    // str_translate now builds a 256-entry table (O(n), vs old O(n*|from|)
    // strchr-per-char), and str_delete is a new O(n) bulk builtin (for tr -d).
    let c = gen_c(
        "module main\nfn f(s: String): i32 { let a: String = str_translate(s, \"a\", \"b\") let d: String = str_delete(s, \"x\") return 0 }",
    );
    assert!(
        !c.contains("strchr(from, s[i])"),
        "str_translate still uses O(n*|from|) strchr: {c}"
    );
    assert!(
        c.contains("char table[256]"),
        "str_translate not table-based: {c}"
    );
    assert!(c.contains("__xlang_str_delete("), "no str_delete call: {c}");
    assert!(
        c.contains("char* __xlang_str_delete(const char* s, const char* set)"),
        "no str_delete helper: {c}"
    );
}

#[test]
fn emits_cat_show_builtin() {
    // cat_show(s, tabs, ends) — bulk cat -A/-E/-T expansion (tab→^I, $ before
    // newline), O(n) in C, vs the per-char loop that made cate/showall slow.
    let c = gen_c(
        "module main\nfn f(s: String): i32 { let a: String = cat_show(s, 1, 1) return 0 }",
    );
    assert!(c.contains("__xlang_cat_show("), "no cat_show call: {c}");
    assert!(
        c.contains(
            "char* __xlang_cat_show(const char* s, int32_t show_tabs, int32_t show_ends)"
        ),
        "no cat_show helper: {c}"
    );
}

#[test]
fn tls_builtins_are_gated_on_usage() {
    // Using a tls_* builtin emits #define __XLANG_TLS__ + the OpenSSL section.
    let with_tls = gen_c(
        "module main\nfn f(cert: String, key: String): i32 { return tls_ctx_new(cert, key) }\nfn main(): i32 { return 0 }",
    );
    assert!(
        with_tls.contains("#define __XLANG_TLS__ 1"),
        "tls user missing #define: {with_tls}"
    );
    assert!(
        with_tls.contains("__xlang_tls_ctx_new("),
        "no tls call: {with_tls}"
    );
    assert!(
        with_tls.contains("int32_t __xlang_tls_ctx_new(const char* cert, const char* key)"),
        "no tls helper: {with_tls}"
    );
    // A program NOT using tls_* must NOT #define the macro (the #ifdef
    // directive is always emitted, but undefined → body excluded, no OpenSSL
    // link needed). Non-TLS servers stay free of the dependency.
    let no_tls =
        gen_c("module main\nfn main(): i32 { let fd: i32 = tcp_listen(8080) return fd }");
    assert!(
        !no_tls.contains("#define __XLANG_TLS__"),
        "non-TLS program defined the TLS macro: {no_tls}"
    );
}

#[test]
fn emits_misc_builtins() {
    let c = gen_c(
        "module main\nfn main(): i32 { let i: i32 = str_find_from(\"a-b\", \"-\", 1) let s: String = str_replace_first(\"a-b\", \"-\", \"+\") let x: i32 = abs(-5) let y: i32 = max(1, 2) let z: i32 = min(1, 2) return 0 }",
    );
    assert!(
        c.contains("__xlang_str_find_from("),
        "no str_find_from: {c}"
    );
    assert!(
        c.contains("__xlang_str_replace_first("),
        "no str_replace_first: {c}"
    );
    assert!(c.contains("__xlang_abs("), "no abs: {c}");
    assert!(c.contains("__xlang_max("), "no max: {c}");
    assert!(c.contains("__xlang_min("), "no min: {c}");
}

#[test]
fn emits_for_in_loop() {
    let c = gen_c(
        "module main\nfn main(): i32 { let v: Vec<i32> = vec_new() for x in v { print_raw(\"hi\") } return 0 }",
    );
    assert!(c.contains(".data["), "no for-in data access: {c}");
    assert!(c.contains("for ("), "no for loop: {c}");
}

// ---------------------------------------------------------------------------
// Exact output
// ---------------------------------------------------------------------------

/// What is generated for a program behind the runtime.
fn tail_of(c: &str) -> &str {
    let end = "    return 0;\n}\n#endif\n#endif\n\n";
    let at = c.rfind(end).expect("the end of the runtime");
    &c[at + end.len()..]
}

/// The text of one function.
fn body_of<'a>(c: &'a str, head: &str) -> &'a str {
    let at = c.find(&format!("{head} {{\n")).expect("the function");
    let rest = &c[at..];
    &rest[..rest.find("\n}\n").expect("its end") + 3]
}

#[test]
fn writes_a_whole_program() {
    let c = gen_c("module main\nfn main(): i32 { let x: i32 = 1 return x }");
    assert!(c.starts_with("#include <stdint.h>\n#include <stdbool.h>\n#include <stddef.h>\n"));
    assert_eq!(
        tail_of(&c),
        "int32_t main(int argc, char** argv);\n\n\
         int32_t main(int argc, char** argv) {\n\
         \x20   __xlang_argc_g = argc;\n\
         \x20   __xlang_argv_g = argv;\n\
         \x20   int32_t x = 1;\n\
         \x20   return x;\n\
         }\n"
    );
}

#[test]
fn ends_in_one_line_break() {
    let c = gen_c("module main");
    assert!(c.ends_with("#endif\n#endif\n"));
    let c = gen_c("module main\nfn f(): i32 { return 1 }");
    assert!(c.ends_with("}\n") && !c.ends_with("\n\n"));
}

#[test]
fn writes_an_empty_program() {
    let c = gen_c("module main");
    assert!(c.starts_with("#include <stdint.h>"));
    assert!(c.contains("int __xlang_argc_g = 0;\nchar** __xlang_argv_g = 0;\n"));
}

#[test]
fn separates_types_from_prototypes() {
    let c = gen_c("module main\nstruct P { x: i32, y: f64 }\nfn f(p: P): f64 { return p.y }");
    assert_eq!(
        tail_of(&c),
        "typedef struct P P;\n\
         typedef struct P {\n    int32_t x;\n    double y;\n} P;\n\n\
         double f(P p);\n\n\
         double f(P p) {\n    return p.y;\n}\n"
    );
}

#[test]
fn indents_nested_blocks() {
    let c = gen_c(
        "module main\nfn f(a: i32): i32 { if a < 1 { return 1 } else if a < 2 { return 2 } else { while a < 9 { break continue } } return 0 }",
    );
    assert_eq!(
        body_of(&c, "int32_t f(int32_t a)"),
        "int32_t f(int32_t a) {\n\
         \x20   if ((a < 1)) {\n\
         \x20       return 1;\n\
         \x20   } else {\n\
         \x20       if ((a < 2)) {\n\
         \x20           return 2;\n\
         \x20       } else {\n\
         \x20           while ((a < 9)) {\n\
         \x20               break;\n\
         \x20               continue;\n\
         \x20           }\n\
         \x20       }\n\
         \x20   }\n\
         \x20   return 0;\n\
         }\n"
    );
}

#[test]
fn captures_the_end_of_a_range_once() {
    let c = gen_c("module main\nfn f(n: i32): i32 { for i in 0..n { for j in i..=n { print_i32(j) } } return 0 }");
    assert_eq!(
        body_of(&c, "int32_t f(int32_t n)"),
        "int32_t f(int32_t n) {\n\
         \x20   {\n\
         \x20       int32_t __xlang_rg_end0 = n;\n\
         \x20       for (int32_t i = 0; i < __xlang_rg_end0; i++) {\n\
         \x20           {\n\
         \x20               int32_t __xlang_rg_end1 = n;\n\
         \x20               for (int32_t j = i; j <= __xlang_rg_end1; j++) {\n\
         \x20                   printf(\"%d\\n\", j);\n\
         \x20               }\n\
         \x20           }\n\
         \x20       }\n\
         \x20   }\n\
         \x20   return 0;\n\
         }\n"
    );
}

#[test]
fn loops_over_collections() {
    let c = gen_c(
        "module main\nfn f(s: Slice<i64>, a: Array<bool, 4>, v: Vec<String>): i32 { for x in s { } for y in a { } for z in v { print_str(z) } return 0 }",
    );
    let f = body_of(&c, "int32_t f(Slice_i64 s, Array_bool_4 a, Vec_String v)");
    assert!(f.contains("for (size_t __xlang_i0 = 0, __xlang_n1 = s.len; __xlang_i0 < __xlang_n1; __xlang_i0++) {\n        int64_t x = s.data[__xlang_i0];\n    }\n"));
    assert!(f.contains("for (size_t __xlang_i2 = 0; __xlang_i2 < 4; __xlang_i2++) {\n        bool y = a.data[__xlang_i2];\n    }\n"));
    assert!(f.contains("for (size_t __xlang_i3 = 0, __xlang_n4 = v.len; __xlang_i3 < __xlang_n4; __xlang_i3++) {\n        const char * z = v.data[__xlang_i3];\n        printf(\"%s\\n\", z);\n    }\n"));
}

#[test]
fn loops_over_a_call_through_a_temporary() {
    let c = gen_c_typed(
        "module main\nfn g(): Vec<i32> { return vec_new() }\nfn f(): i32 { for x in g() { print_i32(x) } return 0 }",
    );
    assert_eq!(
        body_of(&c, "int32_t f(void)"),
        "int32_t f(void) {\n\
         \x20   Vec_i32 __xlang_it0 = g();\n\
         \x20   for (size_t __xlang_i1 = 0; __xlang_i1 < __xlang_it0.len; __xlang_i1++) {\n\
         \x20       int32_t x = __xlang_it0.data[__xlang_i1];\n\
         \x20       printf(\"%d\\n\", x);\n\
         \x20   }\n\
         \x20   return 0;\n\
         }\n"
    );
    assert!(c.contains("return (Vec_i32){ .data = 0, .len = 0, .cap = 0 };"));
}

#[test]
fn loops_over_a_field_through_a_temporary() {
    let c = gen_c_typed(
        "module main\nstruct B { xs: Vec<i32> }\nimpl B { fn s(self: B): i32 { let mut t: i32 = 0 for v in self.xs { t += v } return t } }\nfn main(): i32 { return 0 }",
    );
    assert!(c.contains(
        "    Vec_i32 __xlang_it0 = self.xs;\n    for (size_t __xlang_i1 = 0; __xlang_i1 < __xlang_it0.len; __xlang_i1++) {\n        int32_t v = __xlang_it0.data[__xlang_i1];\n"
    ));
}

#[test]
fn matches_results_with_both_bindings() {
    let c = gen_c(
        "module main\nfn f(r: Result<i32, String>): i32 { match r { Ok(v) => { return v } Err(e) => { print_str(e) return 0 } } }",
    );
    assert_eq!(
        body_of(&c, "int32_t f(Result_i32_String r)"),
        "int32_t f(Result_i32_String r) {\n\
         \x20   if (r.ok) {\n\
         \x20       int32_t v = r.value;\n\
         \x20       return v;\n\
         \x20   } else {\n\
         \x20       const char * e = r.error;\n\
         \x20       printf(\"%s\\n\", e);\n\
         \x20       return 0;\n\
         \x20   }\n\
         }\n"
    );
}

#[test]
fn matches_an_option_without_a_some_arm() {
    let c = gen_c("module main\nfn f(o: Option<i32>): i32 { match o { None => { return 1 } } return 0 }");
    assert_eq!(
        body_of(&c, "int32_t f(Option_i32 o)"),
        "int32_t f(Option_i32 o) {\n\
         \x20   if (o.some) {\n\
         \x20   } else {\n\
         \x20       return 1;\n\
         \x20   }\n\
         \x20   return 0;\n\
         }\n"
    );
}

#[test]
fn matches_a_call_through_a_temporary() {
    let c = gen_c_typed(
        "module main\nfn g(): Option<i32> { return None }\nfn f(): i32 { if let Some(v) = g() { return v } return 0 }",
    );
    assert!(body_of(&c, "int32_t f(void)").contains(
        "    Option_i32 __xlang_m0 = g();\n    if (__xlang_m0.some) {\n        int32_t v = __xlang_m0.value;\n        return v;\n    }\n"
    ));
    assert!(c.contains("return (Option_i32){ .some = false };"));
}

#[test]
fn matches_strings_ranges_and_negatives() {
    let c = gen_c(
        "module main\nfn f(s: String, n: i32): i32 { match s { \"a\" | \"b\" => { return 1 } _ => { return 2 } } match n { -1 => { return 3 } 2..5 => { return 4 } } return 0 }",
    );
    assert_eq!(
        body_of(&c, "int32_t f(const char * s, int32_t n)"),
        "int32_t f(const char * s, int32_t n) {\n\
         \x20   if (strcmp(s, \"a\") == 0 || strcmp(s, \"b\") == 0) {\n\
         \x20       return 1;\n\
         \x20   } else {\n\
         \x20       return 2;\n\
         \x20   }\n\
         \x20   if (n == -1) {\n\
         \x20       return 3;\n\
         \x20   } else if ((n >= 2 && n < 5)) {\n\
         \x20       return 4;\n\
         \x20   }\n\
         \x20   return 0;\n\
         }\n"
    );
}

#[test]
fn a_lone_wildcard_needs_no_branch() {
    let c = gen_c("module main\nfn f(n: i32): i32 { match n { _ => { return 3 } } }");
    assert_eq!(
        body_of(&c, "int32_t f(int32_t n)"),
        "int32_t f(int32_t n) {\n    return 3;\n}\n"
    );
    // The last arm that takes everything counts.
    let c = gen_c("module main\nfn f(n: i32): i32 { match n { _ => { return 1 } 7 => { return 7 } _ => { return 2 } } }");
    assert!(c.contains("    if (n == 7) {\n        return 7;\n    } else {\n        return 2;\n    }\n"));
    assert!(!c.contains("return 1;\n    } else {"));
}

#[test]
fn matches_a_payload_enum_on_its_tag() {
    let c = gen_c_typed(
        "module main\nenum T { Leaf, Node(i32), Pair(String) }\nfn g(): T { return Node(4) }\nfn f(t: T): i32 { match t { Node(n) => { return n } Pair => { return 2 } _ => { return 0 } } match g() { Leaf => { return 1 } } return 9 }",
    );
    assert_eq!(
        body_of(&c, "int32_t f(T t)"),
        "int32_t f(T t) {\n\
         \x20   if (t.tag == 1) {\n\
         \x20       int32_t n = t.u.v1;\n\
         \x20       return n;\n\
         \x20   } else if (t.tag == 2) {\n\
         \x20       return 2;\n\
         \x20   } else {\n\
         \x20       return 0;\n\
         \x20   }\n\
         \x20   T __xlang_e0 = g();\n\
         \x20   if (__xlang_e0.tag == 0) {\n\
         \x20       return 1;\n\
         \x20   }\n\
         \x20   return 9;\n\
         }\n"
    );
    assert!(c.contains("return (T){ .tag = 1, .u.v1 = 4 };"));
    assert!(c.contains(
        "typedef struct T {\n    int32_t tag;\n    union {\n        int32_t v1;\n        const char * v2;\n    } u;\n} T;"
    ));
}

#[test]
fn a_unit_variant_of_a_payload_enum_is_a_tagged_struct() {
    let c = gen_c("module main\nenum S { No, Yes(i32) }\nfn f(): S { return No }");
    assert!(c.contains("return (S){ .tag = 0 };"));
    assert!(c.contains("typedef struct S S;\n"));
}

#[test]
fn defines_a_vector_and_its_helpers_once() {
    let c = gen_c("module main\nfn f(a: Vec<i32>, b: Vec<i32>): i32 { let v: Vec<i32> = vec_new() return 0 }");
    let t = tail_of(&c);
    assert_eq!(t.matches("} Vec_i32;").count(), 1);
    assert_eq!(
        &t[..t.find("int32_t f(").expect("the prototype")],
        "typedef struct {\n    int32_t *data;\n    size_t len;\n    size_t cap;\n} Vec_i32;\n\
         void __xlang_vec_insert_i32(Vec_i32 *v, size_t idx, int32_t x) {\n    if (v->len == v->cap) {\n        v->cap = v->cap ? v->cap * 2 : 4;\n        v->data = (int32_t *)realloc(v->data, v->cap * sizeof(int32_t));\n    }\n    if (idx > v->len) idx = v->len;\n    for (size_t i = v->len; i > idx; i--) v->data[i] = v->data[i-1];\n    v->data[idx] = x;\n    v->len++;\n}\n\
         int32_t __xlang_vec_pop_i32(Vec_i32 *v) {\n    if (v->len == 0) return (int32_t){0};\n    return v->data[--v->len];\n}\n\
         void __xlang_vec_push_i32(Vec_i32 *v, int32_t x) {\n    if (v->len == v->cap) {\n        v->cap = v->cap ? v->cap * 2 : 4;\n        v->data = (int32_t *)realloc(v->data, v->cap * sizeof(int32_t));\n    }\n    v->data[v->len++] = x;\n}\n\
         int32_t __xlang_vec_remove_i32(Vec_i32 *v, size_t idx) {\n    if (v->len == 0) return (int32_t){0};\n    int32_t old = v->data[idx];\n    for (size_t i = idx; i < v->len - 1; i++) v->data[i] = v->data[i+1];\n    v->len--;\n    return old;\n}\n\n"
    );
}

#[test]
fn a_vector_of_strings_brings_the_splitter() {
    let with = gen_c("module main\nfn f(s: String): i32 { let v: Vec<String> = str_split(s, \",\") return 0 }");
    assert!(with.contains("Vec_String __xlang_str_split(const char* s, char delim) {"));
    assert!(with.contains("Vec_String v = __xlang_str_split(s, \",\"[0]);"));
    let without = gen_c("module main\nfn f(v: Vec<i32>): i32 { return 0 }");
    assert!(!without.contains("__xlang_str_split"));
}

#[test]
fn defines_the_other_generic_types() {
    let c = gen_c(
        "module main\nfn f(s: Slice<i32>, a: Array<f64, 3>, o: Option<bool>, r: Result<i64, String>): i32 { return 0 }",
    );
    let t = tail_of(&c);
    assert!(t.starts_with("typedef struct {\n    int32_t *data;\n    size_t len;\n} Slice_i32;\n"));
    assert!(t.contains("typedef struct {\n    double data[3];\n} Array_f64_3;\n"));
    assert!(t.contains("typedef struct {\n    bool some;\n    bool value;\n} Option_bool;\n"));
    assert!(t.contains("typedef struct {\n    bool ok;\n    int64_t value;\n    const char * error;\n} Result_i64_String;\n"));
}

#[test]
fn orders_recursive_types() {
    let c = gen_c(
        "module main\nstruct BranchData { v: i32, kids: Vec<Tree> }\nenum Tree { Leaf, Branch(BranchData) }\nfn f(t: Tree): i32 { return 0 }",
    );
    let t = tail_of(&c);
    let place = |s: &str| t.find(s).expect(s);
    assert!(t.starts_with("typedef struct BranchData BranchData;\ntypedef struct Tree Tree;\n"));
    assert!(place("} Vec_Tree;") < place("} BranchData;"));
    assert!(place("} BranchData;") < place("} Tree;"));
}

#[test]
fn orders_a_struct_before_the_option_of_it() {
    let c = gen_c("module main\nstruct Zed { x: i32 }\nstruct Box { z: Option<Zed> }\nfn f(b: Box): i32 { return 0 }");
    let t = tail_of(&c);
    let place = |s: &str| t.find(s).expect(s);
    assert!(place("} Zed;") < place("} Option_Zed;"));
    assert!(place("} Option_Zed;") < place("} Box;"));
}

#[test]
fn types_that_block_each_other_are_still_defined() {
    // Each holds the other by value, which no order can satisfy.
    let c = gen_c("module main\nstruct Aa { b: Bb }\nstruct Bb { a: Aa }\nfn f(): i32 { return 0 }");
    assert!(c.contains("typedef struct Aa {\n    Bb b;\n} Aa;\ntypedef struct Bb {\n    Aa a;\n} Bb;\n"));
}

#[test]
fn prototypes_come_before_bodies() {
    let c = gen_c_typed(
        "module main\nstruct S { x: i32 }\nimpl S { fn get(self: S): i32 { return later() } }\nfn later(): i32 { return 1 }",
    );
    let t = tail_of(&c);
    let place = |s: &str| t.find(s).expect(s);
    assert!(place("int32_t __xlang_method_S_get(S self);") < place("int32_t __xlang_method_S_get(S self) {"));
    assert!(place("int32_t later(void);") < place("int32_t __xlang_method_S_get(S self) {"));
}

#[test]
fn mut_self_goes_by_pointer() {
    let c = gen_c_typed(
        "module main\nstruct Stack { items: Vec<i32> }\nimpl Stack { fn push(mut self: Stack, v: i32): i32 { self.items.push(v) return self.items.pop() } fn top(self: Stack): i32 { return self.items[0] } }\nfn main(): i32 { let mut s: Stack = Stack { items: vec_new() } s.push(1) return s.top() }",
    );
    assert!(c.contains("int32_t __xlang_method_Stack_push(Stack *self, int32_t v);"));
    assert!(c.contains("    __xlang_vec_push_i32(&(*self).items, v);\n    return __xlang_vec_pop_i32(&(*self).items);\n"));
    assert!(c.contains("int32_t __xlang_method_Stack_top(Stack self) {\n    return self.items.data[0];\n}"));
    assert!(c.contains("    __xlang_method_Stack_push(&s, 1);\n    return __xlang_method_Stack_top(s);\n"));
    assert!(c.contains("Stack s = (Stack){ .items = (Vec_i32){ .data = 0, .len = 0, .cap = 0 } };"));
}

#[test]
fn lowers_the_vector_methods() {
    let c = gen_c(
        "module main\nfn f(v: Vec<i32>, s: Slice<i32>): i32 { v.insert(1, 20) v.remove_at(0) if v.is_empty() { return v.len() } return s.len() }",
    );
    assert!(c.contains("    __xlang_vec_insert_i32(&v, 1, 20);\n    __xlang_vec_remove_i32(&v, 0);\n"));
    assert!(c.contains("    if ((v.len == 0)) {\n        return (v.len);\n    }\n    return (s.len);\n"));
}

#[test]
fn indexes_strings_and_collections() {
    let c = gen_c_typed("module main\nfn f(s: String, v: Vec<i32>, i: i32): i32 { return s[i] + v[i] }");
    assert!(c.contains("return (((int32_t)(unsigned char)s[i]) + v.data[i]);"));
}

#[test]
fn repeats_a_string_from_either_side() {
    let c = gen_c_typed("module main\nfn f(s: String): String { return 3 * s }\nfn g(s: String): bool { return s != \"a\" }");
    assert!(c.contains("return __xlang_str_repeat(s, 3);"));
    assert!(c.contains("return (strcmp(s, \"a\") != 0);"));
}

#[test]
fn without_types_operators_stay() {
    let c = gen_c("module main\nfn f(a: String, b: String): String { return a + b }");
    assert!(c.contains("return (a + b);"));
}

#[test]
fn escapes_string_literals() {
    let c = gen_c("module main\nfn f(): i32 { print_str(\"a\\\"b\\\\c\\n\\t\\e[0m\") return 0 }");
    assert!(c.contains(r#"printf("%s\n", "a\"b\\c\n\t\x1b[0m");"#));
    // Control characters without a letter of their own, and letters beyond ASCII.
    let program = Program {
        module: "main".to_string(),
        imports: Vec::new(),
        items: vec![spanned(
            1,
            Item::FnDecl {
                name: "f".to_string(),
                params: Vec::new(),
                return_type: named("String"),
                body: Block {
                    statements: vec![spanned(
                        2,
                        Stmt::ReturnStmt {
                            value: Some(spanned(
                                3,
                                Expr::StringLiteral { value: "\u{1}\u{8}\u{c}\r\u{1f}é".to_string() },
                            )),
                        },
                    )],
                },
            },
        )],
    };
    let c = CGen::new().generate(&program).expect("codegen");
    assert!(c.contains("return \"\\u0001\\b\\f\\r\\u001fé\";"));
}

fn spanned<T>(place: usize, node: T) -> Spanned<T> {
    Spanned { node, span: Span { start: place, end: place } }
}

#[test]
fn lowers_the_irregular_builtins() {
    let c = gen_c(
        "module main\nfn f(a: String, n: i32): i32 { let e: String = getenv(a) send_str(n, a) flush_stdout(n) mknod_dev(a, 1, 2, 3) chgrp_file(a, 5) print_bool(n == 1) assert(n == 2) unreachable() return argc() }",
    );
    assert!(c.contains("const char * e = (getenv(a) ? getenv(a) : \"\");"));
    assert!(c.contains("    send(n, a, strlen(a), 0);\n    fflush(stdout);\n"));
    assert!(c.contains("    mknod(a, 1, (((2) << 8) | ((3) & 0xff)));\n    chown(a, -1, 5);\n"));
    assert!(c.contains("    printf(\"%s\\n\", ((n == 1)) ? \"true\" : \"false\");\n"));
    assert!(c.contains("    (__xlang_assert(((n == 2)), \"assertion failed\"), 0);\n"));
    assert!(c.contains("    (__xlang_unreachable_(), 0);\n    return (__xlang_argc_g);\n"));
}

#[test]
fn a_builtin_with_too_few_arguments_is_an_ordinary_call() {
    let c = gen_c("module main\nfn f(a: String): i32 { str_find(a) print_i32(1, 2) fork(3) return str_len(a, a) }");
    assert!(c.contains("    str_find(a);\n    print_i32(1, 2);\n    fork(3);\n    return (int32_t)strlen(a);\n"));
}

#[test]
fn tls_is_noted_where_it_is_called() {
    // In an argument that is dropped from the text.
    let c = gen_c("module main\nfn f(): i32 { flush_stdout(tls_read(1)) return 0 }");
    assert!(c.starts_with("#define __XLANG_TLS__ 1\n#include <stdint.h>\n"));
    // With too few arguments for the builtin.
    let c = gen_c("module main\nfn f(): i32 { tls_write(1) return 0 }");
    assert!(c.starts_with("#define __XLANG_TLS__ 1\n") && c.contains("    tls_write(1);\n"));
    // In every place where a statement holds an expression.
    for source in [
        "let x: i32 = tls_close(1)",
        "while tls_close(1) == 0 { }",
        "if tls_close(1) == 0 { }",
        "for i in 0..tls_close(1) { }",
        "for i in tls_close(1)..2 { }",
        "return tls_close(1)",
        "let a: Array<i32, 1> = [tls_close(1)]",
        "let o: Option<i32> = Some(tls_close(1))",
    ] {
        let c = gen_c(&format!("module main\nfn f(): i32 {{ {source} }}"));
        assert!(c.starts_with("#define __XLANG_TLS__ 1\n"), "{source}");
    }
    // Not in an argument that the builtin does not use, nor without arguments.
    let c = gen_c("module main\nfn f(s: String): i32 { tls_read() return str_len(s, tls_read(1)) }");
    assert!(c.starts_with("#include <stdint.h>\n"));
}

#[test]
fn declares_variables_by_block() {
    // Each loop has a scope of its own for its variable.
    let c = gen_c("module main\nfn f(v: Vec<String>, w: Vec<i32>): i32 { for x in v { match x { \"a\" => { return 1 } } } for x in w { match x { 1 => { return 2 } } } return 0 }");
    assert!(c.contains("if (strcmp(x, \"a\") == 0) {"));
    assert!(c.contains("if (x == 1) {"));
}

#[test]
fn a_type_alias_brings_its_types() {
    let c = gen_c("module main\ntype Names = Vec<String>\nfn f(): i32 { return 0 }");
    assert!(c.contains("} Vec_String;"));
}

#[test]
fn constructs_results() {
    let c = gen_c("module main\nfn f(n: i32): Result<i32, String> { if n == 0 { return Err(\"no\") } return Ok(n) }\nfn g(): Option<i32> { return Some(4) }");
    assert!(c.contains("return (Result_i32_String){ .ok = false, .error = \"no\" };"));
    assert!(c.contains("return (Result_i32_String){ .ok = true, .value = n };"));
    assert!(c.contains("return (Option_i32){ .some = true, .value = 4 };"));
}

// ---------------------------------------------------------------------------
// Errors of the generator
// ---------------------------------------------------------------------------

#[test]
fn tells_what_it_cannot_generate() {
    let in_main = |s: &str| gen_error(&format!("module main\nfn main(): i32 {{ {s} }}"));
    let with_type = |t: &str| gen_error(&format!("module main\nfn f(x: {t}): i32 {{ return 0 }}"));
    assert_eq!(with_type("Thing"), "C backend does not support type yet: Thing");
    assert_eq!(with_type("Map<i32>"), "C backend does not support generic type yet: Map<...>");
    assert_eq!(with_type("3"), "unexpected const type argument in C type position: 3");
    assert_eq!(
        with_type("Vec<Thing>"),
        "C backend does not support Thing as a generated type suffix yet"
    );
    assert_eq!(
        with_type("Vec<Map<i32>>"),
        "C backend does not support Map<...> as a generated type suffix yet"
    );
    assert_eq!(with_type("Vec<3>"), "unexpected const type argument in C type suffix: 3");
    assert_eq!(with_type("Slice<i32, i32>"), "Slice expects exactly one type argument, got 2");
    assert_eq!(with_type("Array<i32>"), "Array expects exactly two type arguments, got 1");
    assert_eq!(with_type("Option"), "Option expects exactly one type argument, got 0");
    assert_eq!(with_type("Result<i32>"), "Result expects exactly two type arguments, got 1");
    assert_eq!(with_type("Vec<i32, i32>"), "Vec expects exactly one type argument, got 2");
    assert_eq!(
        with_type("Array<i32, bool>"),
        "Array length must be a constant integer, got type bool"
    );
    assert_eq!(
        in_main("return [1]"),
        "array literals are only supported in typed Array<T, N> let initializers"
    );
    assert_eq!(
        in_main("return 1..2"),
        "range expressions (a..b) are only supported as the iterable of a `for` loop"
    );
    assert_eq!(
        in_main("let a: 3 = [1]"),
        "array literal initializer requires an Array<T, N> type annotation"
    );
    assert_eq!(
        in_main("let a: i32 = [1]"),
        "array literal initializer requires Array<T, N>, got i32<...>"
    );
    assert_eq!(
        in_main("let a: Array<i32, 99999999999999999999999> = [1]"),
        "Array length must fit usize for codegen, got \"99999999999999999999999\""
    );
    assert_eq!(
        in_main("let a: Array<i32, 2> = [1]"),
        "Array literal length mismatch: Array expects 2 elements, got 1"
    );
    assert_eq!(
        in_main("for x in unknown { }"),
        "for-in iterable has an unknown type (annotate it or bind it to a variable first)"
    );
    assert_eq!(
        in_main("let n: i32 = 1 for x in n { }"),
        "C backend only supports for-in over Slice<T> or Array<T, N>, got i32<...>"
    );
    assert_eq!(
        in_main("match unknown { _ => { } }"),
        "match scrutinee has an unknown type (annotate it or bind it to a variable first)"
    );
    assert_eq!(
        in_main("let b: bool = true match b { _ => { } }"),
        "match supports Option<T> / Result<T, E>, got bool"
    );
    assert_eq!(
        in_main("let o: Option<i32> = None match o { Maybe => { } }"),
        "C backend does not support match variant \"Maybe\""
    );
    assert_eq!(
        in_main("let n: i32 = 1 match n { Maybe => { } }"),
        "variant pattern \"Maybe\" not supported in literal match on i32"
    );
    assert_eq!(
        in_main("let s: String = \"a\" match s { 1..2 => { } }"),
        "range pattern not supported in match on String"
    );
}

#[test]
fn the_first_fault_is_told() {
    assert_eq!(
        gen_error("module main\nfn main(): i32 { let x: i32 = 1..2 + [1] return [1] }"),
        "range expressions (a..b) are only supported as the iterable of a `for` loop"
    );
    assert_eq!(
        gen_error("module main\nfn f(a: One, b: Two): i32 { return 0 }"),
        "C backend does not support type yet: One"
    );
}

#[test]
fn messages_for_shown_names() {
    assert_eq!(length_error("\"x\"").message(), "Array length must fit usize for codegen, got \"x\"");
    assert_eq!(
        variant_error("\"A\"", "i32").message(),
        "variant pattern \"A\" not supported in literal match on i32"
    );
    assert_eq!(match_variant_error("\"A\"").message(), "C backend does not support match variant \"A\"");
}

// ---------------------------------------------------------------------------
// More of the checker
// ---------------------------------------------------------------------------

fn check_body(body: &str) -> String {
    check_source(&format!("module main\nfn main(): i32 {{ {body} }}"))
}

#[test]
fn tells_how_to_mend_an_assignment() {
    assert_eq!(
        check_body("let x: i32 = 1 x = 2"),
        "cannot assign to immutable variable \"x\"; declare it with `let mut x` if reassignment is intended"
    );
    assert_eq!(check_body("let mut x: i32 = 1 x = 2"), "ok");
    assert_eq!(check_body("y = 2"), "cannot assign to unknown variable \"y\"");
    assert_eq!(
        check_body("f() = 2"),
        "assignment target must be a variable or field access"
    );
    let program = parse("module main\nfn main(): i32 { y = 2 }");
    assert!(matches!(check_program(&program), Err(XError::Type(_))));
}

#[test]
fn a_field_is_as_mutable_as_its_variable() {
    assert_eq!(check_body("let mut p: P = q p.x.y = 1"), "ok");
    assert!(check_body("let p: P = q p.x.y = 1").starts_with("cannot assign to immutable variable \"p\""));
    assert_eq!(
        check_body("let mut v: Vec<i32> = w v[0] = 1"),
        "assignment target must be a variable or field access"
    );
}

#[test]
fn blocks_hide_what_they_declare() {
    assert_eq!(check_body("if a { let mut x: i32 = 1 } x = 2"), "cannot assign to unknown variable \"x\"");
    assert_eq!(check_body("let mut x: i32 = 1 while a { let x: i32 = 2 } x = 3"), "ok");
    assert!(check_body("let mut x: i32 = 1 if a { let x: i32 = 2 x = 3 }").starts_with("cannot assign to immutable"));
    assert_eq!(check_body("let mut x: i32 = 1 if a { } else { x = 3 }"), "ok");
    assert!(check_body("for i in 0..3 { i = 1 }").starts_with("cannot assign to immutable variable \"i\""));
    assert!(check_body("match o { Some(v) => { v = 1 } }").starts_with("cannot assign to immutable variable \"v\""));
    assert_eq!(check_body("match o { Some(v) => { } None => { v = 1 } }"), "cannot assign to unknown variable \"v\"");
}

#[test]
fn assignments_are_found_anywhere() {
    for place in [
        "f(x = 1)",
        "x = 1 + 2",
        "return -(x = 1)",
        "let y: i32 = 1 + (x = 1)",
        "while (x = 1) { }",
        "if a { } else if (x = 1) { }",
        "for i in (x = 1)..2 { }",
        "for i in v[x = 1] { }",
        "let p: P = P { a: (x = 1) }",
        "let a: Array<i32, 1> = [x = 1]",
        "match (x = 1) { _ => { } }",
        "(x = 1).y()",
    ] {
        assert_eq!(check_body(place), "cannot assign to unknown variable \"x\"", "{place}");
        assert_eq!(check_body(&format!("let mut x: i32 = 0; {place}")), "ok", "{place}");
    }
}

#[test]
fn functions_are_judged_alone() {
    let good = "fn a(): i32 { let mut x: i32 = 1 x = 2 return x }";
    let bad = "fn b(): i32 { x = 2 }";
    let other = good.replacen("fn a", "fn c", 1);
    assert_eq!(check_source(&format!("module main\n{good}\n{other}")), "ok");
    for order in [format!("{good}\n{bad}"), format!("{bad}\n{good}")] {
        assert_eq!(
            check_source(&format!("module main\nstruct S {{ x: i32 }}\n{order}")),
            "cannot assign to unknown variable \"x\""
        );
    }
}

#[test]
fn adding_mut_keeps_a_program_in_order() {
    for body in ["let x: i32 = 1 let mut y: i32 = x y = 2", "let x: i32 = 1 { }"] {
        let body = body.trim_end_matches("{ }");
        assert_eq!(check_body(body), "ok");
        assert_eq!(check_body(&body.replacen("let x", "let mut x", 1)), "ok");
    }
}

#[test]
fn judges_a_variable_from_what_is_known() {
    assert!(judge_variable(Some(true), "x", "<x>").is_ok());
    assert_eq!(
        judge_variable(Some(false), "x", "<x>").expect_err("immutable").message(),
        "cannot assign to immutable variable <x>; declare it with `let mut x` if reassignment is intended"
    );
    assert_eq!(
        judge_variable(None, "x", "<x>").expect_err("unknown").message(),
        "cannot assign to unknown variable <x>"
    );
}

#[test]
fn quotes_odd_names() {
    let program = Program {
        module: "main".to_string(),
        imports: Vec::new(),
        items: vec![spanned(
            1,
            Item::FnDecl {
                name: "f".to_string(),
                params: Vec::new(),
                return_type: named("i32"),
                body: Block {
                    statements: vec![spanned(
                        2,
                        Stmt::ExprStmt {
                            expr: spanned(
                                3,
                                Expr::AssignmentExpr {
                                    target: Box::new(spanned(
                                        4,
                                        Expr::Identifier { name: "a\"b".to_string() },
                                    )),
                                    value: Box::new(spanned(
                                        5,
                                        Expr::IntLiteral { value: "1".to_string() },
                                    )),
                                },
                            ),
                        },
                    )],
                },
            },
        )],
    };
    assert_eq!(
        check_program(&program).expect_err("unknown").message(),
        "cannot assign to unknown variable \"a\\\"b\""
    );
}

#[test]
fn the_later_type_of_a_place_counts() {
    let mut types = TypeMap::new();
    let e = spanned(7, Expr::Identifier { name: "x".to_string() });
    assert!(types.type_node(&e).is_none());
    types.insert(e.span, named("i32"));
    types.insert(e.span, named("String"));
    let found = types.type_node(&e).expect("a type");
    assert!(matches!(found, TypeNode::TypeExpr { name, args } if name == "String" && args.is_empty()));
}

#[test]
fn the_default_generator_knows_no_types() {
    let source = "module main\nfn cat(a: String, b: String): String { return a + b }";
    let program = parse(source);
    match CGen::default().generate(&program) {
        Ok(c) => {
            assert!(c.contains("return (a + b);"));
            assert_eq!(c, gen_c(source));
        }
        Err(e) => panic!("codegen: {}", e.message()),
    }
}

// ---------------------------------------------------------------------------
// Type aliases
// ---------------------------------------------------------------------------

#[test]
fn an_alias_stands_for_its_type() {
    let c = gen_c("module main\ntype UserId = i64\nfn id(u: UserId): UserId { return u }\nfn main(): i32 { return 0 }");
    assert!(c.contains("int64_t id(int64_t u);"));
}

#[test]
fn aliases_go_through_aliases_and_generic_types() {
    let c = gen_c(
        "module main\ntype Ids = Vec<Id>\ntype Id = Number\ntype Number = i64\nfn f(v: Ids, o: Option<Id>): i32 { for x in v { } match o { Some(n) => { return 1 } None => { return 0 } } }",
    );
    assert!(c.contains("int32_t f(Vec_i64 v, Option_i64 o);"));
    assert!(c.contains("        int64_t x = v.data["));
    assert!(c.contains("    if (o.some) {\n        int64_t n = o.value;\n"));
    assert!(c.contains("} Vec_i64;"));
    assert!(c.contains("} Option_i64;"));
}

#[test]
fn an_alias_does_not_hide_a_struct_or_a_scalar() {
    let c = gen_c("module main\ntype P = i64\nstruct P { x: i32 }\ntype i32 = bool\nfn f(p: P): i32 { return p.x }");
    assert!(c.contains("int32_t f(P p);"));
}

#[test]
fn circular_aliases_are_refused() {
    let e = gen_error("module main\ntype A = B\ntype B = A\nfn f(a: A): i32 { return 0 }");
    assert!(e.contains("C backend does not support type yet: "));
    assert_eq!(
        gen_error("module main\ntype L = Vec<L>\nfn f(a: i32): i32 { return 0 }"),
        "C backend does not support L as a generated type suffix yet"
    );
}

#[test]
fn aliases_reach_strings_constructors_and_methods() {
    let c = gen_c_typed(
        "module main\ntype Name = String\ntype Found = Option<i32>\nstruct Point { x: i32 }\ntype P = Point\nimpl Point { fn sq(self: Point): i32 { return self.x } }\nfn f(a: Name, b: Name, p: P): i32 { let o: Found = Some(p.sq()) let s: Name = a + b if a == b { return 1 } return 0 }",
    );
    assert!(c.contains("Option_i32 o = (Option_i32){ .some = true, .value = __xlang_method_Point_sq(p) };"));
    assert!(c.contains("const char * s = __xlang_str_concat(a, b);"));
    assert!(c.contains("if ((strcmp(a, b) == 0)) {"));
}

// ---------------------------------------------------------------------------
// The order of types
// ---------------------------------------------------------------------------

#[test]
fn a_struct_held_by_value_comes_first() {
    let c = gen_c("module main\nstruct Zed { v: i32, kids: Vec<Tree> }\nenum Tree { Leaf, Branch(Zed) }\nfn main(): i32 { return 0 }");
    let place = |s: &str| c.find(s).expect(s);
    assert!(place("typedef struct Zed Zed;") < place("} Vec_Tree;"));
    assert!(place("typedef struct Tree Tree;") < place("} Vec_Tree;"));
    assert!(place("} Vec_Tree;") < place("\n} Zed;"));
    assert!(place("\n} Zed;") < place("\n} Tree;"));
    assert!(place("\n} Tree;") < place("void __xlang_vec_push_Tree("));
}

#[test]
fn a_name_inside_a_longer_one_is_no_mention() {
    let c = gen_c("module main\nstruct A { x: i32 }\nstruct AB { a: A }\nstruct B { ab: AB, c: i32 }\nfn main(): i32 { return 0 }");
    let place = |s: &str| c.find(s).expect(s);
    assert!(place("\n} A;") < place("\n} AB;"));
    assert!(place("\n} AB;") < place("\n} B;"));
}

// ---------------------------------------------------------------------------
// Matches
// ---------------------------------------------------------------------------

#[test]
fn self_behind_a_pointer_is_matched_through_it() {
    let c = gen_c(
        "module main\nenum S { A, B(i32) }\nimpl S { fn m(mut self: S): i32 { match self { A => { return 0 } B(v) => { return v } } } }\nfn main(): i32 { return 0 }",
    );
    assert!(c.contains("    if ((*self).tag == 0) {\n        return 0;\n    } else if ((*self).tag == 1) {\n        int32_t v = (*self).u.v1;\n        return v;\n    }\n"));
}

#[test]
fn self_behind_a_pointer_is_looped_over_and_tested() {
    let c = gen_c(
        "module main\nimpl V { fn m(mut self: Vec<i32>): i32 { for x in self { } return 0 } fn o(mut self: Option<i32>): i32 { match self { Some(v) => { return v } _ => { return 1 } } } }",
    );
    assert!(c.contains("= (*self).len; "));
    assert!(c.contains("int32_t x = (*self).data["));
    assert!(c.contains("if ((*self).some) {\n        int32_t v = (*self).value;\n        return v;\n    } else {\n        return 1;\n    }\n"));
}

#[test]
fn a_wildcard_takes_the_arm_that_is_missing() {
    let c = gen_c("module main\nfn f(o: Option<i32>): i32 { match o { Some(v) => { return v } _ => { return 7 } } }");
    assert!(c.contains("    if (o.some) {\n        int32_t v = o.value;\n        return v;\n    } else {\n        return 7;\n    }\n"));
    let c = gen_c("module main\nfn f(r: Result<i32, String>): i32 { match r { _ => { return 7 } Err(e) => { return 1 } } }");
    assert!(c.contains("    if (r.ok) {\n        return 7;\n    } else {\n        const char * e = r.error;\n        return 1;\n    }\n"));
    let c = gen_c("module main\nfn f(o: Option<i32>): i32 { match o { Some(v) => { return v } None => { return 0 } _ => { return 7 } } }");
    assert!(!c.contains("return 7;"));
    let c = gen_c("module main\nfn f(o: Option<i32>): i32 { match o { _ => { return 7 } } }");
    assert!(c.contains("    if (o.some) {\n        return 7;\n    } else {\n        return 7;\n    }\n"));
}

#[test]
fn types_are_read_off_declarations() {
    let verdict = |main: &str| {
        check_source(&format!(
            "module main\ntype Count = i32\nstruct P {{ a: i32, f: f64, names: Vec<String> }}\nimpl P {{ fn len(self: P, by: i32): Count {{ return by }} fn big(self: P): bool {{ return true }} }}\nfn one(): i32 {{ return 1 }}\nfn yes(): bool {{ return true }}\nfn take(x: i32, y: f64): i32 {{ return x }}\nfn f(p: P, v: Vec<Option<i32>>, s: String): i32 {{ {main} return 0 }}"
        ))
    };
    let cast = |found: &str, wanted: &str| {
        format!("a value of type {found} cannot stand for one of type {wanted}; there are no implicit casts")
    };
    // Conditions.
    assert!(verdict("if one() { return 1 }").contains("if condition must be bool, got i32"));
    assert!(verdict("while p.len(1) { return 1 }").contains("while condition must be bool, got i32"));
    assert!(verdict("if p.f { return 1 }").contains("if condition must be bool, got f64"));
    assert!(verdict("if s[0] { return 1 }").contains("if condition must be bool, got i32"));
    assert!(verdict("if v[0] { return 1 }").contains("if condition must be bool, got Option<...>"));
    assert_eq!(verdict("if yes() { return 1 } while p.big() { return 1 }"), "ok");
    // Values.
    assert!(verdict("let x: f64 = one()").contains(&cast("i32", "f64")));
    assert!(verdict("let x: String = p.names").contains(&cast("Vec<...>", "String")));
    assert!(verdict("let x: i32 = v[0]").contains(&cast("Option<...>", "i32")));
    assert!(verdict("return p.f").contains(&cast("f64", "i32")));
    assert_eq!(verdict("let x: String = p.names[0] let y: i32 = s[0] + p.len(2)"), "ok");
    // Arguments and fields.
    assert!(verdict("take(1.5, 2.0)").contains(&cast("f64", "i32")));
    assert!(verdict("take(1, one())").contains(&cast("i32", "f64")));
    assert!(verdict("p.len(p.f)").contains(&cast("f64", "i32")));
    assert!(verdict("let q: P = P { a: 1, f: true, names: p.names }").contains(&cast("bool", "f64")));
    assert!(verdict("let mut q: P = p q.a = 1.0").contains(&cast("f64", "i32")));
    assert_eq!(verdict("let mut q: P = P { a: one(), f: 1.0, names: p.names } q.a = take(1, q.f)"), "ok");
    // What is not declared here is not judged.
    assert_eq!(verdict("if elsewhere() { return 1 }"), "ok");
}

#[test]
fn functions_are_not_overloaded() {
    assert!(check_source("module main\nfn f(): i32 { return 0 }\nfn g(): i32 { return 0 }\nfn f(x: i32): i32 { return x }")
        .contains("function f is declared twice; overloading is not allowed"));
    assert!(check_source("module main\nstruct P { a: i32 }\nimpl P { fn m(self: P): i32 { return 0 } fn m(self: P, x: i32): i32 { return x } }")
        .contains("function m is declared twice; overloading is not allowed"));
    // Methods of different types, and a function, may share a name.
    assert_eq!(
        check_source("module main\nstruct P { a: i32 }\nstruct Q { a: i32 }\nimpl P { fn m(self: P): i32 { return 0 } }\nimpl Q { fn m(self: Q): i32 { return 0 } }\nfn m(): i32 { return 0 }"),
        "ok"
    );
}

#[test]
fn tls_is_switched_on_where_a_tls_call_is_written() {
    let on = |body: &str| {
        let c = gen_c_typed(&format!(
            "module main\nenum E {{ A, B(i32) }}\nfn f(n: i32, o: Option<i32>, e: E): i32 {{ {body} return 0 }}"
        ));
        c.starts_with("#define __XLANG_TLS__ 1\n")
    };
    for body in [
        "while n < tls_close(n) { }",
        "if n == 1 { } else if n == 2 { } else { tls_close(n) }",
        "for i in 0..tls_close(n) { }",
        "for i in 0..n { tls_close(i) }",
        "match n { 1 => { tls_close(n) } _ => { } }",
        "match n { 1 => { } _ => { tls_close(n) } }",
        "match o { Some(v) => { tls_close(v) } None => { } }",
        "match o { Some(v) => { } _ => { tls_close(n) } }",
        "match e { A => { } B(v) => { tls_close(v) } }",
        "let a: Array<i32, 1> = [tls_close(n)]",
        "let x: Option<i32> = Some(tls_close(n))",
        "return tls_close(n)",
    ] {
        assert!(on(body), "{body}");
        assert!(!on(&body.replace("tls_close", "close_fd")), "{body}");
    }
    // An arm that is not written does not count.
    assert!(!on("match n { _ => { tls_close(n) } 1 => { } _ => { } }"));
    assert!(!on("match o { Some(v) => { tls_close(v) } Some(w) => { } None => { } }"));
}

#[test]
fn the_splitter_is_defined_with_a_vector_of_strings() {
    for source in [
        "module main\nfn f(s: String): i32 { let v: Vec<String> = str_split(s, s) return v.len() }",
        "module main\nfn f(s: String): i32 { while true { let v: Option<Vec<String>> = Some(str_split(s, s)) } return 0 }",
        "module main\ntype Words = Vec<String>\nfn f(s: String): Words { return str_split(s, s) }",
    ] {
        let c = gen_c(source);
        let defined = c.find("Vec_String __xlang_str_split(const char* s, char delim) {").unwrap();
        let used = c.rfind("__xlang_str_split(s, s[0])").unwrap();
        assert!(c.find("} Vec_String;").unwrap() < defined && defined < used);
    }
}

#[test]
fn statements_are_checked_one_by_one() {
    let program = parse(
        "module main\nfn f(v: Vec<i32>, o: Option<i32>): i32 { let mut x: i32 = 1 for i in v { let mut y: i32 = i y = 2 } match o { Some(w) => { } None => { } } x = 2 i = 1 y = 1 w = 1 }",
    );
    let body = match &program.items[0].node {
        Item::FnDecl { body, .. } => &body.statements,
        _ => unreachable!(),
    };
    let mut checker = Checker::of_program(&program);
    checker.push_scope();
    let verdicts: Vec<bool> = body.iter().map(|s| checker.check_stmt(s).is_ok()).collect();
    // Names of loops, blocks and patterns do not leak out.
    assert_eq!(verdicts, vec![true, true, true, true, false, false, false]);
}

#[test]
fn statements_are_written_one_by_one() {
    let program = parse("module main\nfn f(): i32 { let x: i32 = 1 let y: Nope = 2 while x < 3 { break } }");
    let body = match &program.items[0].node {
        Item::FnDecl { body, .. } => &body.statements,
        _ => unreachable!(),
    };
    let mut g = CGen::new();
    let written: Vec<bool> = body.iter().map(|s| g.gen_stmt(s).is_ok()).collect();
    assert_eq!(written, vec![true, false, true]);
    let c = g.generate(&parse("module main\nfn main(): i32 { return 0 }")).unwrap();
    assert!(c.starts_with("int32_t x = 1;\nwhile ((x < 3)) {\n    break;\n}\n#include <stdint.h>\n"));
}

#[test]
fn methods_become_different_functions() {
    assert_eq!(
        check_source("module main\nstruct A { x: i32 }\nstruct A_b { x: i32 }\nimpl A { fn b_c(self: A): i32 { return 0 } }\nimpl A_b { fn c(self: A_b): i32 { return 0 } }"),
        "two methods become the function __xlang_method_A_b_c"
    );
    assert_eq!(
        check_source("module main\nstruct A { x: i32 }\nimpl A { fn m(self: A): i32 { return 0 } }\nimpl A { fn m(self: A): i32 { return 1 } }"),
        "two methods become the function __xlang_method_A_m"
    );
    assert_eq!(
        check_source("module main\nstruct A { x: i32 }\ntype B = A\nimpl A { fn m(self: A): i32 { return 0 } }\nimpl B { fn m(self: B): i32 { return 1 } }"),
        "two methods become the function __xlang_method_A_m"
    );
    assert_eq!(
        check_source("module main\nstruct A { x: i32 }\nstruct A_b { x: i32 }\nimpl A { fn b_d(self: A): i32 { return 0 } }\nimpl A_b { fn c(self: A_b): i32 { return 0 } }"),
        "ok"
    );
}

#[test]
fn an_alias_names_a_struct_literal_and_a_receiver() {
    let source = "module main\nstruct Point { x: i32, all: Vec<i32> }\ntype P = Point\nimpl P { fn get(self: P): i32 { return self.x } fn set(mut self: P, v: i32): i32 { self.x = v return v } }\nfn f(): i32 { let mut p: P = P { x: 1, all: vec_new() } p.set(2) return p.get() }";
    let c = gen_c_typed(source);
    assert!(c.contains("Point p = (Point){ .x = 1, .all = (Vec_i32){ .data = 0, .len = 0, .cap = 0 } };"));
    assert!(c.contains("__xlang_method_Point_set(&p, 2);"));
    assert!(c.contains("return __xlang_method_Point_get(p);"));
    assert!(c.contains("int32_t __xlang_method_Point_get(Point self) {"));
    assert!(!c.contains("(P)") && !c.contains("_P_"));
    assert_eq!(check_source(source), "ok");
    assert!(check_source("module main\nstruct Point { x: i32 }\ntype P = Point\nfn f(): i32 { let p: Point = P { x: 1.5 } return 0 }")
        .contains("a value of type f64 cannot stand for one of type i32"));
    assert!(check_source("module main\nstruct Point { x: i32 }\ntype P = Point\nimpl P { fn get(self: P): i32 { return self.x } }\nfn f(p: Point): i32 { if p.get() { return 1 } return 0 }")
        .contains("if condition must be bool, got i32"));
}

#[test]
fn methods_are_checked_like_functions() {
    let verdict = |body: &str| {
        let method = format!("module main\nstruct P {{ a: i32 }}\nimpl P {{ {body} }}");
        check_source(&method)
    };
    assert!(verdict("fn f(self: P): i32 { let x: i32 = 1 x = 2 return x }")
        .contains("cannot assign to immutable variable \"x\""));
    assert!(verdict("fn f(self: P): i32 { if 1 { return 1 } return 0 }")
        .contains("if condition must be bool, got i32"));
    // Only `mut self` may be assigned to.
    assert!(verdict("fn f(self: P): i32 { self.a = 2 return 0 }")
        .contains("cannot assign to immutable variable \"self\""));
    assert_eq!(verdict("fn f(mut self: P, v: i32): i32 { self.a = v return 0 }"), "ok");
    assert!(verdict("fn f(mut self: P, v: i32): i32 { v = 1 return 0 }")
        .contains("cannot assign to immutable variable \"v\""));
    assert!(verdict("fn g(self: P): i32 { return 0 } fn f(self: P): i32 { y = 1 return 0 }")
        .contains("cannot assign to unknown variable \"y\""));
}

#[test]
fn alternatives_of_variants_share_an_arm() {
    let c = gen_c("module main\nenum E { A, B(i32), C }\nfn f(e: E): i32 { match e { A | C => { return 1 } B(v) => { return v } } }");
    assert!(c.contains("    if (e.tag == 0 || e.tag == 2) {\n        return 1;\n    } else if (e.tag == 1) {\n        int32_t v = e.u.v1;\n        return v;\n    }\n"));
    // An alternative that always applies takes what the other arms leave.
    let c = gen_c("module main\nenum E { A, B(i32) }\nfn f(e: E): i32 { match e { A | _ => { return 1 } B(v) => { return v } } }");
    assert!(c.contains("    if (e.tag == 1) {\n        int32_t v = e.u.v1;\n        return v;\n    } else {\n        return 1;\n    }\n"));
    let c = gen_c("module main\nfn f(o: Option<i32>): i32 { match o { Some(v) | None => { return 3 } } }");
    assert!(c.contains("    if (o.some) {\n        return 3;\n    } else {\n        return 3;\n    }\n"));
    // In a literal match one without a condition is left out.
    let c = gen_c("module main\nfn f(x: i32): i32 { match x { 1 | _ => { return 1 } 2 => { return 2 } } }");
    assert!(c.contains("    if (x == 1) {\n        return 1;\n    } else if (x == 2) {\n        return 2;\n    }\n"));
}

#[test]
fn a_vector_follows_elements_that_are_not_declared_ahead() {
    let c = gen_c("module main\nstruct P { a: i32 }\nstruct S { all: Vec<Vec<Option<P>>> }\nfn f(s: S): i32 { return 0 }");
    let place = |text: &str| c.find(text).unwrap();
    assert!(place("} P;") < place("} Option_P;"));
    assert!(place("} Option_P;") < place("} Vec_Option_P;"));
    assert!(place("} Vec_Option_P;") < place("} Vec_Vec_Option_P;"));
    assert!(place("} Vec_Vec_Option_P;") < place("} S;"));
    assert!(place("} Vec_Option_P;") < place("void __xlang_vec_push_Option_P("));
    let c = gen_c("module main\nfn f(s: Slice<Array<i32, 4>>): i32 { return 0 }\nfn g(v: Vec<Result<i32, String>>): i32 { return 0 }");
    assert!(c.find("} Array_i32_4;").unwrap() < c.find("} Slice_Array_i32_4;").unwrap());
    assert!(c.find("} Result_i32_String;").unwrap() < c.find("} Vec_Result_i32_String;").unwrap());
}

#[test]
fn if_let_else_keeps_its_else() {
    let c = gen_c_typed(
        "module main\nfn g(): Option<i32> { return None }\nfn f(): i32 { if let Some(v) = g() { return v } else { return 9 } return 0 }",
    );
    assert!(c.contains("    Option_i32 __xlang_m0 = g();\n    if (__xlang_m0.some) {\n        int32_t v = __xlang_m0.value;\n        return v;\n    } else {\n        return 9;\n    }\n"));
}

#[test]
fn a_literal_match_compares_a_field_as_it_is() {
    let c = gen_c_typed(
        "module main\nstruct P { kind: i32, names: Vec<String> }\nimpl P { fn f(self: P): i32 { match self.kind { 1 => { return 1 } _ => { return 0 } } } fn g(mut self: P): i32 { match self.names[0] { \"a\" => { return 1 } _ => { return 0 } } } }\nfn h(x: i32): i32 { match x + 1 { 2 => { return 1 } _ => { return 0 } } }",
    );
    assert!(c.contains("    if (self.kind == 1) {\n        return 1;\n    } else {\n        return 0;\n    }\n"));
    assert!(c.contains("    if (strcmp((*self).names.data[0], \"a\") == 0) {\n"));
    assert!(c.contains("    if ((x + 1) == 2) {\n"));
}

#[test]
fn a_literal_match_evaluates_its_value_once() {
    let c = gen_c_typed(
        "module main\nfn next(): i32 { return 1 }\nfn name(): String { return \"a\" }\nfn f(): i32 { match next() { 1 => { return 1 } 2 => { return 2 } _ => { return 0 } } }\nfn g(): i32 { match name() { \"a\" => { return 1 } _ => { return 0 } } }",
    );
    assert_eq!(
        body_of(&c, "int32_t f(void)"),
        "int32_t f(void) {\n\
         \x20   int32_t __xlang_m0 = next();\n\
         \x20   if (__xlang_m0 == 1) {\n\
         \x20       return 1;\n\
         \x20   } else if (__xlang_m0 == 2) {\n\
         \x20       return 2;\n\
         \x20   } else {\n\
         \x20       return 0;\n\
         \x20   }\n\
         }\n"
    );
    assert!(body_of(&c, "int32_t g(void)").contains("    const char * __xlang_m1 = name();\n    if (strcmp(__xlang_m1, \"a\") == 0) {\n"));
}

// ---------------------------------------------------------------------------
// Builtins and the runtime
// ---------------------------------------------------------------------------

#[test]
fn every_listed_builtin_is_lowered() {
    let c = gen_c(
        "module main\nfn f(s: String, n: i32): i32 { str_keep(s, s) str_translate_complement(s, s, s) sb_push_i32(n) sb_push_slice(s, 0, n) count_newlines(s) sendfile_stdout(s) statvfs_field(s, n) uid_to_name(n) gid_to_name(n) read_utmp() eprint_str(s) eprint_raw(s) eprint_i32(n) eprint_f64(1.5) eprint_bool(true) regex_match(s, s) regex_find(s, s) regex_find_from(s, s, n) regex_match_len(s, s, n) getuid() getgid() exit(n) return 0 }",
    );
    let f = body_of(&c, "int32_t f(const char * s, int32_t n)");
    for line in [
        "__xlang_str_keep(s, s);",
        "__xlang_str_translate_complement(s, s, s);",
        "__xlang_sb_push_i32(n);",
        "__xlang_sb_push_slice(s, 0, n);",
        "__xlang_count_newlines(s);",
        "__xlang_sendfile_stdout(s);",
        "__xlang_statvfs_field(s, n);",
        "__xlang_uid_to_name(n);",
        "__xlang_gid_to_name(n);",
        "__xlang_read_utmp();",
        "fprintf(stderr, \"%s\\n\", s);",
        "fprintf(stderr, \"%s\", s);",
        "fprintf(stderr, \"%d\\n\", n);",
        "fprintf(stderr, \"%f\\n\", 1.5);",
        "fprintf(stderr, \"%s\\n\", (true) ? \"true\" : \"false\");",
        "__xlang_regex_match(s, s);",
        "__xlang_regex_find(s, s);",
        "__xlang_regex_find_from(s, s, n);",
        "__xlang_regex_match_len(s, s, n);",
        "getuid();",
        "getgid();",
        "exit(n);",
    ] {
        assert!(f.contains(&format!("    {line}\n")), "{line}");
    }
}

#[test]
fn what_a_builtin_calls_is_defined() {
    let c = gen_c("module main\nfn main(): i32 { return 0 }");
    let defined = |name: &str| {
        c.lines().any(|l| l.contains(&format!(" {name}(")) && l.contains(") {") && !l.starts_with(' '))
    };
    for row in PLAIN_CALLS {
        assert!(row.2.is_empty() || defined(row.2), "{}", row.2);
    }
    for row in CALLS {
        assert!(row.3.is_empty() || defined(row.3), "{}", row.3);
    }
}

#[test]
fn no_function_of_the_runtime_is_static() {
    let c = gen_c("module main\nfn main(): i32 { return 0 }");
    assert!(!c.lines().any(|l| l.starts_with("static") && l.ends_with('{') && !l.contains('=')));
}

#[test]
fn networking_is_for_linux_alone() {
    let c = gen_c("module main\nfn main(): i32 { return 0 }");
    let start = c.find("\n#if defined(__linux__)\n").expect("the guard");
    let end = start + c[start..].rfind("\n#endif\n\n").expect("its end");
    for part in ["#include <sys/epoll.h>", "#include <sys/sendfile.h>", "#include <unistd.h>", "__xlang_tcp_listen(", "__xlang_epoll_wait("] {
        let at = c.find(part).expect(part);
        assert!(start < at && at < end, "{part}");
    }
    assert!(!c.contains("_WIN32"));
}

// ---------------------------------------------------------------------------
// Types in the checker
// ---------------------------------------------------------------------------

fn body_check(body: &str) -> String {
    check_source(&format!("module main\ntype Flag = bool\ntype Id = i64\nstruct P {{ x: i32 }}\nfn main(): i32 {{ {body} return 0 }}"))
}

#[test]
fn a_condition_must_be_bool() {
    assert_eq!(
        check_source("module main\n\nfn main(): i32 {\n    if 1 {\n        return 1\n    }\n    return 0\n}"),
        "if condition must be bool, got i32"
    );
    assert_eq!(body_check("while 1.5 { }"), "while condition must be bool, got f64");
    assert_eq!(body_check("let s: String = \"a\" if s { }"), "if condition must be bool, got String");
    assert_eq!(body_check("let x: i32 = 1 if x + 1 { }"), "if condition must be bool, got i32");
    assert_eq!(body_check("let o: Option<i32> = None if o { }"), "if condition must be bool, got Option<...>");
    assert_eq!(body_check("let p: P = P { x: 1 } if p { }"), "if condition must be bool, got P");
    assert_eq!(body_check("for i in 0..3 { if i { } }"), "if condition must be bool, got i32");
    assert_eq!(body_check("if true { } else if 2 { }"), "if condition must be bool, got i32");
}

#[test]
fn conditions_that_are_bool_are_accepted() {
    assert_eq!(body_check("let x: i32 = 1 if x != 0 { }"), "ok");
    assert_eq!(body_check("let f: Flag = true while f { }"), "ok");
    assert_eq!(body_check("let b: bool = !true if b && 1 < 2 || b { }"), "ok");
    assert_eq!(body_check("if is_dir(\"a\") { }"), "ok");
}

#[test]
fn there_are_no_implicit_casts() {
    assert_eq!(
        body_check("let x: i32 = 1.0"),
        "a value of type f64 cannot stand for one of type i32; there are no implicit casts"
    );
    assert_eq!(
        body_check("let x: i32 = 1 let y: i64 = x"),
        "a value of type i32 cannot stand for one of type i64; there are no implicit casts"
    );
    assert_eq!(
        body_check("let mut x: i32 = 1 x = 2.5"),
        "a value of type f64 cannot stand for one of type i32; there are no implicit casts"
    );
    assert_eq!(
        body_check("let o: Option<i32> = None let x: i32 = o"),
        "a value of type Option<...> cannot stand for one of type i32; there are no implicit casts"
    );
    assert_eq!(
        body_check("let b: Flag = 1"),
        "a value of type i32 cannot stand for one of type bool; there are no implicit casts"
    );
    assert_eq!(
        check_source("module main\nfn f(): i32 { return \"a\" }"),
        "a value of type String cannot stand for one of type i32; there are no implicit casts"
    );
}

#[test]
fn values_of_the_wanted_type_are_accepted() {
    assert_eq!(body_check("let mut total: i64 = 0 total = total + 1 total = -2"), "ok");
    assert_eq!(body_check("let a: Id = 1 let b: i64 = a"), "ok");
    assert_eq!(body_check("let a: f32 = 1.5 let b: f64 = 2.5 * 2.0"), "ok");
    assert_eq!(body_check("let a: Str = \"x\" let b: String = a + \"y\" let c: String = \"=\" * 10"), "ok");
    assert_eq!(body_check("let o: Option<i32> = Some(1) let q: Option<i32> = o"), "ok");
    assert_eq!(body_check("let n: i32 = str_len(\"a\")"), "ok");
    assert_eq!(body_check("let a: Array<i32, 2> = [1, 2] let p: P = P { x: 1 }"), "ok");
}

#[test]
fn a_let_that_fails_declares_nothing() {
    assert_eq!(
        body_check("let mut x: i32 = x = 1"),
        "cannot assign to unknown variable \"x\""
    );
}
