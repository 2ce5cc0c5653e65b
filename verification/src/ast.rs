use vstd::prelude::*;

use crate::types::{CapabilitySet, Span, Type};

verus! {

/// A name in the source.
#[derive(Debug)]
pub struct Ident {
    pub text: String,
    pub span: Span,
}

/// A dotted name in the source.
#[derive(Debug)]
pub struct QualifiedName {
    pub segments: Vec<Ident>,
    pub span: Span,
}

/// A literal in the source, with its spelling.
#[derive(Debug)]
pub enum Literal {
    IntDec { raw: String, span: Span },
    IntBin { raw: String, span: Span },
    IntOct { raw: String, span: Span },
    IntHex { raw: String, span: Span },
    /// A float; whether it denotes zero was found out when it was read.
    Float { raw: String, zero: bool, span: Span },
    Bool { value: bool, span: Span },
    Text { raw: String, span: Span },
    RawText { raw: String, span: Span },
}

/// A binary operator.
#[derive(Clone, Copy, Debug, PartialEq, Eq, Structural)]
pub enum BinOp {
    Eq,
    Ne,
    Lt,
    Gt,
    Le,
    Ge,
    And,
    Or,
    Add,
    Sub,
    Mul,
    Div,
    Mod,
    Concat,
    Cons,
}

/// An operator on one operand.
#[derive(Clone, Copy, Debug, PartialEq, Eq, Structural)]
pub enum UnOp {
    Neg,
    Not,
}

/// A pattern: a plain name, or anything else.
#[derive(Debug)]
pub enum Pattern {
    Var { name: Ident, span: Span },
    Other { span: Span },
}

/// A parameter of a lambda, with the type that its annotation denotes.
#[derive(Debug)]
pub enum LambdaParam {
    Pattern(Pattern),
    Annotated { pat: Pattern, ty: Type },
}

/// The constructor that a record expression names.
#[derive(Debug)]
pub enum RecordCtor {
    Bare(Ident),
    Qualified(QualifiedName),
}

/// One field of a record expression; without a value it stands for the local
/// of the same name.
#[derive(Debug)]
pub struct FieldInit {
    pub name: Ident,
    pub value: Option<Expr>,
    pub span: Span,
}

/// One field of a record pattern; without a pattern it binds a local of the
/// same name.
#[derive(Debug)]
pub struct FieldPattern {
    pub name: Ident,
    pub pattern: Option<Pattern>,
    pub span: Span,
}

/// A sequence of statements.
#[derive(Debug)]
pub struct Block {
    pub stmts: Vec<Expr>,
    pub span: Span,
}

/// One arm of a match.
#[derive(Debug)]
pub struct MatchArm {
    pub pattern: Pattern,
    pub guard: Option<Expr>,
    pub body: Expr,
}

/// One part of an interpolated text: text as it is, or a hole.
#[derive(Debug)]
#[allow(inconsistent_fields)]
pub enum InterpPart {
    Text { raw: String, span: Span },
    Expr { expr: Box<Expr>, span: Span },
}

/// A parameter of a function, with the type that its annotation denotes.
#[derive(Debug)]
pub enum Param {
    Bare(Ident),
    Annotated { name: Ident, ty: Type },
}

/// The body of a function.
#[derive(Debug)]
pub enum Body {
    Expr(Expr),
    Ffi,
}

/// A function declaration, with the types that its annotations denote.
#[derive(Debug)]
pub struct FnDecl {
    pub name: Ident,
    /// Only the file that declares it sees it.
    pub file_private: bool,
    pub caps: CapabilitySet,
    pub params: Vec<Param>,
    pub ret: Option<Type>,
    pub body: Body,
    pub span: Span,
}

/// An earlier version of a type.
#[derive(Debug)]
pub struct VersionedType {
    pub name: Ident,
    pub version: u32,
    pub span: Span,
}

/// A hook that turns a value of an earlier version of a type into one of the
/// current version.
#[derive(Debug)]
pub struct MigrateDecl {
    pub old_type: VersionedType,
    pub param: Ident,
    pub body: Expr,
    pub span: Span,
}

/// A top-level constant.
#[derive(Debug)]
pub struct ConstDecl {
    pub name: Ident,
    pub value: Expr,
}

/// A type declaration, as far as it holds expressions.
#[derive(Debug)]
pub struct TypeDecl {
    pub name: Ident,
    pub migrates: Vec<MigrateDecl>,
}

/// A parameter of a handler.
#[derive(Debug)]
pub enum HandlerParam {
    Named(Ident),
    Pattern { pat: Pattern, span: Span },
}

/// A message handler of an actor.
#[derive(Debug)]
pub struct HandlerDecl {
    pub params: Vec<HandlerParam>,
    pub body: Expr,
}

/// A member of an actor.
#[derive(Debug)]
pub enum ActorMember {
    On(HandlerDecl),
    Migrate(MigrateDecl),
    Other,
}

/// An actor declaration.
#[derive(Debug)]
pub struct ActorDecl {
    pub name: Ident,
    pub members: Vec<ActorMember>,
    pub span: Span,
}

/// A top-level declaration other than a function or a constant.
#[derive(Debug)]
pub enum Item {
    Type(TypeDecl),
    Actor(ActorDecl),
    Other,
}

/// A module: its constants, its functions and its other declarations, each in
/// the order of the source.
#[derive(Debug)]
pub struct Module {
    pub consts: Vec<ConstDecl>,
    pub fns: Vec<FnDecl>,
    pub items: Vec<Item>,
    pub span: Span,
}

/// An expression.
#[derive(Debug)]
#[allow(inconsistent_fields)]
pub enum Expr {
    Literal(Literal),
    Unit(Span),
    Ident(Ident),
    Qualified(QualifiedName),
    Call { callee: Box<Expr>, args: Vec<Expr>, span: Span },
    Lambda { params: Vec<LambdaParam>, body: Box<Expr>, span: Span },
    Block(Block),
    Try { block: Block, span: Span },
    Let { pat: Pattern, value: Box<Expr>, span: Span },
    Var { name: Ident, value: Box<Expr>, span: Span },
    Return { value: Box<Expr>, span: Span },
    Assign { target: Box<Expr>, value: Box<Expr>, span: Span },
    If {
        cond: Box<Expr>,
        then_branch: Box<Expr>,
        else_branch: Option<Box<Expr>>,
        span: Span,
    },
    Match { scrutinee: Box<Expr>, arms: Vec<MatchArm>, span: Span },
    Binary { op: BinOp, lhs: Box<Expr>, rhs: Box<Expr>, span: Span },
    Pipe { lhs: Box<Expr>, rhs: Box<Expr>, span: Span },
    Unary { op: UnOp, expr: Box<Expr>, span: Span },
    Tuple { elems: Vec<Expr>, span: Span },
    List { elems: Vec<Expr>, span: Span },
    Paren { inner: Box<Expr>, span: Span },
    Propagate { inner: Box<Expr>, span: Span },
    InnerFn { decl: Box<FnDecl>, span: Span },
    Guard { cond: Box<Expr>, else_branch: Block, span: Span },
    FieldAccess { base: Box<Expr>, field: Ident, span: Span },
    FieldAccessorFn { field: Ident, span: Span },
    Record { constructor: RecordCtor, fields: Vec<FieldInit>, span: Span },
    RecordLit { fields: Vec<FieldInit>, span: Span },
    With { base: Box<Expr>, fields: Vec<FieldInit>, span: Span },
    Interp { parts: Vec<InterpPart>, span: Span },
    Send { target: Box<Expr>, message: Ident, args: Vec<Expr>, span: Span },
    Ask { target: Box<Expr>, message: Ident, args: Vec<Expr>, span: Span },
    Spawn { actor: QualifiedName, args: Vec<Expr>, span: Span },
}

/// Where a literal stands.
pub open spec fn literal_span(lit: Literal) -> Span {
    match lit {
        Literal::IntDec { span, .. } => span,
        Literal::IntBin { span, .. } => span,
        Literal::IntOct { span, .. } => span,
        Literal::IntHex { span, .. } => span,
        Literal::Float { span, .. } => span,
        Literal::Bool { span, .. } => span,
        Literal::Text { span, .. } => span,
        Literal::RawText { span, .. } => span,
    }
}

/// Where an expression stands.
pub open spec fn span_of(e: Expr) -> Span {
    match e {
        Expr::Literal(lit) => literal_span(lit),
        Expr::Unit(span) => span,
        Expr::Ident(id) => id.span,
        Expr::Qualified(qn) => qn.span,
        Expr::Call { span, .. } => span,
        Expr::Lambda { span, .. } => span,
        Expr::Block(block) => block.span,
        Expr::Try { span, .. } => span,
        Expr::Let { span, .. } => span,
        Expr::Var { span, .. } => span,
        Expr::Return { span, .. } => span,
        Expr::Assign { span, .. } => span,
        Expr::If { span, .. } => span,
        Expr::Match { span, .. } => span,
        Expr::Binary { span, .. } => span,
        Expr::Pipe { span, .. } => span,
        Expr::Unary { span, .. } => span,
        Expr::Tuple { span, .. } => span,
        Expr::List { span, .. } => span,
        Expr::Paren { span, .. } => span,
        Expr::Propagate { span, .. } => span,
        Expr::InnerFn { span, .. } => span,
        Expr::Guard { span, .. } => span,
        Expr::FieldAccess { span, .. } => span,
        Expr::FieldAccessorFn { span, .. } => span,
        Expr::Record { span, .. } => span,
        Expr::RecordLit { span, .. } => span,
        Expr::With { span, .. } => span,
        Expr::Interp { span, .. } => span,
        Expr::Send { span, .. } => span,
        Expr::Ask { span, .. } => span,
        Expr::Spawn { span, .. } => span,
    }
}

impl Literal {
    /// Where the literal stands.
    pub fn span(&self) -> (r: Span)
        ensures
            r == literal_span(*self),
    {
        match self {
            Literal::IntDec { span, .. } => *span,
            Literal::IntBin { span, .. } => *span,
            Literal::IntOct { span, .. } => *span,
            Literal::IntHex { span, .. } => *span,
            Literal::Float { span, .. } => *span,
            Literal::Bool { span, .. } => *span,
            Literal::Text { span, .. } => *span,
            Literal::RawText { span, .. } => *span,
        }
    }
}

impl Expr {
    /// Where the expression stands.
    pub fn span(&self) -> (r: Span)
        ensures
            r == span_of(*self),
    {
        match self {
            Expr::Literal(lit) => lit.span(),
            Expr::Unit(span) => *span,
            Expr::Ident(id) => id.span,
            Expr::Qualified(qn) => qn.span,
            Expr::Call { span, .. } => *span,
            Expr::Lambda { span, .. } => *span,
            Expr::Block(block) => block.span,
            Expr::Try { span, .. } => *span,
            Expr::Let { span, .. } => *span,
            Expr::Var { span, .. } => *span,
            Expr::Return { span, .. } => *span,
            Expr::Assign { span, .. } => *span,
            Expr::If { span, .. } => *span,
            Expr::Match { span, .. } => *span,
            Expr::Binary { span, .. } => *span,
            Expr::Pipe { span, .. } => *span,
            Expr::Unary { span, .. } => *span,
            Expr::Tuple { span, .. } => *span,
            Expr::List { span, .. } => *span,
            Expr::Paren { span, .. } => *span,
            Expr::Propagate { span, .. } => *span,
            Expr::InnerFn { span, .. } => *span,
            Expr::Guard { span, .. } => *span,
            Expr::FieldAccess { span, .. } => *span,
            Expr::FieldAccessorFn { span, .. } => *span,
            Expr::Record { span, .. } => *span,
            Expr::RecordLit { span, .. } => *span,
            Expr::With { span, .. } => *span,
            Expr::Interp { span, .. } => *span,
            Expr::Send { span, .. } => *span,
            Expr::Ask { span, .. } => *span,
            Expr::Spawn { span, .. } => *span,
        }
    }
}

} // verus!
