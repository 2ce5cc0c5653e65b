use vstd::prelude::*;
use vstd::string::*;

use crate::ast::{span_of, BinOp, Expr, FieldInit, Ident, Literal};
use crate::ctx::{in_scope, node_views, noted, InferCtx, NodeKind};
use crate::diag::{diag, Desc, Diag};
use crate::error::{TypeDesc, TypeError};
use crate::fx::put_pair;
use crate::instantiate::{after_instantiate, deferred, instantiate, instantiated};
use crate::render::{declared_fields, render_type_with, type_text};
use crate::suggest::label_names;
use crate::table::{resolve, Table};
use crate::text::{join, joined, same_text, text2, text3, text5, texts};
use crate::types::{
    clone_fields, field_views, preds, views, BuiltinTyCons, Poly, Pred, Span, Ty, TyConDecl,
    TyConId, TyConKind, Type,
};
use crate::unify::labels;

verus! {

broadcast use {crate::types::group_views, crate::diag::diags_push};

/// What lowering needs to know of a lambda that is a quote.
#[derive(Debug)]
pub struct QuoteInfo {
    /// The name of the first parameter.
    pub param_name: String,
    /// The entity that the first parameter ranges over.
    pub entity: TyConId,
    /// The quote is about the groups of a query, not about its rows.
    pub group: bool,
}

/// What a [`QuoteInfo`] denotes.
#[verifier::ext_equal]
pub struct Info {
    pub param_name: Seq<char>,
    pub entity: TyConId,
    pub group: bool,
}

impl QuoteInfo {
    pub open spec fn view(&self) -> Info {
        Info { param_name: self.param_name@, entity: self.entity, group: self.group }
    }
}

/// What a table of quotes denotes.
pub open spec fn infos(m: Map<(u32, u32), QuoteInfo>) -> Map<(u32, u32), Info> {
    m.map_values(|q: QuoteInfo| q@)
}

/// One parameter of a quote.
#[derive(Debug)]
pub struct QuoteParam {
    pub name: String,
    /// The entity that the parameter ranges over.
    pub entity: TyConId,
    pub entity_name: String,
    /// The columns of the entity.
    pub fields: Vec<(String, Type)>,
    /// A row may lack the entity, so its columns are optional.
    pub nullable: bool,
}

/// What a [`QuoteParam`] denotes.
#[verifier::ext_equal]
pub struct ParamOf {
    pub name: Seq<char>,
    pub entity: TyConId,
    pub entity_name: Seq<char>,
    pub fields: Seq<(Seq<char>, Ty)>,
    pub nullable: bool,
}

impl QuoteParam {
    pub open spec fn view(&self) -> ParamOf {
        ParamOf {
            name: self.name@,
            entity: self.entity,
            entity_name: self.entity_name@,
            fields: field_views(self.fields@),
            nullable: self.nullable,
        }
    }
}

pub open spec fn params_of(ps: Seq<QuoteParam>) -> Seq<ParamOf> {
    ps.map_values(|p: QuoteParam| p@)
}

/// What a quoted expression amounts to.
#[derive(Debug)]
pub enum QKind {
    /// A column, with its type.
    Col(Type),
    /// A literal or computed value, with its type.
    Scalar(Type),
    /// A condition.
    Pred,
}

/// What a [`QKind`] denotes.
pub enum Kind {
    Col(Ty),
    Scalar(Ty),
    Pred,
}

impl QKind {
    pub open spec fn view(&self) -> Kind {
        match self {
            QKind::Col(t) => Kind::Col(t@),
            QKind::Scalar(t) => Kind::Scalar(t@),
            QKind::Pred => Kind::Pred,
        }
    }
}

/// What checking a quote goes by: the built-in constructors, the constructor
/// table, the names in scope, the ids of the expressions and the parameters.
pub struct Quoting {
    pub b: BuiltinTyCons,
    pub tycons: Seq<TyConDecl>,
    pub env: Seq<Seq<(Seq<char>, Poly)>>,
    pub ids: Map<(u32, u32), u32>,
    pub scope: Seq<ParamOf>,
}

/// What checking a quote changes.
#[verifier::ext_equal]
pub struct QState {
    pub table: Table,
    pub deferred: Seq<Pred>,
    pub nodes: Seq<Option<Ty>>,
    pub quoted: Map<(u32, u32), Info>,
}

/// What a context holds of that.
pub open spec fn qstate(ctx: InferCtx) -> QState {
    QState {
        table: ctx.table(),
        deferred: preds(ctx.deferred_constraints@),
        nodes: node_views(ctx.node_types@),
        quoted: infos(ctx.quoted_lambdas@),
    }
}

pub open spec fn quoting(b: BuiltinTyCons, scope: Seq<QuoteParam>, ctx: InferCtx) -> Quoting {
    Quoting {
        b,
        tycons: ctx.tycon_decls@,
        env: ctx.env@,
        ids: ctx.node_ids.ids(NodeKind::Expr),
        scope: params_of(scope),
    }
}

/// Everything of a context but what checking a quote changes.
pub open spec fn same_but_quotes(c: InferCtx, d: InferCtx) -> bool {
    d == (InferCtx {
        vars: d.vars,
        deferred_constraints: d.deferred_constraints,
        node_types: d.node_types,
        quoted_lambdas: d.quoted_lambdas,
        ..c
    })
}

/// `r` tells what `k` says.
pub open spec fn tells_kind(r: Result<QKind, TypeError>, k: Result<Kind, Diag>) -> bool {
    match k {
        Ok(x) => r matches Ok(q) && q@ == x,
        Err(d) => r matches Err(e) && diag(e) == d,
    }
}

/// The report of something that a quote cannot hold.
pub open spec fn unsupported(detail: Seq<char>, span: Span) -> Diag {
    Diag::Unsupported { detail, span }
}

pub(crate) fn unsupported_error(detail: String, span: Span) -> (r: TypeError)
    ensures
        diag(r) == unsupported(detail@, span),
{
    TypeError::QuoteUnsupportedExpr { detail, span }
}

/// An expression without the parentheses round it.
pub open spec fn peeled(e: Expr) -> Expr
    decreases e,
{
    match e {
        Expr::Paren { inner, span } => peeled(*inner),
        _ => e,
    }
}

/// An expression without the parentheses round it.
pub(crate) fn peel_paren<'a>(e: &'a Expr) -> (r: &'a Expr)
    ensures
        *r == peeled(*e),
    decreases e,
{
    match e {
        Expr::Paren { inner, span: _ } => peel_paren(inner),
        _ => e,
    }
}

/// The type of a literal.
pub open spec fn literal_ty(b: BuiltinTyCons, lit: Literal) -> Ty {
    let id = match lit {
        Literal::IntDec { .. } => b.int,
        Literal::IntBin { .. } => b.int,
        Literal::IntOct { .. } => b.int,
        Literal::IntHex { .. } => b.int,
        Literal::Float { .. } => b.float,
        Literal::Bool { .. } => b.bool,
        Literal::Text { .. } => b.text,
        Literal::RawText { .. } => b.text,
    };
    Ty::Con(id, Seq::empty())
}

pub(crate) fn con0(id: TyConId) -> (r: Type)
    ensures
        r@ == Ty::Con(id, Seq::empty()),
{
    let args: Vec<Type> = Vec::new();
    assert(views(args@) =~= Seq::empty());
    Type::Con(id, args)
}

pub(crate) fn literal_type(b: &BuiltinTyCons, lit: &Literal) -> (r: Type)
    ensures
        r@ == literal_ty(*b, *lit),
{
    match lit {
        Literal::IntDec { .. } | Literal::IntBin { .. } | Literal::IntOct { .. } | Literal::IntHex {
            ..
        } => con0(b.int),
        Literal::Float { .. } => con0(b.float),
        Literal::Bool { .. } => con0(b.bool),
        Literal::Text { .. } | Literal::RawText { .. } => con0(b.text),
    }
}

/// Two types made of constructors alone that are the same.
pub open spec fn same_value(a: Ty, b: Ty) -> bool
    decreases a,
{
    match (a, b) {
        (Ty::Con(i, xs), Ty::Con(j, ys)) => i == j && same_values(xs, ys),
        _ => false,
    }
}

pub open spec fn same_values(xs: Seq<Ty>, ys: Seq<Ty>) -> bool
    decreases xs,
{
    xs.len() == ys.len() && forall|i: int|
        0 <= i < xs.len() ==> same_value(#[trigger] xs[i], ys[i])
}

/// Types that count as the same value type are equal.
pub proof fn same_value_means_equal(a: Ty, b: Ty)
    requires
        same_value(a, b),
    ensures
        a == b,
    decreases a,
{
    match (a, b) {
        (Ty::Con(_, xs), Ty::Con(_, ys)) => {
            assert forall|i: int| 0 <= i < xs.len() implies xs[i] == ys[i] by {
                assert(same_value(xs[i], ys[i]));
                same_value_means_equal(xs[i], ys[i]);
            }
            assert(xs =~= ys);
        },
        _ => {},
    }
}

pub(crate) fn same_value_type(a: &Type, b: &Type) -> (r: bool)
    ensures
        r == same_value(a@, b@),
    decreases a,
{
    match (a, b) {
        (Type::Con(i, xs), Type::Con(j, ys)) => {
            assert(a@ == Ty::Con(*i, views(xs@)));
            assert(b@ == Ty::Con(*j, views(ys@)));
            let alike = same_value_types(xs, ys);
            i.0 == j.0 && alike
        },
        _ => false,
    }
}

fn same_value_types(xs: &Vec<Type>, ys: &Vec<Type>) -> (r: bool)
    ensures
        r == same_values(views(xs@), views(ys@)),
    decreases xs,
{
    if xs.len() != ys.len() {
        return false;
    }
    let mut i: usize = 0;
    while i < xs.len()
        invariant
            i <= xs@.len(),
            xs@.len() == ys@.len(),
            forall|k: int| 0 <= k < i ==> same_value((#[trigger] views(xs@)[k]), views(ys@)[k]),
        decreases xs@.len() - i,
    {
        assert(views(xs@)[i as int] == xs@[i as int]@);
        assert(views(ys@)[i as int] == ys@[i as int]@);
        if !same_value_type(&xs[i], &ys[i]) {
            return false;
        }
        i = i + 1;
    }
    true
}

/// The type of the value that a quoted expression has, unless it is a
/// condition.
pub open spec fn value_of(k: Kind) -> Option<Ty> {
    match k {
        Kind::Col(t) => Some(t),
        Kind::Scalar(t) => Some(t),
        Kind::Pred => None,
    }
}

pub(crate) fn value_type<'a>(k: &'a QKind) -> (r: Option<&'a Type>)
    ensures
        r is Some <==> value_of(k@) is Some,
        r matches Some(t) ==> value_of(k@) == Some(t@),
{
    match k {
        QKind::Col(t) => Some(t),
        QKind::Scalar(t) => Some(t),
        QKind::Pred => None,
    }
}

/// A type with the given constructor.
pub open spec fn is_con(t: Ty, id: TyConId) -> bool {
    t is Con && t->Con_0 == id
}

pub(crate) fn has_con(t: &Type, id: TyConId) -> (r: bool)
    ensures
        r == is_con(t@, id),
{
    match t {
        Type::Con(c, _) => c.0 == id.0,
        _ => false,
    }
}

/// A quoted expression that can stand for a condition: one, or a boolean value.
pub open spec fn boolean(b: BuiltinTyCons, k: Kind) -> bool {
    match k {
        Kind::Pred => true,
        Kind::Col(t) => is_con(t, b.bool),
        Kind::Scalar(t) => is_con(t, b.bool),
    }
}

pub(crate) fn as_predicate(b: &BuiltinTyCons, k: &QKind) -> (r: bool)
    ensures
        r == boolean(*b, k@),
{
    match k {
        QKind::Pred => true,
        QKind::Col(t) => has_con(t, b.bool),
        QKind::Scalar(t) => has_con(t, b.bool),
    }
}

pub open spec fn numeric(b: BuiltinTyCons, t: Ty) -> bool {
    is_con(t, b.int) || is_con(t, b.float)
}

fn is_numeric(b: &BuiltinTyCons, t: &Type) -> (r: bool)
    ensures
        r == numeric(*b, t@),
{
    has_con(t, b.int) || has_con(t, b.float)
}

/// A type that a quote can take from the names in scope.
pub open spec fn quotable(b: BuiltinTyCons, t: Ty) -> bool {
    is_con(t, b.int) || is_con(t, b.text) || is_con(t, b.bool) || is_con(t, b.float)
}

fn is_quote_scalar(b: &BuiltinTyCons, t: &Type) -> (r: bool)
    ensures
        r == quotable(*b, t@),
{
    has_con(t, b.int) || has_con(t, b.text) || has_con(t, b.bool) || has_con(t, b.float)
}

/// The digits of an integer literal without underscores and radix prefix.
pub open spec fn without_underscores(s: Seq<char>) -> Seq<char>
    decreases s.len(),
{
    if s.len() == 0 {
        s
    } else if s.last() == '_' {
        without_underscores(s.drop_last())
    } else {
        without_underscores(s.drop_last()).push(s.last())
    }
}

/// The letter after the zero of a radix prefix.
pub open spec fn is_radix(c: char) -> bool {
    c == 'b' || c == 'B' || c == 'o' || c == 'O' || c == 'x' || c == 'X'
}

/// The digits of an integer literal.
pub open spec fn int_digits(raw: Seq<char>) -> Seq<char> {
    let s = without_underscores(raw);
    if s.len() >= 2 && s[0] == '0' && is_radix(s[1]) {
        s.skip(2)
    } else {
        s
    }
}

/// All digits of an integer literal are zero.
pub open spec fn all_zero(raw: Seq<char>) -> bool {
    int_digits(raw).len() > 0 && forall|i: int|
        0 <= i < int_digits(raw).len() ==> #[trigger] int_digits(raw)[i] == '0'
}

/// An expression that is a literal zero.
pub open spec fn literal_zero(e: Expr) -> bool {
    match e {
        Expr::Literal(lit) => match lit {
            Literal::IntDec { raw, span } => all_zero(raw@),
            Literal::IntBin { raw, span } => all_zero(raw@),
            Literal::IntOct { raw, span } => all_zero(raw@),
            Literal::IntHex { raw, span } => all_zero(raw@),
            Literal::Float { raw, zero, span } => zero,
            _ => false,
        },
        _ => false,
    }
}

fn plain_chars(raw: &str) -> (r: Vec<char>)
    ensures
        r@ == without_underscores(raw@),
{
    let n: usize = raw.unicode_len();
    let mut out: Vec<char> = Vec::new();
    let mut i: usize = 0;
    assert(raw@.take(0) =~= Seq::empty());
    assert(out@ =~= raw@.take(0));
    while i < n
        invariant
            n == raw@.len(),
            i <= n,
            out@ == without_underscores(raw@.take(i as int)),
        decreases n - i,
    {
        assert(raw@.take(i + 1).drop_last() =~= raw@.take(i as int));
        let c = raw.get_char(i);
        if c != '_' {
            out.push(c);
        }
        i = i + 1;
    }
    assert(raw@.take(i as int) =~= raw@);
    out
}

fn radix_letter(c: char) -> (r: bool)
    ensures
        r == is_radix(c),
{
    c == 'b' || c == 'B' || c == 'o' || c == 'O' || c == 'x' || c == 'X'
}

fn is_zero_int(raw: &str) -> (r: bool)
    ensures
        r == all_zero(raw@),
{
    let cs = plain_chars(raw);
    let from: usize = if cs.len() >= 2 && cs[0] == '0' && radix_letter(cs[1]) {
        2
    } else {
        0
    };
    let ghost ds = int_digits(raw@);
    assert(ds =~= cs@.skip(from as int));
    if cs.len() == from {
        return false;
    }
    let mut i: usize = from;
    while i < cs.len()
        invariant
            from <= i <= cs@.len(),
            ds == int_digits(raw@),
            ds == cs@.skip(from as int),
            forall|k: int| 0 <= k < i - from ==> #[trigger] ds[k] == '0',
        decreases cs@.len() - i,
    {
        assert(ds[i - from] == cs@[i as int]);
        if cs[i] != '0' {
            return false;
        }
        i = i + 1;
    }
    true
}

fn is_literal_zero(e: &Expr) -> (r: bool)
    ensures
        r == literal_zero(*e),
{
    match e {
        Expr::Literal(lit) => match lit {
            Literal::IntDec { raw, span: _ } => is_zero_int(raw.as_str()),
            Literal::IntBin { raw, span: _ } => is_zero_int(raw.as_str()),
            Literal::IntOct { raw, span: _ } => is_zero_int(raw.as_str()),
            Literal::IntHex { raw, span: _ } => is_zero_int(raw.as_str()),
            Literal::Float { raw: _, zero, span: _ } => *zero,
            _ => false,
        },
        _ => false,
    }
}

/// The parameter with a name.
pub open spec fn find_param(scope: Seq<ParamOf>, name: Seq<char>) -> Option<ParamOf>
    decreases scope.len(),
{
    if scope.len() == 0 {
        None
    } else if scope[0].name == name {
        Some(scope[0])
    } else {
        find_param(scope.skip(1), name)
    }
}

fn param_named<'a>(scope: &'a Vec<QuoteParam>, name: &str) -> (r: Option<&'a QuoteParam>)
    ensures
        r is Some <==> find_param(params_of(scope@), name@) is Some,
        r matches Some(p) ==> find_param(params_of(scope@), name@) == Some(p@),
{
    let ghost all = params_of(scope@);
    let mut i: usize = 0;
    assert(all.skip(0) =~= all);
    while i < scope.len()
        invariant
            i <= scope@.len(),
            all == params_of(scope@),
            find_param(all, name@) == find_param(all.skip(i as int), name@),
        decreases scope@.len() - i,
    {
        assert(all.skip(i as int)[0] == scope@[i as int]@);
        assert(all.skip(i as int).skip(1) =~= all.skip(i + 1));
        if same_text(scope[i].name.as_str(), name) {
            return Some(&scope[i]);
        }
        i = i + 1;
    }
    None
}

/// The type of the field with a label.
pub open spec fn find_field(fs: Seq<(Seq<char>, Ty)>, label: Seq<char>) -> Option<Ty>
    decreases fs.len(),
{
    if fs.len() == 0 {
        None
    } else if fs[0].0 == label {
        Some(fs[0].1)
    } else {
        find_field(fs.skip(1), label)
    }
}

pub(crate) fn field_named<'a>(fs: &'a Vec<(String, Type)>, label: &str) -> (r: Option<&'a Type>)
    ensures
        r is Some <==> find_field(field_views(fs@), label@) is Some,
        r matches Some(t) ==> find_field(field_views(fs@), label@) == Some(t@),
{
    let ghost all = field_views(fs@);
    let mut i: usize = 0;
    assert(all.skip(0) =~= all);
    while i < fs.len()
        invariant
            i <= fs@.len(),
            all == field_views(fs@),
            find_field(all, label@) == find_field(all.skip(i as int), label@),
        decreases fs@.len() - i,
    {
        assert(all.skip(i as int)[0] == all[i as int]);
        assert(all.skip(i as int).skip(1) =~= all.skip(i + 1));
        if same_text(fs[i].0.as_str(), label) {
            return Some(&fs[i].1);
        }
        i = i + 1;
    }
    None
}

/// The names of the parameters, as a diagnostic lists them.
pub open spec fn names_text(scope: Seq<ParamOf>) -> Seq<char> {
    joined(scope.map_values(|p: ParamOf| "`"@ + p.name + "`"@), ", "@)
}

pub(crate) fn scope_names(scope: &Vec<QuoteParam>) -> (r: String)
    ensures
        r@ == names_text(params_of(scope@)),
{
    let ghost want = params_of(scope@).map_values(|p: ParamOf| "`"@ + p.name + "`"@);
    let mut out: Vec<String> = Vec::new();
    let mut i: usize = 0;
    while i < scope.len()
        invariant
            i <= scope@.len(),
            out@.len() == i,
            forall|k: int| 0 <= k < i ==> (#[trigger] out@[k])@ == "`"@ + scope@[k].name@ + "`"@,
        decreases scope@.len() - i,
    {
        out.push(text3("`", scope[i].name.as_str(), "`"));
        i = i + 1;
    }
    assert(texts(out@) =~= want);
    join(&out, ", ")
}

/// The report of an access to something else than a column.
pub open spec fn only_columns(scope: Seq<ParamOf>, span: Span) -> Diag {
    unsupported(
        "only columns of the quote parameters ("@ + names_text(scope) + ") can be accessed"@,
        span,
    )
}

fn only_columns_error(scope: &Vec<QuoteParam>, span: Span) -> (r: TypeError)
    ensures
        diag(r) == only_columns(params_of(scope@), span),
{
    let names = scope_names(scope);
    unsupported_error(
        text3("only columns of the quote parameters (", names.as_str(), ") can be accessed"),
        span,
    )
}

/// What `base.field` amounts to: a column of the parameter that `base` names.
/// A column of a nullable parameter is optional.
pub open spec fn column(q: Quoting, base: Expr, field: Ident, span: Span) -> Result<Kind, Diag> {
    match base {
        Expr::Ident(id) => match find_param(q.scope, id.text@) {
            None => Err(only_columns(q.scope, span)),
            Some(p) => match find_field(p.fields, field.text@) {
                Some(t) => Ok(
                    Kind::Col(
                        if p.nullable {
                            Ty::Con(q.b.option, seq![t])
                        } else {
                            t
                        },
                    ),
                ),
                None => Err(
                    Diag::UnknownColumn {
                        entity: p.entity_name,
                        column: field.text@,
                        suggestions: labels(p.fields),
                        span,
                    },
                ),
            },
        },
        _ => Err(only_columns(q.scope, span)),
    }
}

fn check_column(
    b: &BuiltinTyCons,
    scope: &Vec<QuoteParam>,
    base: &Expr,
    field: &Ident,
    span: Span,
    Ghost(q): Ghost<Quoting>,
) -> (r: Result<QKind, TypeError>)
    requires
        q.b == *b,
        q.scope == params_of(scope@),
    ensures
        tells_kind(r, column(q, *base, *field, span)),
{
    match base {
        Expr::Ident(id) => match param_named(scope, id.text.as_str()) {
            None => Err(only_columns_error(scope, span)),
            Some(p) => match field_named(&p.fields, field.text.as_str()) {
                Some(t) => if p.nullable {
                    let mut args: Vec<Type> = Vec::new();
                    args.push(t.clone());
                    assert(views(args@) =~= seq![t@]);
                    let ty = Type::Con(b.option, args);
                    assert(ty@ == Ty::Con(b.option, seq![t@]));
                    Ok(QKind::Col(ty))
                } else {
                    Ok(QKind::Col(t.clone()))
                },
                None => {
                    let e = TypeError::QuoteUnknownColumn {
                        entity: p.entity_name.clone(),
                        column: field.text.clone(),
                        suggestions: label_names(&p.fields),
                        span,
                    };
                    Err(e)
                },
            },
        },
        _ => Err(only_columns_error(scope, span)),
    }
}

pub open spec fn is_comparison(op: BinOp) -> bool {
    op is Eq || op is Ne || op is Lt || op is Gt || op is Le || op is Ge
}

pub open spec fn is_logic(op: BinOp) -> bool {
    op is And || op is Or
}

pub open spec fn is_arithmetic(op: BinOp) -> bool {
    op is Add || op is Sub || op is Mul || op is Div || op is Mod
}

/// How a binary operator is dealt with.
#[derive(Clone, Copy, Debug)]
pub enum OpClass {
    Comparison,
    Logic,
    Arithmetic,
    Other,
}

pub(crate) fn op_class(op: BinOp) -> (r: OpClass)
    ensures
        r is Comparison <==> is_comparison(op),
        r is Logic <==> is_logic(op),
        r is Arithmetic <==> is_arithmetic(op),
{
    match op {
        BinOp::Eq | BinOp::Ne | BinOp::Lt | BinOp::Gt | BinOp::Le | BinOp::Ge => {
            OpClass::Comparison
        },
        BinOp::And | BinOp::Or => OpClass::Logic,
        BinOp::Add | BinOp::Sub | BinOp::Mul | BinOp::Div | BinOp::Mod => OpClass::Arithmetic,
        _ => OpClass::Other,
    }
}

/// The report of a comparison of two types.
pub open spec fn compared(q: Quoting, a: Ty, b: Ty, span: Span) -> Diag {
    Diag::Comparison {
        left: Desc::Text(type_text(a, q.tycons)),
        right: Desc::Text(type_text(b, q.tycons)),
        span,
    }
}

pub(crate) fn comparison_error(
    a: &Type,
    b: &Type,
    tycons: &Vec<TyConDecl>,
    span: Span,
) -> (r: TypeError)
    ensures
        diag(r) == (Diag::Comparison {
            left: Desc::Text(type_text(a@, tycons@)),
            right: Desc::Text(type_text(b@, tycons@)),
            span,
        }),
{
    TypeError::QuoteComparisonMismatch {
        left: TypeDesc::Text(render_type_with(a, tycons)),
        right: TypeDesc::Text(render_type_with(b, tycons)),
        span,
    }
}

/// What an operator makes of its operands.
pub open spec fn binary_kind(
    q: Quoting,
    tb: Table,
    op: BinOp,
    rhs: Expr,
    span: Span,
    l: Kind,
    r: Kind,
) -> Result<Kind, Diag> {
    if is_logic(op) {
        if boolean(q.b, l) && boolean(q.b, r) {
            Ok(Kind::Pred)
        } else {
            Err(unsupported("the operands of `&&` and `||` must be boolean"@, span))
        }
    } else {
        match (value_of(l), value_of(r)) {
            (Some(x), Some(y)) => {
                let lt = resolve(tb, x);
                let rt = resolve(tb, y);
                if is_comparison(op) {
                    if same_value(lt, rt) {
                        Ok(Kind::Pred)
                    } else {
                        Err(compared(q, lt, rt, span))
                    }
                } else if !numeric(q.b, lt) || !numeric(q.b, rt) || !same_value(lt, rt) {
                    Err(
                        unsupported(
                            "arithmetic (`+ - * / %`) takes two operands of the same numeric type (Int or Float), but found "@
                                + type_text(lt, q.tycons) + " and "@ + type_text(rt, q.tycons),
                            span,
                        ),
                    )
                } else if op is Mod && !is_con(lt, q.b.int) {
                    Err(unsupported("modulo (`%`) applies to Int operands"@, span))
                } else if (op is Div || op is Mod) && literal_zero(peeled(rhs)) {
                    Err(unsupported("division by zero"@, span))
                } else {
                    Ok(Kind::Scalar(lt))
                }
            },
            _ => if is_comparison(op) {
                Err(unsupported("a comparison operand must be a column or a literal"@, span))
            } else {
                Err(unsupported("an arithmetic operand must be a column or a literal"@, span))
            },
        }
    }
}

/// Checks what an operator makes of its operands.
fn combine_binary(
    ctx: &InferCtx,
    b: &BuiltinTyCons,
    op: BinOp,
    rhs: &Expr,
    span: Span,
    l: &QKind,
    r: &QKind,
    Ghost(q): Ghost<Quoting>,
) -> (out: Result<QKind, TypeError>)
    requires
        q.b == *b,
        q.tycons == ctx.tycon_decls@,
        is_comparison(op) || is_logic(op) || is_arithmetic(op),
    ensures
        tells_kind(out, binary_kind(q, ctx.table(), op, *rhs, span, l@, r@)),
{
    let class = op_class(op);
    if let OpClass::Logic = class {
        return if as_predicate(b, l) && as_predicate(b, r) {
            Ok(QKind::Pred)
        } else {
            Err(
                unsupported_error(
                    "the operands of `&&` and `||` must be boolean".to_owned(),
                    span,
                ),
            )
        };
    }
    match (value_type(l), value_type(r)) {
        (Some(x), Some(y)) => {
            let lt = ctx.deep_resolve(x);
            let rt = ctx.deep_resolve(y);
            if let OpClass::Comparison = class {
                return if same_value_type(&lt, &rt) {
                    Ok(QKind::Pred)
                } else {
                    Err(comparison_error(&lt, &rt, &ctx.tycon_decls, span))
                };
            }
            if !is_numeric(b, &lt) || !is_numeric(b, &rt) || !same_value_type(&lt, &rt) {
                let left = render_type_with(&lt, &ctx.tycon_decls);
                let right = render_type_with(&rt, &ctx.tycon_decls);
                let mut detail = text3(
                    "arithmetic (`+ - * / %`) takes two operands of the same numeric type (Int or Float), but found ",
                    left.as_str(),
                    " and ",
                );
                detail.append(right.as_str());
                return Err(unsupported_error(detail, span));
            }
            let is_mod = match op {
                BinOp::Mod => true,
                _ => false,
            };
            let is_div = match op {
                BinOp::Div => true,
                _ => false,
            };
            if is_mod && !has_con(&lt, b.int) {
                return Err(
                    unsupported_error("modulo (`%`) applies to Int operands".to_owned(), span),
                );
            }
            if (is_div || is_mod) && is_literal_zero(peel_paren(rhs)) {
                return Err(unsupported_error("division by zero".to_owned(), span));
            }
            Ok(QKind::Scalar(lt))
        },
        _ => {
            let detail = if let OpClass::Comparison = class {
                "a comparison operand must be a column or a literal".to_owned()
            } else {
                "an arithmetic operand must be a column or a literal".to_owned()
            };
            Err(unsupported_error(detail, span))
        },
    }
}

/// What a conditional makes of its branches: a value of the type that both
/// have, or else a condition.
pub open spec fn if_kind(q: Quoting, tb: Table, span: Span, t: Kind, e: Kind) -> Result<
    Kind,
    Diag,
> {
    match (value_of(t), value_of(e)) {
        (Some(x), Some(y)) => {
            let tt = resolve(tb, x);
            let et = resolve(tb, y);
            if same_value(tt, et) {
                Ok(Kind::Scalar(tt))
            } else {
                Err(
                    unsupported(
                        "the branches of an `if`/`then`/`else` in a quote must have the same type, but found "@
                            + type_text(tt, q.tycons) + " and "@ + type_text(et, q.tycons),
                        span,
                    ),
                )
            }
        },
        _ => if boolean(q.b, t) && boolean(q.b, e) {
            Ok(Kind::Pred)
        } else {
            Err(
                unsupported(
                    "the branches of an `if`/`then`/`else` in a quote must both be values of the same type, or both be boolean"@,
                    span,
                ),
            )
        },
    }
}

fn combine_if(
    ctx: &InferCtx,
    b: &BuiltinTyCons,
    span: Span,
    t: &QKind,
    e: &QKind,
    Ghost(q): Ghost<Quoting>,
) -> (out: Result<QKind, TypeError>)
    requires
        q.b == *b,
        q.tycons == ctx.tycon_decls@,
    ensures
        tells_kind(out, if_kind(q, ctx.table(), span, t@, e@)),
{
    match (value_type(t), value_type(e)) {
        (Some(x), Some(y)) => {
            let tt = ctx.deep_resolve(x);
            let et = ctx.deep_resolve(y);
            if same_value_type(&tt, &et) {
                Ok(QKind::Scalar(tt))
            } else {
                let left = render_type_with(&tt, &ctx.tycon_decls);
                let right = render_type_with(&et, &ctx.tycon_decls);
                let mut detail = text3(
                    "the branches of an `if`/`then`/`else` in a quote must have the same type, but found ",
                    left.as_str(),
                    " and ",
                );
                detail.append(right.as_str());
                Err(unsupported_error(detail, span))
            }
        },
        _ => if as_predicate(b, t) && as_predicate(b, e) {
            Ok(QKind::Pred)
        } else {
            Err(
                unsupported_error(
                    "the branches of an `if`/`then`/`else` in a quote must both be values of the same type, or both be boolean".to_owned(),
                    span,
                ),
            )
        },
    }
}

/// The last name of what is called.
pub open spec fn last_name(callee: Expr) -> Option<Seq<char>> {
    match callee {
        Expr::Ident(id) => Some(id.text@),
        Expr::Qualified(qn) => if qn.segments@.len() > 0 {
            Some(qn.segments@.last().text@)
        } else {
            None
        },
        _ => None,
    }
}

pub(crate) fn callee_last_name<'a>(callee: &'a Expr) -> (r: Option<&'a str>)
    ensures
        r is Some <==> last_name(*callee) is Some,
        r matches Some(s) ==> last_name(*callee) == Some(s@),
{
    match callee {
        Expr::Ident(id) => Some(id.text.as_str()),
        Expr::Qualified(qn) => if qn.segments.len() > 0 {
            Some(qn.segments[qn.segments.len() - 1].text.as_str())
        } else {
            None
        },
        _ => None,
    }
}

/// `parameter.column`, whatever the column.
pub open spec fn scope_column(scope: Seq<ParamOf>, e: Expr) -> bool {
    match peeled(e) {
        Expr::FieldAccess { base, field, span } => match *base {
            Expr::Ident(id) => find_param(scope, id.text@) is Some,
            _ => false,
        },
        _ => false,
    }
}

fn is_scope_column(e: &Expr, scope: &Vec<QuoteParam>) -> (r: bool)
    ensures
        r == scope_column(params_of(scope@), *e),
{
    match peel_paren(e) {
        Expr::FieldAccess { base, field: _, span: _ } => match &**base {
            Expr::Ident(id) => param_named(scope, id.text.as_str()).is_some(),
            _ => false,
        },
        _ => false,
    }
}

/// The functions that a quote can call.
pub open spec fn is_helper(name: Option<Seq<char>>) -> bool {
    match name {
        Some(n) => n == "contains"@ || n == "startsWith"@ || n == "endsWith"@ || n == "like"@,
        None => false,
    }
}

/// The first element of an `IN` list that is no literal of the column's type.
pub open spec fn bad_element(q: Quoting, elems: Seq<Expr>, col: Ty) -> Option<Diag>
    decreases elems.len(),
{
    if elems.len() == 0 {
        None
    } else {
        let el = peeled(elems[0]);
        match el {
            Expr::Literal(lit) => if same_value(literal_ty(q.b, lit), col) {
                bad_element(q, elems.skip(1), col)
            } else {
                Some(compared(q, col, literal_ty(q.b, lit), span_of(el)))
            },
            _ => Some(
                unsupported("every element of an `IN` list must be a literal"@, span_of(el)),
            ),
        }
    }
}

fn find_bad_element(
    b: &BuiltinTyCons,
    tycons: &Vec<TyConDecl>,
    elems: &Vec<Expr>,
    col: &Type,
    Ghost(q): Ghost<Quoting>,
) -> (r: Option<TypeError>)
    requires
        q.b == *b,
        q.tycons == tycons@,
    ensures
        r is Some <==> bad_element(q, elems@, col@) is Some,
        r matches Some(e) ==> bad_element(q, elems@, col@) == Some(diag(e)),
{
    let mut i: usize = 0;
    assert(elems@.skip(0) =~= elems@);
    while i < elems.len()
        invariant
            i <= elems@.len(),
            q.b == *b,
            q.tycons == tycons@,
            bad_element(q, elems@, col@) == bad_element(q, elems@.skip(i as int), col@),
        decreases elems@.len() - i,
    {
        assert(elems@.skip(i as int)[0] == elems@[i as int]);
        assert(elems@.skip(i as int).skip(1) =~= elems@.skip(i + 1));
        let el = peel_paren(&elems[i]);
        match el {
            Expr::Literal(lit) => {
                let elt = literal_type(b, lit);
                if !same_value_type(&elt, col) {
                    return Some(comparison_error(col, &elt, tycons, el.span()));
                }
            },
            _ => {
                return Some(
                    unsupported_error(
                        "every element of an `IN` list must be a literal".to_owned(),
                        el.span(),
                    ),
                );
            },
        }
        i = i + 1;
    }
    None
}

/// What matching a column against `other` amounts to: a test for membership
/// in a list of literals, or a match of a text against a literal.
pub open spec fn match_kind(
    q: Quoting,
    tb: Table,
    name: Seq<char>,
    col: Expr,
    other: Expr,
    span: Span,
) -> Result<Kind, Diag> {
    match col {
        Expr::FieldAccess { base, field, span: at } => match column(q, *base, field, at) {
            Err(d) => Err(d),
            Ok(Kind::Col(t)) => {
                let ct = resolve(tb, t);
                if name == "contains"@ && other is List {
                    match bad_element(q, other->List_elems@, ct) {
                        Some(d) => Err(d),
                        None => Ok(Kind::Pred),
                    }
                } else if !is_con(ct, q.b.text) {
                    Err(
                        unsupported(
                            "a text match (`like`/`contains`/`startsWith`/`endsWith`) applies to a Text column"@,
                            span,
                        ),
                    )
                } else {
                    match other {
                        Expr::Literal(lit) => if is_con(literal_ty(q.b, lit), q.b.text) {
                            Ok(Kind::Pred)
                        } else {
                            Err(
                                unsupported(
                                    "the pattern of a text match must be Text"@,
                                    span_of(other),
                                ),
                            )
                        },
                        _ => Err(
                            unsupported(
                                "the pattern of a text match must be a text literal"@,
                                span_of(other),
                            ),
                        ),
                    }
                }
            },
            Ok(_) => Err(unsupported("the matched operand must be a column"@, span)),
        },
        _ => Err(unsupported("the matched operand must be a column"@, span)),
    }
}

fn check_match(
    ctx: &InferCtx,
    b: &BuiltinTyCons,
    scope: &Vec<QuoteParam>,
    name: &str,
    col: &Expr,
    other: &Expr,
    span: Span,
    Ghost(q): Ghost<Quoting>,
) -> (out: Result<QKind, TypeError>)
    requires
        q.b == *b,
        q.tycons == ctx.tycon_decls@,
        q.scope == params_of(scope@),
    ensures
        tells_kind(out, match_kind(q, ctx.table(), name@, *col, *other, span)),
{
    let kind = match col {
        Expr::FieldAccess { base, field, span: at } => check_column(
            b,
            scope,
            base,
            field,
            *at,
            Ghost(q),
        ),
        _ => {
            return Err(
                unsupported_error("the matched operand must be a column".to_owned(), span),
            );
        },
    };
    match kind {
        Err(e) => Err(e),
        Ok(QKind::Col(t)) => {
            let ct = ctx.deep_resolve(&t);
            if same_text(name, "contains") {
                if let Expr::List { elems, span: _ } = other {
                    return match find_bad_element(b, &ctx.tycon_decls, elems, &ct, Ghost(q)) {
                        Some(e) => Err(e),
                        None => Ok(QKind::Pred),
                    };
                }
            }
            if !has_con(&ct, b.text) {
                return Err(
                    unsupported_error(
                        "a text match (`like`/`contains`/`startsWith`/`endsWith`) applies to a Text column".to_owned(),
                        span,
                    ),
                );
            }
            match other {
                Expr::Literal(lit) => if has_con(&literal_type(b, lit), b.text) {
                    Ok(QKind::Pred)
                } else {
                    Err(
                        unsupported_error(
                            "the pattern of a text match must be Text".to_owned(),
                            other.span(),
                        ),
                    )
                },
                _ => Err(
                    unsupported_error(
                        "the pattern of a text match must be a text literal".to_owned(),
                        other.span(),
                    ),
                ),
            }
        },
        Ok(_) => Err(unsupported_error("the matched operand must be a column".to_owned(), span)),
    }
}

/// What a call amounts to, with its two arguments where it has two: a match of
/// the one that is a column against the other.
pub open spec fn call_kind(
    q: Quoting,
    tb: Table,
    callee: Expr,
    two: Option<(Expr, Expr)>,
    span: Span,
) -> Result<Kind, Diag> {
    let name = last_name(callee);
    if !is_helper(name) {
        Err(
            unsupported(
                "this call is not supported in a quoted predicate; use a comparison, `Text.like`/`contains`/`startsWith`/`endsWith`, or `List.contains` for `IN`"@,
                span,
            ),
        )
    } else {
        match two {
            None => Err(
                unsupported(
                    "`"@ + name->0 + "` takes a column and a literal in a quoted predicate"@,
                    span,
                ),
            ),
            Some((x, y)) => if scope_column(q.scope, x) {
                match_kind(q, tb, name->0, peeled(x), peeled(y), span)
            } else if scope_column(q.scope, y) {
                match_kind(q, tb, name->0, peeled(y), peeled(x), span)
            } else {
                Err(
                    unsupported(
                        "a text or `IN` predicate must name a column of "@ + names_text(q.scope),
                        span,
                    ),
                )
            },
        }
    }
}

/// Checks a call in a quote.
fn check_predicate_call(
    ctx: &InferCtx,
    b: &BuiltinTyCons,
    scope: &Vec<QuoteParam>,
    callee: &Expr,
    two: Option<(&Expr, &Expr)>,
    span: Span,
    Ghost(q): Ghost<Quoting>,
) -> (out: Result<QKind, TypeError>)
    requires
        q.b == *b,
        q.tycons == ctx.tycon_decls@,
        q.scope == params_of(scope@),
    ensures
        tells_kind(
            out,
            call_kind(
                q,
                ctx.table(),
                *callee,
                match two {
                    Some(p) => Some((*p.0, *p.1)),
                    None => None,
                },
                span,
            ),
        ),
{
    let name = match callee_last_name(callee) {
        Some(n) => n,
        None => {
            return Err(
                unsupported_error(
                    "this call is not supported in a quoted predicate; use a comparison, `Text.like`/`contains`/`startsWith`/`endsWith`, or `List.contains` for `IN`".to_owned(),
                    span,
                ),
            );
        },
    };
    if !(same_text(name, "contains") || same_text(name, "startsWith") || same_text(
        name,
        "endsWith",
    ) || same_text(name, "like")) {
        return Err(
            unsupported_error(
                "this call is not supported in a quoted predicate; use a comparison, `Text.like`/`contains`/`startsWith`/`endsWith`, or `List.contains` for `IN`".to_owned(),
                span,
            ),
        );
    }
    match two {
        None => Err(
            unsupported_error(
                text3("`", name, "` takes a column and a literal in a quoted predicate"),
                span,
            ),
        ),
        Some((x, y)) => if is_scope_column(x, scope) {
            check_match(ctx, b, scope, name, peel_paren(x), peel_paren(y), span, Ghost(q))
        } else if is_scope_column(y, scope) {
            check_match(ctx, b, scope, name, peel_paren(y), peel_paren(x), span, Ghost(q))
        } else {
            let names = scope_names(scope);
            Err(
                unsupported_error(
                    text2("a text or `IN` predicate must name a column of ", names.as_str()),
                    span,
                ),
            )
        },
    }
}

/// How many variables checking an expression may need: those of the schemes of
/// the names that it takes from the scope around it.
pub open spec fn weight(env: Seq<Seq<(Seq<char>, Poly)>>, e: Expr) -> nat
    decreases e,
{
    match e {
        Expr::Paren { inner, span } => weight(env, *inner),
        Expr::Binary { op, lhs, rhs, span } => weight(env, *lhs) + weight(env, *rhs),
        Expr::If { cond, then_branch, else_branch, span } => weight(env, *cond) + weight(
            env,
            *then_branch,
        ) + match else_branch {
            Some(x) => weight(env, *x),
            None => 0,
        },
        Expr::Ident(id) => match in_scope(env, id.text@) {
            Some(p) => p.vars.len() + p.cap_vars.len(),
            None => 0,
        },
        _ => 0,
    }
}

/// A table with room for `n` more variables of either sort.
pub open spec fn fits(tb: Table, n: nat) -> bool {
    tb.types.len() + n <= u32::MAX && tb.caps.len() + n <= u32::MAX
}

/// What a name amounts to that is no column: a value of the scope around the
/// quote, where it is of a type that can be sent along.
pub open spec fn captured(q: Quoting, st: QState, id: Ident) -> (QState, Result<Kind, Diag>) {
    if find_param(q.scope, id.text@) is Some {
        (
            st,
            Err(
                unsupported(
                    "the row `"@ + id.text@
                        + "` can only be used through a column access like `"@ + id.text@
                        + ".field`"@,
                    id.span,
                ),
            ),
        )
    } else {
        match in_scope(q.env, id.text@) {
            Some(p) => {
                let nt = st.table.types.len();
                let tb = after_instantiate(st.table, p);
                let ty = resolve(tb, instantiated(p, nt, st.table.caps.len()));
                let after = QState { table: tb, deferred: st.deferred + deferred(p, nt), ..st };
                if quotable(q.b, ty) {
                    (
                        QState { nodes: noted(st.nodes, q.ids, id.span, ty), ..after },
                        Ok(Kind::Scalar(ty)),
                    )
                } else if ty is Var {
                    (
                        after,
                        Err(
                            unsupported(
                                "the type of the captured variable `"@ + id.text@
                                    + "` is ambiguous here; annotate it so it can be sent as a query parameter"@,
                                id.span,
                            ),
                        ),
                    )
                } else {
                    (
                        after,
                        Err(
                            unsupported(
                                "`"@ + id.text@ + "` has type `"@ + type_text(ty, q.tycons)
                                    + "`; a quote can capture only Int, Text, Bool, or Float values from the enclosing scope"@,
                                id.span,
                            ),
                        ),
                    )
                }
            },
            None => (
                st,
                Err(
                    unsupported(
                        "`"@ + id.text@ + "` is not a column of the quote parameters ("@
                            + names_text(q.scope) + ") or a value in scope"@,
                        id.span,
                    ),
                ),
            ),
        }
    }
}

fn check_captured(
    ctx: &mut InferCtx,
    b: &BuiltinTyCons,
    scope: &Vec<QuoteParam>,
    id: &Ident,
) -> (r: Result<QKind, TypeError>)
    requires
        old(ctx).wf(),
        fits(old(ctx).table(), weight(old(ctx).env@, Expr::Ident(*id))),
    ensures
        final(ctx).wf(),
        qstate(*final(ctx)) == captured(
            quoting(*b, scope@, *old(ctx)),
            qstate(*old(ctx)),
            *id,
        ).0,
        tells_kind(r, captured(quoting(*b, scope@, *old(ctx)), qstate(*old(ctx)), *id).1),
        same_but_quotes(*old(ctx), *final(ctx)),
{
    let ghost q = quoting(*b, scope@, *ctx);
    let ghost st = qstate(*ctx);
    let name = id.text.as_str();
    if param_named(scope, name).is_some() {
        return Err(
            unsupported_error(
                text5(
                    "the row `",
                    name,
                    "` can only be used through a column access like `",
                    name,
                    ".field`",
                ),
                id.span,
            ),
        );
    }
    let scheme = match ctx.env.lookup(name) {
        Some(s) => s.clone(),
        None => {
            let names = scope_names(scope);
            return Err(
                unsupported_error(
                    text5(
                        "`",
                        name,
                        "` is not a column of the quote parameters (",
                        names.as_str(),
                        ") or a value in scope",
                    ),
                    id.span,
                ),
            );
        },
    };
    let inst = instantiate(ctx, &scheme);
    let ty = ctx.deep_resolve(&inst);
    if is_quote_scalar(b, &ty) {
        ctx.write_node_type(id.span, &ty);
        assert(qstate(*ctx) =~= captured(q, st, *id).0);
        return Ok(QKind::Scalar(ty));
    }
    assert(qstate(*ctx) =~= captured(q, st, *id).0);
    let detail = match &ty {
        Type::Var(_) => text3(
            "the type of the captured variable `",
            name,
            "` is ambiguous here; annotate it so it can be sent as a query parameter",
        ),
        _ => {
            let rendered = render_type_with(&ty, &ctx.tycon_decls);
            text5(
                "`",
                name,
                "` has type `",
                rendered.as_str(),
                "`; a quote can capture only Int, Text, Bool, or Float values from the enclosing scope",
            )
        },
    };
    Err(unsupported_error(detail, id.span))
}

/// What an expression in a quote amounts to, and what checking it changes.
pub open spec fn node(q: Quoting, st: QState, e: Expr) -> (QState, Result<Kind, Diag>)
    decreases e,
{
    match e {
        Expr::Paren { inner, span } => node(q, st, *inner),
        Expr::Literal(lit) => (st, Ok(Kind::Scalar(literal_ty(q.b, lit)))),
        Expr::FieldAccess { base, field, span } => (st, column(q, *base, field, span)),
        Expr::Binary { op, lhs, rhs, span } => if is_comparison(op) || is_logic(op)
            || is_arithmetic(op) {
            let (s1, l) = node(q, st, *lhs);
            match l {
                Err(d) => (s1, Err(d)),
                Ok(lk) => {
                    let (s2, r) = node(q, s1, *rhs);
                    match r {
                        Err(d) => (s2, Err(d)),
                        Ok(rk) => (s2, binary_kind(q, s2.table, op, *rhs, span, lk, rk)),
                    }
                },
            }
        } else {
            (
                st,
                Err(unsupported("this operator is not supported in a quoted predicate"@, span)),
            )
        },
        Expr::If { cond, then_branch, else_branch, span } => {
            let (s1, c) = node(q, st, *cond);
            match c {
                Err(d) => (s1, Err(d)),
                Ok(ck) => if !boolean(q.b, ck) {
                    (
                        s1,
                        Err(
                            unsupported(
                                "the condition of an `if`/`then`/`else` in a quote must be boolean"@,
                                span_of(*cond),
                            ),
                        ),
                    )
                } else {
                    match else_branch {
                        None => (
                            s1,
                            Err(
                                unsupported(
                                    "an `if`/`then`/`else` in a quote must have an `else` branch"@,
                                    span,
                                ),
                            ),
                        ),
                        Some(other) => {
                            let (s2, t) = node(q, s1, *then_branch);
                            match t {
                                Err(d) => (s2, Err(d)),
                                Ok(tk) => {
                                    let (s3, x) = node(q, s2, *other);
                                    match x {
                                        Err(d) => (s3, Err(d)),
                                        Ok(xk) => (s3, if_kind(q, s3.table, span, tk, xk)),
                                    }
                                },
                            }
                        },
                    }
                },
            }
        },
        Expr::Call { callee, args, span } => (
            st,
            call_kind(
                q,
                st.table,
                *callee,
                if args@.len() == 2 {
                    Some((args@[0], args@[1]))
                } else {
                    None
                },
                span,
            ),
        ),
        Expr::Pipe { lhs, rhs, span } => (st, pipe_kind(q, st.table, *lhs, peeled(*rhs), span)),
        Expr::Ident(id) => captured(q, st, id),
        _ => (
            st,
            Err(
                unsupported(
                    "this expression form is not supported in a quoted predicate"@,
                    span_of(e),
                ),
            ),
        ),
    }
}

/// What `lhs |> rhs` amounts to: the call with `lhs` for its last argument.
pub open spec fn pipe_kind(q: Quoting, tb: Table, lhs: Expr, rhs: Expr, span: Span) -> Result<
    Kind,
    Diag,
> {
    match rhs {
        Expr::Call { callee, args, span: _ } => call_kind(
            q,
            tb,
            *callee,
            if args@.len() == 1 {
                Some((args@[0], lhs))
            } else {
                None
            },
            span,
        ),
        Expr::Ident(_) => call_kind(q, tb, rhs, None, span),
        Expr::Qualified(_) => call_kind(q, tb, rhs, None, span),
        _ => Err(unsupported("this pipe is not supported in a quoted predicate"@, span)),
    }
}

fn check_pipe(
    ctx: &InferCtx,
    b: &BuiltinTyCons,
    scope: &Vec<QuoteParam>,
    lhs: &Expr,
    rhs: &Expr,
    span: Span,
    Ghost(q): Ghost<Quoting>,
) -> (out: Result<QKind, TypeError>)
    requires
        q.b == *b,
        q.tycons == ctx.tycon_decls@,
        q.scope == params_of(scope@),
    ensures
        tells_kind(out, pipe_kind(q, ctx.table(), *lhs, peeled(*rhs), span)),
{
    let call = peel_paren(rhs);
    match call {
        Expr::Call { callee, args, span: _ } => {
            let two = if args.len() == 1 {
                Some((&args[0], lhs))
            } else {
                None
            };
            check_predicate_call(ctx, b, scope, callee, two, span, Ghost(q))
        },
        Expr::Ident(_) => check_predicate_call(ctx, b, scope, call, None, span, Ghost(q)),
        Expr::Qualified(_) => check_predicate_call(ctx, b, scope, call, None, span, Ghost(q)),
        _ => Err(
            unsupported_error(
                "this pipe is not supported in a quoted predicate".to_owned(),
                span,
            ),
        ),
    }
}

/// Checks an expression in a quote. It takes no more variables than its
/// weight.
pub(crate) fn check_node(
    ctx: &mut InferCtx,
    b: &BuiltinTyCons,
    e: &Expr,
    scope: &Vec<QuoteParam>,
) -> (r: Result<QKind, TypeError>)
    requires
        old(ctx).wf(),
        fits(old(ctx).table(), weight(old(ctx).env@, *e)),
    ensures
        final(ctx).wf(),
        qstate(*final(ctx)) == node(quoting(*b, scope@, *old(ctx)), qstate(*old(ctx)), *e).0,
        tells_kind(r, node(quoting(*b, scope@, *old(ctx)), qstate(*old(ctx)), *e).1),
        same_but_quotes(*old(ctx), *final(ctx)),
        final(ctx).table().types.len() <= old(ctx).table().types.len() + weight(
            old(ctx).env@,
            *e,
        ),
        final(ctx).table().caps.len() <= old(ctx).table().caps.len() + weight(
            old(ctx).env@,
            *e,
        ),
    decreases e,
{
    let ghost q = quoting(*b, scope@, *ctx);
    match e {
        Expr::Paren { inner, span: _ } => check_node(ctx, b, inner, scope),
        Expr::Literal(lit) => Ok(QKind::Scalar(literal_type(b, lit))),
        Expr::FieldAccess { base, field, span } => check_column(
            b,
            scope,
            base,
            field,
            *span,
            Ghost(q),
        ),
        Expr::Binary { op, lhs, rhs, span } => {
            if let OpClass::Other = op_class(*op) {
                return Err(
                    unsupported_error(
                        "this operator is not supported in a quoted predicate".to_owned(),
                        *span,
                    ),
                );
            }
            let l = check_node(ctx, b, lhs, scope)?;
            let r = check_node(ctx, b, rhs, scope)?;
            combine_binary(ctx, b, *op, rhs, *span, &l, &r, Ghost(q))
        },
        Expr::If { cond, then_branch, else_branch, span } => {
            let c = check_node(ctx, b, cond, scope)?;
            if !as_predicate(b, &c) {
                return Err(
                    unsupported_error(
                        "the condition of an `if`/`then`/`else` in a quote must be boolean".to_owned(),
                        cond.span(),
                    ),
                );
            }
            match else_branch {
                None => Err(
                    unsupported_error(
                        "an `if`/`then`/`else` in a quote must have an `else` branch".to_owned(),
                        *span,
                    ),
                ),
                Some(other) => {
                    let t = check_node(ctx, b, then_branch, scope)?;
                    let x = check_node(ctx, b, other, scope)?;
                    combine_if(ctx, b, *span, &t, &x, Ghost(q))
                },
            }
        },
        Expr::Call { callee, args, span } => {
            let two = if args.len() == 2 {
                Some((&args[0], &args[1]))
            } else {
                None
            };
            check_predicate_call(ctx, b, scope, callee, two, *span, Ghost(q))
        },
        Expr::Pipe { lhs, rhs, span } => check_pipe(ctx, b, scope, lhs, rhs, *span, Ghost(q)),
        Expr::Ident(id) => check_captured(ctx, b, scope, id),
        _ => Err(
            unsupported_error(
                "this expression form is not supported in a quoted predicate".to_owned(),
                e.span(),
            ),
        ),
    }
}

/// The columns of an entity: the fields of its record declaration.
pub open spec fn columns_of(tycons: Seq<TyConDecl>, id: TyConId) -> Option<Seq<(Seq<char>, Ty)>> {
    if id.0 < tycons.len() {
        match tycons[id.0 as int].kind {
            TyConKind::Record(schema) => Some(declared_fields(schema.fields@)),
            _ => None,
        }
    } else {
        None
    }
}

/// The columns of an entity.
pub(crate) fn entity_fields(tycons: &Vec<TyConDecl>, id: TyConId) -> (r: Option<
    Vec<(String, Type)>,
>)
    ensures
        r is Some <==> columns_of(tycons@, id) is Some,
        r matches Some(fs) ==> columns_of(tycons@, id) == Some(field_views(fs@)),
{
    let at: usize = id.0 as usize;
    if at >= tycons.len() {
        return None;
    }
    match &tycons[at].kind {
        TyConKind::Record(schema) => {
            let ghost want = declared_fields(schema.fields@);
            let mut out: Vec<(String, Type)> = Vec::new();
            let mut i: usize = 0;
            while i < schema.fields.len()
                invariant
                    i <= schema.fields@.len(),
                    out@.len() == i,
                    forall|k: int|
                        0 <= k < i ==> ((#[trigger] out@[k]).0@, out@[k].1@) == (
                            schema.fields@[k].name@,
                            schema.fields@[k].ty@,
                        ),
                decreases schema.fields@.len() - i,
            {
                out.push((schema.fields[i].name.clone(), schema.fields[i].ty.clone()));
                i = i + 1;
            }
            assert(field_views(out@) =~= want) by {
                assert forall|k: int| 0 <= k < out@.len() implies field_views(out@)[k]
                    == want[k] by {
                    assert(field_views(out@)[k] == (out@[k].0@, out@[k].1@));
                }
            }
            Some(out)
        },
        _ => None,
    }
}

/// The fields of a record type, written out or declared.
pub open spec fn fields_of(tycons: Seq<TyConDecl>, t: Ty) -> Option<Seq<(Seq<char>, Ty)>> {
    match t {
        Ty::Record { fields, tail } => Some(fields),
        Ty::Con(id, _) => columns_of(tycons, id),
        _ => None,
    }
}

/// The fields of a record type.
pub(crate) fn record_fields_of(tycons: &Vec<TyConDecl>, t: &Type) -> (r: Option<
    Vec<(String, Type)>,
>)
    ensures
        r is Some <==> fields_of(tycons@, t@) is Some,
        r matches Some(fs) ==> fields_of(tycons@, t@) == Some(field_views(fs@)),
{
    match t {
        Type::Record { fields, tail } => {
            assert(t@ == Ty::Record { fields: field_views(fields@), tail: *tail });
            Some(clone_fields(fields))
        },
        Type::Con(id, args) => {
            assert(t@ == Ty::Con(*id, views(args@)));
            entity_fields(tycons, *id)
        },
        _ => None,
    }
}

/// The name of a constructor, or `?`.
pub open spec fn con_name(tycons: Seq<TyConDecl>, id: TyConId) -> Seq<char> {
    if id.0 < tycons.len() {
        tycons[id.0 as int].name@
    } else {
        "?"@
    }
}

pub(crate) fn name_of_con(tycons: &Vec<TyConDecl>, id: TyConId) -> (r: String)
    ensures
        r@ == con_name(tycons@, id),
{
    let at: usize = id.0 as usize;
    if at < tycons.len() {
        tycons[at].name.clone()
    } else {
        "?".to_owned()
    }
}

/// What is wrong with a selected value for a field of the result record.
pub open spec fn field_fault(
    q: Quoting,
    tb: Table,
    name: Seq<char>,
    span: Span,
    k: Kind,
    expected: Seq<(Seq<char>, Ty)>,
) -> Option<Diag> {
    match value_of(k) {
        None => Some(
            unsupported(
                "projection field `"@ + name
                    + "` must be a column or a computed value over one of "@ + names_text(q.scope),
                span,
            ),
        ),
        Some(t) => match find_field(expected, name) {
            None => Some(
                unsupported(
                    "projection field `"@ + name + "` is not declared in the result record"@,
                    span,
                ),
            ),
            Some(x) => {
                let ct = resolve(tb, t);
                let xt = resolve(tb, x);
                if same_value(ct, xt) {
                    None
                } else {
                    Some(
                        unsupported(
                            "projection field `"@ + name + "` is of type "@ + type_text(
                                ct,
                                q.tycons,
                            ) + ", but the result record declares "@ + type_text(xt, q.tycons),
                            span,
                        ),
                    )
                }
            },
        },
    }
}

fn check_field(
    ctx: &InferCtx,
    scope: &Vec<QuoteParam>,
    name: &str,
    span: Span,
    k: &QKind,
    expected: &Vec<(String, Type)>,
    Ghost(q): Ghost<Quoting>,
) -> (r: Option<TypeError>)
    requires
        q.tycons == ctx.tycon_decls@,
        q.scope == params_of(scope@),
    ensures
        r is Some <==> field_fault(q, ctx.table(), name@, span, k@, field_views(expected@)) is Some,
        r matches Some(e) ==> field_fault(
            q,
            ctx.table(),
            name@,
            span,
            k@,
            field_views(expected@),
        ) == Some(diag(e)),
{
    match value_type(k) {
        None => {
            let names = scope_names(scope);
            let mut detail = text3(
                "projection field `",
                name,
                "` must be a column or a computed value over one of ",
            );
            detail.append(names.as_str());
            Some(unsupported_error(detail, span))
        },
        Some(t) => match field_named(expected, name) {
            None => Some(
                unsupported_error(
                    text3(
                        "projection field `",
                        name,
                        "` is not declared in the result record",
                    ),
                    span,
                ),
            ),
            Some(x) => {
                let ct = ctx.deep_resolve(t);
                let xt = ctx.deep_resolve(x);
                if same_value_type(&ct, &xt) {
                    None
                } else {
                    let left = render_type_with(&ct, &ctx.tycon_decls);
                    let right = render_type_with(&xt, &ctx.tycon_decls);
                    let mut detail = text5(
                        "projection field `",
                        name,
                        "` is of type ",
                        left.as_str(),
                        ", but the result record declares ",
                    );
                    detail.append(right.as_str());
                    Some(unsupported_error(detail, span))
                }
            },
        },
    }
}

/// What checking one field of a projection changes and reports.
#[verifier::opaque]
pub open spec fn project_field(
    q: Quoting,
    st: QState,
    f: FieldInit,
    expected: Seq<(Seq<char>, Ty)>,
) -> (QState, Option<Diag>) {
    let name = f.name.text@;
    match f.value {
        None => (
            st,
            Some(
                unsupported(
                    "projection field `"@ + name + "` must be written `"@ + name
                        + " = row.column`"@,
                    f.span,
                ),
            ),
        ),
        Some(v) => {
            let (s1, k) = node(q, st, v);
            match k {
                Err(d) => (s1, Some(d)),
                Ok(kind) => (s1, field_fault(q, s1.table, name, f.span, kind, expected)),
            }
        },
    }
}

/// What checking the fields of a projection changes, up to the first report.
pub open spec fn projected(
    q: Quoting,
    st: QState,
    fs: Seq<FieldInit>,
    expected: Seq<(Seq<char>, Ty)>,
) -> (QState, Option<Diag>)
    decreases fs.len(),
{
    if fs.len() == 0 {
        (st, None)
    } else {
        let (s1, d) = projected(q, st, fs.drop_last(), expected);
        if d is Some {
            (s1, d)
        } else {
            project_field(q, s1, fs.last(), expected)
        }
    }
}

proof fn projected_prefix(
    q: Quoting,
    st: QState,
    fs: Seq<FieldInit>,
    expected: Seq<(Seq<char>, Ty)>,
    k: nat,
)
    requires
        k <= fs.len(),
        projected(q, st, fs.take(k as int), expected).1 is Some,
    ensures
        projected(q, st, fs, expected) == projected(q, st, fs.take(k as int), expected),
    decreases fs.len() - k,
{
    if k == fs.len() {
        assert(fs.take(k as int) =~= fs);
    } else {
        assert(fs.take((k + 1) as int).drop_last() =~= fs.take(k as int));
        projected_prefix(q, st, fs, expected, k + 1);
    }
}

/// A field with a label is given.
pub open spec fn selects(fs: Seq<FieldInit>, label: Seq<char>) -> bool {
    exists|i: int| 0 <= i < fs.len() && (#[trigger] fs[i]).name.text@ == label
}

pub(crate) fn has_selected(fs: &Vec<FieldInit>, label: &str) -> (r: bool)
    ensures
        r == selects(fs@, label@),
{
    let mut i: usize = 0;
    while i < fs.len()
        invariant
            i <= fs@.len(),
            forall|k: int| 0 <= k < i ==> (#[trigger] fs@[k]).name.text@ != label@,
        decreases fs@.len() - i,
    {
        if same_text(fs[i].name.text.as_str(), label) {
            return true;
        }
        i = i + 1;
    }
    false
}

/// The first label that is declared and not given.
pub open spec fn unselected(expected: Seq<(Seq<char>, Ty)>, fs: Seq<FieldInit>) -> Option<
    Seq<char>,
>
    decreases expected.len(),
{
    if expected.len() == 0 {
        None
    } else if !selects(fs, expected[0].0) {
        Some(expected[0].0)
    } else {
        unselected(expected.skip(1), fs)
    }
}

pub(crate) fn find_unselected<'a>(expected: &'a Vec<(String, Type)>, fs: &Vec<FieldInit>) -> (r:
    Option<&'a str>)
    ensures
        r is Some <==> unselected(field_views(expected@), fs@) is Some,
        r matches Some(n) ==> unselected(field_views(expected@), fs@) == Some(n@),
{
    let ghost all = field_views(expected@);
    let mut i: usize = 0;
    assert(all.skip(0) =~= all);
    while i < expected.len()
        invariant
            i <= expected@.len(),
            all == field_views(expected@),
            unselected(all, fs@) == unselected(all.skip(i as int), fs@),
        decreases expected@.len() - i,
    {
        assert(all.skip(i as int)[0] == all[i as int]);
        assert(all.skip(i as int).skip(1) =~= all.skip(i + 1));
        if !has_selected(fs, expected[i].0.as_str()) {
            return Some(expected[i].0.as_str());
        }
        i = i + 1;
    }
    None
}

/// The fields of a record expression.
pub open spec fn inits_of(e: Expr) -> Option<Seq<FieldInit>> {
    match e {
        Expr::RecordLit { fields, span } => Some(fields@),
        Expr::Record { constructor, fields, span } => Some(fields@),
        _ => None,
    }
}

pub(crate) fn record_inits<'a>(e: &'a Expr) -> (r: Option<&'a Vec<FieldInit>>)
    ensures
        r is Some <==> inits_of(*e) is Some,
        r matches Some(fs) ==> inits_of(*e) == Some(fs@),
{
    match e {
        Expr::RecordLit { fields, span: _ } => Some(fields),
        Expr::Record { constructor: _, fields, span: _ } => Some(fields),
        _ => None,
    }
}

/// The record of a quote over rows.
pub open spec fn row_info(scope: Seq<ParamOf>) -> Info {
    Info { param_name: scope[0].name, entity: scope[0].entity, group: false }
}

/// The state with a lambda noted as a quote.
pub open spec fn with_quote(st: QState, span: Span, info: Info) -> QState {
    QState { quoted: st.quoted.insert((span.start, span.end), info), ..st }
}

pub(crate) fn note_quote(ctx: &mut InferCtx, span: Span, info: QuoteInfo)
    ensures
        qstate(*final(ctx)) == with_quote(qstate(*old(ctx)), span, info@),
        same_but_quotes(*old(ctx), *final(ctx)),
        *final(ctx) == (InferCtx { quoted_lambdas: final(ctx).quoted_lambdas, ..*old(ctx) }),
{
    let ghost was = ctx.quoted_lambdas@;
    put_pair(&mut ctx.quoted_lambdas, (span.start, span.end), info);
    assert(infos(ctx.quoted_lambdas@) =~= infos(was).insert((span.start, span.end), info@));
    assert(qstate(*ctx) =~= with_quote(qstate(*old(ctx)), span, info@));
}

pub(crate) fn quote_info(scope: &Vec<QuoteParam>) -> (r: QuoteInfo)
    requires
        scope@.len() >= 1,
    ensures
        r@ == row_info(params_of(scope@)),
{
    assert(params_of(scope@)[0] == scope@[0]@);
    QuoteInfo { param_name: scope[0].name.clone(), entity: scope[0].entity, group: false }
}

/// What a projection changes and reports: every selected field must be declared
/// in the result record with the type that it has, and every declared field
/// must be selected.
pub open spec fn projection(
    q: Quoting,
    st: QState,
    body: Expr,
    expected: Seq<(Seq<char>, Ty)>,
    span: Span,
) -> (QState, Option<Diag>) {
    let e = peeled(body);
    match inits_of(e) {
        None => (
            st,
            Some(
                unsupported(
                    "a quoted projection must be a record of columns, like `{ id = row.id }`"@,
                    span_of(e),
                ),
            ),
        ),
        Some(fs) => if fs.len() == 0 {
            (
                st,
                Some(
                    unsupported(
                        "a quoted projection must select at least one column"@,
                        span_of(e),
                    ),
                ),
            )
        } else {
            let (s1, d) = projected(q, st, fs, expected);
            if d is Some {
                (s1, d)
            } else {
                match unselected(expected, fs) {
                    Some(n) => (
                        s1,
                        Some(
                            unsupported(
                                "a quoted projection is missing the declared column `"@ + n
                                    + "`"@,
                                span,
                            ),
                        ),
                    ),
                    None => (with_quote(s1, span, row_info(q.scope)), None),
                }
            }
        },
    }
}

/// How many variables checking the fields of a record expression may need.
pub open spec fn inits_weight(env: Seq<Seq<(Seq<char>, Poly)>>, fs: Seq<FieldInit>) -> nat
    decreases fs.len(),
{
    if fs.len() == 0 {
        0
    } else {
        inits_weight(env, fs.drop_last()) + init_weight(env, fs.last())
    }
}

proof fn inits_weight_prefix(env: Seq<Seq<(Seq<char>, Poly)>>, fs: Seq<FieldInit>, k: nat)
    requires
        k <= fs.len(),
    ensures
        inits_weight(env, fs.take(k as int)) <= inits_weight(env, fs),
    decreases fs.len() - k,
{
    if k == fs.len() {
        assert(fs.take(k as int) =~= fs);
    } else {
        assert(fs.take((k + 1) as int).drop_last() =~= fs.take(k as int));
        inits_weight_prefix(env, fs, k + 1);
    }
}

/// `r` tells what `d` says.
pub open spec fn tells_fault(r: Result<(), TypeError>, d: Option<Diag>) -> bool {
    match d {
        None => r is Ok,
        Some(x) => r matches Err(e) && diag(e) == x,
    }
}

/// How many variables checking a field may need.
pub open spec fn init_weight(env: Seq<Seq<(Seq<char>, Poly)>>, f: FieldInit) -> nat {
    match f.value {
        Some(v) => weight(env, v),
        None => 0,
    }
}

fn check_one_field(
    ctx: &mut InferCtx,
    b: &BuiltinTyCons,
    f: &FieldInit,
    scope: &Vec<QuoteParam>,
    expected: &Vec<(String, Type)>,
) -> (r: Result<(), TypeError>)
    requires
        old(ctx).wf(),
        fits(old(ctx).table(), init_weight(old(ctx).env@, *f)),
    ensures
        final(ctx).wf(),
        qstate(*final(ctx)) == project_field(
            quoting(*b, scope@, *old(ctx)),
            qstate(*old(ctx)),
            *f,
            field_views(expected@),
        ).0,
        tells_fault(
            r,
            project_field(
                quoting(*b, scope@, *old(ctx)),
                qstate(*old(ctx)),
                *f,
                field_views(expected@),
            ).1,
        ),
        same_but_quotes(*old(ctx), *final(ctx)),
        final(ctx).table().types.len() <= old(ctx).table().types.len() + init_weight(
            old(ctx).env@,
            *f,
        ),
        final(ctx).table().caps.len() <= old(ctx).table().caps.len() + init_weight(
            old(ctx).env@,
            *f,
        ),
{
    reveal(project_field);
    let ghost q = quoting(*b, scope@, *ctx);
    let name = f.name.text.as_str();
    match &f.value {
        None => Err(
            unsupported_error(
                text5(
                    "projection field `",
                    name,
                    "` must be written `",
                    name,
                    " = row.column`",
                ),
                f.span,
            ),
        ),
        Some(v) => {
            let k = check_node(ctx, b, v, scope)?;
            match check_field(ctx, scope, name, f.span, &k, expected, Ghost(q)) {
                Some(e) => Err(e),
                None => Ok(()),
            }
        },
    }
}

fn check_projected(
    ctx: &mut InferCtx,
    b: &BuiltinTyCons,
    fs: &Vec<FieldInit>,
    scope: &Vec<QuoteParam>,
    expected: &Vec<(String, Type)>,
) -> (r: Result<(), TypeError>)
    requires
        old(ctx).wf(),
        fits(old(ctx).table(), inits_weight(old(ctx).env@, fs@)),
    ensures
        final(ctx).wf(),
        qstate(*final(ctx)) == projected(
            quoting(*b, scope@, *old(ctx)),
            qstate(*old(ctx)),
            fs@,
            field_views(expected@),
        ).0,
        tells_fault(
            r,
            projected(
                quoting(*b, scope@, *old(ctx)),
                qstate(*old(ctx)),
                fs@,
                field_views(expected@),
            ).1,
        ),
        same_but_quotes(*old(ctx), *final(ctx)),
        final(ctx).table().types.len() <= old(ctx).table().types.len() + inits_weight(
            old(ctx).env@,
            fs@,
        ),
        final(ctx).table().caps.len() <= old(ctx).table().caps.len() + inits_weight(
            old(ctx).env@,
            fs@,
        ),
{
    let ghost q = quoting(*b, scope@, *ctx);
    let ghost st = qstate(*ctx);
    let ghost tb = ctx.table();
    let ghost xs = field_views(expected@);
    let mut i: usize = 0;
    assert(fs@.take(0) =~= Seq::empty());
    while i < fs.len()
        invariant
            i <= fs@.len(),
            ctx.wf(),
            q == quoting(*b, scope@, *ctx),
            q == quoting(*b, scope@, *old(ctx)),
            st == qstate(*old(ctx)),
            tb == old(ctx).table(),
            xs == field_views(expected@),
            fits(tb, inits_weight(ctx.env@, fs@)),
            ctx.table().types.len() <= tb.types.len() + inits_weight(
                ctx.env@,
                fs@.take(i as int),
            ),
            ctx.table().caps.len() <= tb.caps.len() + inits_weight(ctx.env@, fs@.take(i as int)),
            projected(q, st, fs@.take(i as int), xs) == (qstate(*ctx), None::<Diag>),
            same_but_quotes(*old(ctx), *ctx),
        decreases fs@.len() - i,
    {
        let f = &fs[i];
        proof {
            assert(fs@.take(i + 1).drop_last() =~= fs@.take(i as int));
            assert(fs@.take(i + 1).last() == *f);
            inits_weight_prefix(ctx.env@, fs@, (i + 1) as nat);
        }
        match check_one_field(ctx, b, f, scope, expected) {
            Ok(()) => {},
            Err(e) => {
                proof {
                    projected_prefix(q, st, fs@, xs, (i + 1) as nat);
                }
                return Err(e);
            },
        }
        i = i + 1;
    }
    assert(fs@.take(i as int) =~= fs@);
    Ok(())
}

/// Checks a projection.
pub(crate) fn check_projection(
    ctx: &mut InferCtx,
    b: &BuiltinTyCons,
    body: &Expr,
    scope: &Vec<QuoteParam>,
    expected: &Vec<(String, Type)>,
    span: Span,
) -> (r: Result<(), TypeError>)
    requires
        old(ctx).wf(),
        scope@.len() >= 1 || projection(
            quoting(*b, scope@, *old(ctx)),
            qstate(*old(ctx)),
            *body,
            field_views(expected@),
            span,
        ).1 is Some,
        inits_of(peeled(*body)) matches Some(fs) ==> fits(
            old(ctx).table(),
            inits_weight(old(ctx).env@, fs),
        ),
    ensures
        final(ctx).wf(),
        qstate(*final(ctx)) == projection(
            quoting(*b, scope@, *old(ctx)),
            qstate(*old(ctx)),
            *body,
            field_views(expected@),
            span,
        ).0,
        tells_fault(
            r,
            projection(
                quoting(*b, scope@, *old(ctx)),
                qstate(*old(ctx)),
                *body,
                field_views(expected@),
                span,
            ).1,
        ),
        same_but_quotes(*old(ctx), *final(ctx)),
        inits_of(peeled(*body)) matches Some(fs) ==> final(ctx).table().types.len() <= old(
            ctx,
        ).table().types.len() + inits_weight(old(ctx).env@, fs),
{
    let e = peel_paren(body);
    match record_inits(e) {
        None => Err(
            unsupported_error(
                "a quoted projection must be a record of columns, like `{ id = row.id }`".to_owned(),
                e.span(),
            ),
        ),
        Some(fs) => {
            if fs.len() == 0 {
                return Err(
                    unsupported_error(
                        "a quoted projection must select at least one column".to_owned(),
                        e.span(),
                    ),
                );
            }
            check_projected(ctx, b, fs, scope, expected)?;
            match find_unselected(expected, fs) {
                Some(n) => Err(
                    unsupported_error(
                        text3("a quoted projection is missing the declared column `", n, "`"),
                        span,
                    ),
                ),
                None => {
                    note_quote(ctx, span, quote_info(scope));
                    Ok(())
                },
            }
        },
    }
}

/// Checking an expression notes no lambda as a quote.
pub proof fn node_notes_nothing(q: Quoting, st: QState, e: Expr)
    ensures
        node(q, st, e).0.quoted == st.quoted,
    decreases e,
{
    match e {
        Expr::Paren { inner, span } => node_notes_nothing(q, st, *inner),
        Expr::Binary { op, lhs, rhs, span } => {
            node_notes_nothing(q, st, *lhs);
            node_notes_nothing(q, node(q, st, *lhs).0, *rhs);
        },
        Expr::If { cond, then_branch, else_branch, span } => {
            let s1 = node(q, st, *cond).0;
            node_notes_nothing(q, st, *cond);
            node_notes_nothing(q, s1, *then_branch);
            if let Some(x) = else_branch {
                node_notes_nothing(q, node(q, s1, *then_branch).0, *x);
            }
        },
        _ => {},
    }
}

proof fn projected_notes_nothing(
    q: Quoting,
    st: QState,
    fs: Seq<FieldInit>,
    expected: Seq<(Seq<char>, Ty)>,
)
    ensures
        projected(q, st, fs, expected).0.quoted == st.quoted,
    decreases fs.len(),
{
    reveal(project_field);
    if fs.len() > 0 {
        let s1 = projected(q, st, fs.drop_last(), expected).0;
        projected_notes_nothing(q, st, fs.drop_last(), expected);
        if let Some(v) = fs.last().value {
            node_notes_nothing(q, s1, v);
        }
    }
}

/// A projection notes its own lambda where it is accepted, and nothing where it
/// is not.
pub proof fn projection_notes(
    q: Quoting,
    st: QState,
    body: Expr,
    expected: Seq<(Seq<char>, Ty)>,
    span: Span,
)
    ensures
        projection(q, st, body, expected, span).0.quoted == if projection(
            q,
            st,
            body,
            expected,
            span,
        ).1 is None {
            st.quoted.insert((span.start, span.end), row_info(q.scope))
        } else {
            st.quoted
        },
{
    if let Some(fs) = inits_of(peeled(body)) {
        projected_notes_nothing(q, st, fs, expected);
    }
}

} // verus!
