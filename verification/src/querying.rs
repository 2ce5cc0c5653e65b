use vstd::prelude::*;

use crate::ast::{BinOp, Expr, FieldInit, Ident, LambdaParam, Literal, Pattern};
use crate::diag::Diag;
use crate::qexpr::{
    bad_element, boolean, column, columns_of, field_fault, find_field, find_param, inits_of,
    literal_ty, literal_zero, node, peeled, project_field, projected, projection, same_value,
    selects, unselected, Kind, ParamOf, QState, Quoting,
};
use crate::quote::{body_quote, quote_verdict, reported, scope_of};
use crate::table::{resolve, Table};
use crate::types::{BuiltinTyCons, Span, Ty, TyConDecl, TyConId};

verus! {

/// A type made of constructors alone.
pub open spec fn concrete(t: Ty) -> bool
    decreases t,
{
    match t {
        Ty::Con(_, args) => all_concrete(args),
        _ => false,
    }
}

pub open spec fn all_concrete(ts: Seq<Ty>) -> bool
    decreases ts,
{
    forall|i: int| 0 <= i < ts.len() ==> concrete(#[trigger] ts[i])
}

/// Two types count as the same value type where they are equal and made of
/// constructors alone.
pub proof fn value_types_are_compared(a: Ty, b: Ty)
    ensures
        same_value(a, b) <==> a == b && concrete(a),
    decreases a,
{
    match (a, b) {
        (Ty::Con(i, xs), Ty::Con(j, ys)) => {
            assert forall|k: int| 0 <= k < xs.len() && k < ys.len() implies (same_value(
                #[trigger] xs[k],
                ys[k],
            ) <==> xs[k] == ys[k] && concrete(xs[k])) by {
                value_types_are_compared(xs[k], ys[k]);
            }
            if same_value(a, b) {
                assert forall|k: int| 0 <= k < xs.len() implies xs[k] == ys[k] by {
                    assert(same_value(xs[k], ys[k]));
                }
                assert(xs =~= ys);
                assert forall|k: int| 0 <= k < xs.len() implies concrete(#[trigger] xs[k]) by {
                    assert(same_value(xs[k], ys[k]));
                }
            }
            if a == b && concrete(a) {
                assert forall|k: int| 0 <= k < xs.len() implies same_value(
                    #[trigger] xs[k],
                    ys[k],
                ) by {
                    assert(concrete(xs[k]));
                }
            }
        },
        _ => {},
    }
}

/// The type of the value of a quoted expression.
pub open spec fn is_value(k: Kind, t: Ty) -> bool {
    k == Kind::Col(t) || k == Kind::Scalar(t)
}

/// A quoted expression is a condition: one as such, or a value of the boolean
/// type.
pub open spec fn is_condition(b: BuiltinTyCons, k: Kind) -> bool {
    k is Pred || exists|args: Seq<Ty>| #[trigger] is_value(k, Ty::Con(b.bool, args))
}

proof fn conditions(b: BuiltinTyCons, k: Kind)
    ensures
        boolean(b, k) <==> is_condition(b, k),
{
    match k {
        Kind::Col(t) => {
            if boolean(b, k) {
                assert(is_value(k, Ty::Con(b.bool, t->Con_1)));
            }
        },
        Kind::Scalar(t) => {
            if boolean(b, k) {
                assert(is_value(k, Ty::Con(b.bool, t->Con_1)));
            }
        },
        Kind::Pred => {},
    }
}

/// The two operands of an operator were found to be `l` and `r`, with `s` known
/// after that.
pub open spec fn operands(
    q: Quoting,
    st: QState,
    lhs: Expr,
    rhs: Expr,
    s: QState,
    l: Kind,
    r: Kind,
) -> bool {
    node(q, st, lhs).1 == Ok::<Kind, Diag>(l) && node(q, node(q, st, lhs).0, rhs) == (
        s,
        Ok::<Kind, Diag>(r),
    )
}

/// Arithmetic takes two values of one numeric type, with `%` on integers alone
/// and with no literal zero for a divisor. It is a value of that type, and no
/// condition.
pub proof fn arithmetic_is_a_value(
    q: Quoting,
    st: QState,
    op: BinOp,
    lhs: Box<Expr>,
    rhs: Box<Expr>,
    span: Span,
    s: QState,
    l: Kind,
    r: Kind,
    x: Ty,
    y: Ty,
)
    requires
        op is Add || op is Sub || op is Mul || op is Div || op is Mod,
        operands(q, st, *lhs, *rhs, s, l, r),
        is_value(l, x),
        is_value(r, y),
    ensures
        ({
            let t = resolve(s.table, x);
            let whole = t is Con && t->Con_0 == q.b.int;
            let fits = t == resolve(s.table, y) && concrete(t) && (whole || t->Con_0 == q.b.float)
                && (op is Mod ==> whole) && !((op is Div || op is Mod) && literal_zero(
                peeled(*rhs),
            ));
            let out = node(q, st, Expr::Binary { op, lhs, rhs, span });
            &&& out.0 == s
            &&& fits ==> out.1 == Ok::<Kind, Diag>(Kind::Scalar(t))
            &&& !fits ==> out.1 is Err
        }),
{
    let t = resolve(s.table, x);
    let u = resolve(s.table, y);
    value_types_are_compared(t, u);
}

/// A comparison takes two values of the same type, and is a condition.
pub proof fn comparisons_are_conditions(
    q: Quoting,
    st: QState,
    op: BinOp,
    lhs: Box<Expr>,
    rhs: Box<Expr>,
    span: Span,
    s: QState,
    l: Kind,
    r: Kind,
)
    requires
        op is Eq || op is Ne || op is Lt || op is Gt || op is Le || op is Ge,
        operands(q, st, *lhs, *rhs, s, l, r),
    ensures
        ({
            let out = node(q, st, Expr::Binary { op, lhs, rhs, span });
            &&& out.0 == s
            &&& out.1 is Ok ==> out.1 == Ok::<Kind, Diag>(Kind::Pred)
            &&& l is Pred || r is Pred ==> out.1 is Err
            &&& forall|x: Ty, y: Ty| #[trigger]
                is_value(l, x) && #[trigger] is_value(r, y) ==> (out.1 is Ok <==> resolve(
                    s.table,
                    x,
                ) == resolve(s.table, y) && concrete(resolve(s.table, x)))
            &&& forall|x: Ty, y: Ty| #[trigger]
                is_value(l, x) && #[trigger] is_value(r, y) && out.1 is Err ==> out.1->Err_0 is Comparison
                    && out.1->Err_0->Comparison_span == span
        }),
{
    assert forall|x: Ty, y: Ty| #[trigger] is_value(l, x) && #[trigger] is_value(r, y) implies (
    same_value(resolve(s.table, x), resolve(s.table, y)) <==> resolve(s.table, x) == resolve(
        s.table,
        y,
    ) && concrete(resolve(s.table, x))) by {
        value_types_are_compared(resolve(s.table, x), resolve(s.table, y));
    }
}

/// `&&` and `||` take two conditions, and are one.
pub proof fn logic_joins_conditions(
    q: Quoting,
    st: QState,
    op: BinOp,
    lhs: Box<Expr>,
    rhs: Box<Expr>,
    span: Span,
    s: QState,
    l: Kind,
    r: Kind,
)
    requires
        op is And || op is Or,
        operands(q, st, *lhs, *rhs, s, l, r),
    ensures
        ({
            let out = node(q, st, Expr::Binary { op, lhs, rhs, span });
            &&& out.0 == s
            &&& is_condition(q.b, l) && is_condition(q.b, r) ==> out.1 == Ok::<Kind, Diag>(
                Kind::Pred,
            )
            &&& !(is_condition(q.b, l) && is_condition(q.b, r)) ==> out.1 is Err
        }),
{
    conditions(q.b, l);
    conditions(q.b, r);
}

/// What is wrong with an operand is wrong with the operation, and no other
/// operator is known to queries.
pub proof fn operands_are_checked_first(
    q: Quoting,
    st: QState,
    op: BinOp,
    lhs: Box<Expr>,
    rhs: Box<Expr>,
    span: Span,
)
    ensures
        op is Concat || op is Cons ==> node(q, st, Expr::Binary { op, lhs, rhs, span }).1 is Err,
        node(q, st, *lhs).1 is Err ==> node(q, st, Expr::Binary { op, lhs, rhs, span }).1 is Err,
        node(q, st, *lhs).1 is Ok && node(q, node(q, st, *lhs).0, *rhs).1 is Err ==> node(
            q,
            st,
            Expr::Binary { op, lhs, rhs, span },
        ).1 is Err,
        !(op is Concat || op is Cons) && node(q, st, *lhs).1 is Err ==> node(
            q,
            st,
            Expr::Binary { op, lhs, rhs, span },
        ).1 == node(q, st, *lhs).1,
{
}

/// A literal is a value of its own type, and changes nothing.
pub proof fn literals_have_their_types(q: Quoting, st: QState, lit: Literal)
    ensures
        node(q, st, Expr::Literal(lit)).0 == st,
        ({
            let id = match lit {
                Literal::Float { .. } => q.b.float,
                Literal::Bool { .. } => q.b.bool,
                Literal::Text { .. } => q.b.text,
                Literal::RawText { .. } => q.b.text,
                _ => q.b.int,
            };
            node(q, st, Expr::Literal(lit)).1 == Ok::<Kind, Diag>(
                Kind::Scalar(Ty::Con(id, Seq::empty())),
            )
        }),
{
}

/// Parentheses mean nothing.
pub proof fn parentheses_mean_nothing(q: Quoting, st: QState, inner: Box<Expr>, span: Span)
    ensures
        node(q, st, Expr::Paren { inner, span }) == node(q, st, *inner),
        peeled(Expr::Paren { inner, span }) == peeled(*inner),
        peeled(*inner) !is Paren,
{
    no_parens(*inner);
}

proof fn no_parens(e: Expr)
    ensures
        peeled(e) !is Paren,
    decreases e,
{
    match e {
        Expr::Paren { inner, span: _ } => no_parens(*inner),
        _ => {},
    }
}

/// The first field with a label is the one that is found.
pub proof fn fields_are_found(fs: Seq<(Seq<char>, Ty)>, label: Seq<char>, i: int)
    requires
        0 <= i < fs.len(),
        fs[i].0 == label,
        forall|j: int| 0 <= j < i ==> (#[trigger] fs[j]).0 != label,
    ensures
        find_field(fs, label) == Some(fs[i].1),
    decreases i,
{
    if i > 0 {
        assert(fs[0].0 != label);
        assert forall|j: int| 0 <= j < i - 1 implies (#[trigger] fs.skip(1)[j]).0 != label by {
            assert(fs[j + 1].0 != label);
        }
        fields_are_found(fs.skip(1), label, i - 1);
    }
}

/// A label that no field has is not found.
pub proof fn missing_fields_are_not_found(fs: Seq<(Seq<char>, Ty)>, label: Seq<char>)
    requires
        forall|j: int| 0 <= j < fs.len() ==> (#[trigger] fs[j]).0 != label,
    ensures
        find_field(fs, label) is None,
    decreases fs.len(),
{
    if fs.len() > 0 {
        assert(fs[0].0 != label);
        assert forall|j: int| 0 <= j < fs.len() - 1 implies (#[trigger] fs.skip(1)[j]).0
            != label by {
            assert(fs[j + 1].0 != label);
        }
        missing_fields_are_not_found(fs.skip(1), label);
    }
}

/// The first parameter with a name is the one that is found.
pub proof fn parameters_are_found(scope: Seq<ParamOf>, name: Seq<char>, i: int)
    requires
        0 <= i < scope.len(),
        scope[i].name == name,
        forall|j: int| 0 <= j < i ==> (#[trigger] scope[j]).name != name,
    ensures
        find_param(scope, name) == Some(scope[i]),
    decreases i,
{
    if i > 0 {
        assert(scope[0].name != name);
        assert forall|j: int| 0 <= j < i - 1 implies (#[trigger] scope.skip(1)[j]).name != name by {
            assert(scope[j + 1].name != name);
        }
        parameters_are_found(scope.skip(1), name, i - 1);
    }
}

/// A name that no parameter has is not found.
pub proof fn missing_parameters_are_not_found(scope: Seq<ParamOf>, name: Seq<char>)
    requires
        forall|j: int| 0 <= j < scope.len() ==> (#[trigger] scope[j]).name != name,
    ensures
        find_param(scope, name) is None,
    decreases scope.len(),
{
    if scope.len() > 0 {
        assert(scope[0].name != name);
        assert forall|j: int| 0 <= j < scope.len() - 1 implies (#[trigger] scope.skip(1)[j]).name
            != name by {
            assert(scope[j + 1].name != name);
        }
        missing_parameters_are_not_found(scope.skip(1), name);
    }
}

/// Access to a field of a parameter is the column of that name, with the type
/// that the entity declares, optional where a row may lack the entity. A column
/// that the entity does not have is reported, and so is a base that is no
/// parameter.
pub proof fn columns_have_their_types(
    q: Quoting,
    st: QState,
    id: Ident,
    field: Ident,
    span: Span,
    k: int,
)
    requires
        0 <= k < q.scope.len(),
        q.scope[k].name == id.text@,
        forall|j: int| 0 <= j < k ==> (#[trigger] q.scope[j]).name != id.text@,
    ensures
        ({
            let e = Expr::FieldAccess { base: Box::new(Expr::Ident(id)), field, span };
            let out = node(q, st, e);
            let fs = q.scope[k].fields;
            &&& out.0 == st
            &&& forall|i: int|
                0 <= i < fs.len() && (#[trigger] fs[i]).0 == field.text@ && (forall|j: int|
                    0 <= j < i ==> (#[trigger] fs[j]).0 != field.text@) ==> out.1 == Ok::<
                    Kind,
                    Diag,
                >(
                    Kind::Col(
                        if q.scope[k].nullable {
                            Ty::Con(q.b.option, seq![fs[i].1])
                        } else {
                            fs[i].1
                        },
                    ),
                )
            &&& (forall|i: int| 0 <= i < fs.len() ==> (#[trigger] fs[i]).0 != field.text@) ==> (
            out.1 matches Err(Diag::UnknownColumn { entity, column, suggestions: _, span: at })
                && entity == q.scope[k].entity_name && column == field.text@ && at == span)
        }),
{
    parameters_are_found(q.scope, id.text@, k);
    let fs = q.scope[k].fields;
    assert forall|i: int|
        0 <= i < fs.len() && (#[trigger] fs[i]).0 == field.text@ && (forall|j: int|
            0 <= j < i ==> (#[trigger] fs[j]).0 != field.text@) implies find_field(fs, field.text@)
        == Some(fs[i].1) by {
        fields_are_found(fs, field.text@, i);
    }
    if forall|i: int| 0 <= i < fs.len() ==> (#[trigger] fs[i]).0 != field.text@ {
        missing_fields_are_not_found(fs, field.text@);
    }
}

/// Access to a field of anything but a parameter is refused.
pub proof fn only_parameters_have_columns(
    q: Quoting,
    st: QState,
    base: Box<Expr>,
    field: Ident,
    span: Span,
)
    requires
        *base matches Expr::Ident(id) ==> forall|j: int|
            0 <= j < q.scope.len() ==> (#[trigger] q.scope[j]).name != id.text@,
    ensures
        node(q, st, Expr::FieldAccess { base, field, span }).1 is Err,
{
    match *base {
        Expr::Ident(id) => missing_parameters_are_not_found(q.scope, id.text@),
        _ => {},
    }
}

/// A conditional asks for a condition and for two branches: two values of one
/// type, which is then its own, or two conditions.
pub proof fn conditionals_join_their_branches(
    q: Quoting,
    st: QState,
    cond: Box<Expr>,
    yes: Box<Expr>,
    no: Box<Expr>,
    span: Span,
    c: Kind,
    t: Kind,
    e: Kind,
)
    requires
        node(q, st, *cond).1 == Ok::<Kind, Diag>(c),
        node(q, node(q, st, *cond).0, *yes).1 == Ok::<Kind, Diag>(t),
        node(q, node(q, node(q, st, *cond).0, *yes).0, *no).1 == Ok::<Kind, Diag>(e),
    ensures
        ({
            let s = node(q, node(q, node(q, st, *cond).0, *yes).0, *no).0;
            let out = node(
                q,
                st,
                Expr::If { cond, then_branch: yes, else_branch: Some(no), span },
            );
            &&& !is_condition(q.b, c) ==> out.1 is Err
            &&& is_condition(q.b, c) ==> out.0 == s
            &&& is_condition(q.b, c) ==> forall|x: Ty, y: Ty| #[trigger]
                is_value(t, x) && #[trigger] is_value(e, y) ==> out.1 == if resolve(s.table, x)
                    == resolve(s.table, y) && concrete(resolve(s.table, x)) {
                    Ok::<Kind, Diag>(Kind::Scalar(resolve(s.table, x)))
                } else {
                    out.1
                } && (out.1 is Ok <==> resolve(s.table, x) == resolve(s.table, y) && concrete(
                    resolve(s.table, x),
                ))
            &&& is_condition(q.b, c) && (t is Pred || e is Pred) ==> if is_condition(q.b, t)
                && is_condition(q.b, e) {
                out.1 == Ok::<Kind, Diag>(Kind::Pred)
            } else {
                out.1 is Err
            }
        }),
{
    conditions(q.b, c);
    conditions(q.b, t);
    conditions(q.b, e);
    let s = node(q, node(q, node(q, st, *cond).0, *yes).0, *no).0;
    assert forall|x: Ty, y: Ty| #[trigger] is_value(t, x) && #[trigger] is_value(e, y) implies (
    same_value(resolve(s.table, x), resolve(s.table, y)) <==> resolve(s.table, x) == resolve(
        s.table,
        y,
    ) && concrete(resolve(s.table, x))) by {
        value_types_are_compared(resolve(s.table, x), resolve(s.table, y));
    }
}

/// A conditional without an `else` is refused.
pub proof fn conditionals_need_an_else(
    q: Quoting,
    st: QState,
    cond: Box<Expr>,
    yes: Box<Expr>,
    span: Span,
)
    ensures
        node(
            q,
            st,
            Expr::If { cond, then_branch: yes, else_branch: None, span },
        ).1 is Err,
{
}

/// What an element of an `IN` list is, where it is a literal.
pub open spec fn is_literal_of(b: BuiltinTyCons, e: Expr, t: Ty) -> bool {
    peeled(e) matches Expr::Literal(lit) && concrete(t) && t == match lit {
        Literal::Float { .. } => Ty::Con(b.float, Seq::empty()),
        Literal::Bool { .. } => Ty::Con(b.bool, Seq::empty()),
        Literal::Text { .. } => Ty::Con(b.text, Seq::empty()),
        Literal::RawText { .. } => Ty::Con(b.text, Seq::empty()),
        _ => Ty::Con(b.int, Seq::empty()),
    }
}

/// An `IN` list is taken where every element is a literal of the column's type.
pub proof fn in_lists_hold_literals(q: Quoting, elems: Seq<Expr>, t: Ty)
    ensures
        bad_element(q, elems, t) is None <==> forall|i: int|
            0 <= i < elems.len() ==> is_literal_of(q.b, #[trigger] elems[i], t),
    decreases elems.len(),
{
    if elems.len() > 0 {
        let rest = elems.skip(1);
        in_lists_hold_literals(q, rest, t);
        match peeled(elems[0]) {
            Expr::Literal(lit) => {
                value_types_are_compared(literal_ty(q.b, lit), t);
            },
            _ => {},
        }
        assert(is_literal_of(q.b, elems[0], t) <==> match peeled(elems[0]) {
            Expr::Literal(lit) => same_value(literal_ty(q.b, lit), t),
            _ => false,
        });
        if bad_element(q, elems, t) is None {
            assert forall|i: int| 0 <= i < elems.len() implies is_literal_of(
                q.b,
                #[trigger] elems[i],
                t,
            ) by {
                if i > 0 {
                    assert(is_literal_of(q.b, rest[i - 1], t));
                }
            }
        }
        if forall|i: int| 0 <= i < elems.len() ==> is_literal_of(q.b, #[trigger] elems[i], t) {
            assert(is_literal_of(q.b, elems[0], t));
            assert forall|i: int| 0 <= i < rest.len() implies is_literal_of(
                q.b,
                #[trigger] rest[i],
                t,
            ) by {
                assert(is_literal_of(q.b, elems[i + 1], t));
            }
        }
    }
}

/// The parameters of a quote are those of the lambda in order: each has the name
/// that the lambda gives it, the entity that stands at its place, the columns
/// that the entity declares, and is nullable where the entity is.
pub proof fn parameters_range_over_their_entities(
    tycons: Seq<TyConDecl>,
    ps: Seq<LambdaParam>,
    entities: Seq<(TyConId, bool)>,
    span: Span,
    k: nat,
)
    requires
        k <= ps.len(),
        k <= entities.len(),
        scope_of(tycons, ps, entities, span, k) is Ok,
    ensures
        ({
            let scope = scope_of(tycons, ps, entities, span, k)->Ok_0;
            &&& scope.len() == k
            &&& forall|i: int|
                0 <= i < k ==> (#[trigger] scope[i]).entity == entities[i].0 && scope[i].nullable
                    == entities[i].1 && columns_of(tycons, entities[i].0) == Some(scope[i].fields)
                    && match ps[i] {
                    LambdaParam::Pattern(Pattern::Var { name, span: _ }) => scope[i].name
                        == name.text@,
                    LambdaParam::Annotated {
                        pat: Pattern::Var { name, span: _ },
                        ty: _,
                    } => scope[i].name == name.text@,
                    _ => false,
                }
        }),
    decreases k,
{
    if k > 0 {
        parameters_range_over_their_entities(tycons, ps, entities, span, (k - 1) as nat);
    }
}

/// A lambda is a quote over as many entities as it has parameters, and over
/// records alone.
pub proof fn quotes_fit_their_entities(
    q: Quoting,
    names: Map<Seq<char>, TyConId>,
    st: QState,
    params: Vec<LambdaParam>,
    body: Box<Expr>,
    span: Span,
    entities: Seq<(TyConId, bool)>,
    ret: Option<Ty>,
)
    requires
        quote_verdict(q, names, st, Expr::Lambda { params, body, span }, entities, ret).1 is Ok,
    ensures
        params@.len() == entities.len(),
        forall|i: int|
            0 <= i < entities.len() ==> columns_of(q.tycons, (#[trigger] entities[i]).0) is Some,
{
    parameters_range_over_their_entities(q.tycons, params@, entities, span, params@.len());
    let scope = scope_of(q.tycons, params@, entities, span, params@.len())->Ok_0;
    assert forall|i: int| 0 <= i < entities.len() implies columns_of(
        q.tycons,
        (#[trigger] entities[i]).0,
    ) is Some by {
        assert(scope[i].entity == entities[i].0);
    }
}

/// A body that is no record expression, where the boolean type is asked for, is
/// accepted where it is a condition; where another type is asked for that is no
/// record, where it is a value of that type.
pub proof fn scalar_bodies_are_accepted(
    q: Quoting,
    names: Map<Seq<char>, TyConId>,
    st: QState,
    body: Expr,
    id: TyConId,
    args: Seq<Ty>,
    span: Span,
    k: Kind,
)
    requires
        peeled(body) !is Record,
        peeled(body) !is RecordLit,
        columns_of(q.tycons, id) is None,
        node(q, st, body).1 == Ok::<Kind, Diag>(k),
    ensures
        ({
            let v = body_quote(q, names, st, body, Some(Ty::Con(id, args)), span).1;
            &&& id == q.b.bool ==> (v is Ok <==> is_condition(q.b, k))
            &&& id != q.b.bool && k is Pred ==> v is Err
            &&& id != q.b.bool ==> forall|x: Ty| #[trigger]
                is_value(k, x) ==> (v is Ok <==> resolve(node(q, st, body).0.table, x) == Ty::Con(
                    id,
                    args,
                ) && concrete(Ty::Con(id, args)))
        }),
{
    conditions(q.b, k);
    let s = node(q, st, body).0;
    let w = Ty::Con(id, args);
    assert forall|x: Ty| #[trigger] is_value(k, x) implies (same_value(resolve(s.table, x), w)
        <==> resolve(s.table, x) == w && concrete(w)) by {
        value_types_are_compared(resolve(s.table, x), w);
    }
}

/// A comparison of columns, literals and arithmetic over them is accepted as a
/// predicate, and the arithmetic alone is not.
pub proof fn computed_values_are_no_predicates(
    q: Quoting,
    names: Map<Seq<char>, TyConId>,
    st: QState,
    body: Expr,
    args: Seq<Ty>,
    span: Span,
    x: Ty,
)
    requires
        peeled(body) !is Record,
        peeled(body) !is RecordLit,
        columns_of(q.tycons, q.b.bool) is None,
        node(q, st, body).1 == Ok::<Kind, Diag>(Kind::Scalar(x)),
        !(x is Con && x->Con_0 == q.b.bool),
    ensures
        body_quote(q, names, st, body, Some(Ty::Con(q.b.bool, args)), span).1 is Err,
        body_quote(q, names, st, body, None, span).1 is Err,
{
    scalar_bodies_are_accepted(q, names, st, body, q.b.bool, args, span, Kind::Scalar(x));
}

/// A projection that is accepted gives every declared column of the result once
/// over, and gives nothing else: each field that it gives is declared.
pub proof fn projections_fill_their_record(
    q: Quoting,
    st: QState,
    body: Expr,
    expected: Seq<(Seq<char>, Ty)>,
    span: Span,
)
    requires
        projection(q, st, body, expected, span).1 is None,
    ensures
        inits_of(peeled(body)) matches Some(fs) && fs.len() > 0 && (forall|i: int|
            0 <= i < expected.len() ==> exists|j: int|
                0 <= j < fs.len() && (#[trigger] fs[j]).name.text@ == (
                #[trigger] expected[i]).0) && (forall|j: int|
            0 <= j < fs.len() ==> (#[trigger] fs[j]).value is Some && exists|i: int|
                0 <= i < expected.len() && (#[trigger] expected[i]).0 == fs[j].name.text@),
{
    let fs = inits_of(peeled(body))->0;
    all_selected(expected, fs);
    all_declared(q, st, fs, expected);
    assert forall|i: int| 0 <= i < expected.len() implies exists|j: int|
        0 <= j < fs.len() && (#[trigger] fs[j]).name.text@ == (#[trigger] expected[i]).0 by {
        assert(selects(fs, expected[i].0));
    }
}

/// Where no label is left over, each one that is declared is given.
pub proof fn all_selected(expected: Seq<(Seq<char>, Ty)>, fs: Seq<FieldInit>)
    requires
        unselected(expected, fs) is None,
    ensures
        forall|i: int| 0 <= i < expected.len() ==> selects(fs, (#[trigger] expected[i]).0),
    decreases expected.len(),
{
    if expected.len() > 0 {
        all_selected(expected.skip(1), fs);
        assert forall|i: int| 0 <= i < expected.len() implies selects(
            fs,
            (#[trigger] expected[i]).0,
        ) by {
            if i > 0 {
                assert(selects(fs, expected.skip(1)[i - 1].0));
            }
        }
    }
}

proof fn taken_is_declared(
    q: Quoting,
    st: QState,
    f: FieldInit,
    expected: Seq<(Seq<char>, Ty)>,
)
    requires
        project_field(q, st, f, expected).1 is None,
    ensures
        f.value is Some,
        find_field(expected, f.name.text@) is Some,
{
    reveal(project_field);
    match f.value {
        None => {},
        Some(v) => {
            let (s1, k) = node(q, st, v);
            if let Ok(kind) = k {
                assert(field_fault(q, s1.table, f.name.text@, f.span, kind, expected) is None);
            }
        },
    }
}

proof fn all_declared(q: Quoting, st: QState, fs: Seq<FieldInit>, expected: Seq<(Seq<char>, Ty)>)
    requires
        projected(q, st, fs, expected).1 is None,
    ensures
        forall|j: int|
            0 <= j < fs.len() ==> (#[trigger] fs[j]).value is Some && exists|i: int|
                0 <= i < expected.len() && (#[trigger] expected[i]).0 == fs[j].name.text@,
    decreases fs.len(),
{
    if fs.len() > 0 {
        let less = fs.drop_last();
        all_declared(q, st, less, expected);
        let last = fs.last();
        let s1 = projected(q, st, less, expected).0;
        assert(project_field(q, s1, last, expected).1 is None);
        taken_is_declared(q, s1, last, expected);
        assert(find_field(expected, last.name.text@) is Some);
        if forall|i: int| 0 <= i < expected.len() ==> (#[trigger] expected[i]).0
            != last.name.text@ {
            missing_fields_are_not_found(expected, last.name.text@);
        }
        assert forall|j: int| 0 <= j < fs.len() implies (#[trigger] fs[j]).value is Some
            && exists|i: int|
            0 <= i < expected.len() && (#[trigger] expected[i]).0 == fs[j].name.text@ by {
            if j < less.len() {
                assert(less[j] == fs[j]);
                assert(less[j].value is Some);
                let i = choose|i: int|
                    0 <= i < expected.len() && (#[trigger] expected[i]).0 == less[j].name.text@;
                assert(expected[i].0 == fs[j].name.text@);
            } else {
                assert(fs[j] == last);
            }
        }
    }
}

/// A field of a projection is taken where it is a value of the type that the
/// result declares for it.
pub proof fn projected_fields_have_the_declared_type(
    q: Quoting,
    tb: Table,
    name: Seq<char>,
    span: Span,
    k: Kind,
    expected: Seq<(Seq<char>, Ty)>,
    i: int,
)
    requires
        0 <= i < expected.len(),
        expected[i].0 == name,
        forall|j: int| 0 <= j < i ==> (#[trigger] expected[j]).0 != name,
    ensures
        k is Pred ==> field_fault(q, tb, name, span, k, expected) is Some,
        forall|x: Ty| #[trigger]
            is_value(k, x) ==> (field_fault(q, tb, name, span, k, expected) is None <==> resolve(
                tb,
                x,
            ) == resolve(tb, expected[i].1) && concrete(resolve(tb, x))),
{
    fields_are_found(expected, name, i);
    assert forall|x: Ty| #[trigger] is_value(k, x) implies (same_value(
        resolve(tb, x),
        resolve(tb, expected[i].1),
    ) <==> resolve(tb, x) == resolve(tb, expected[i].1) && concrete(resolve(tb, x))) by {
        value_types_are_compared(resolve(tb, x), resolve(tb, expected[i].1));
    }
}

} // verus!
