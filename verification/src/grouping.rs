use vstd::prelude::*;

use crate::ast::{BinOp, Expr, FieldInit, Ident, LambdaParam, Pattern};
use crate::diag::Diag;
use crate::group::{
    accessor_scope, folded, group_body, group_node, group_place, group_project_field,
    group_projected, group_projection, group_verdict, Grouping,
};
use crate::qexpr::{
    boolean, columns_of, con_name, fields_of, inits_of, node, peeled, same_value, selects, Kind,
    ParamOf, QState, Quoting,
};
use crate::querying::{
    all_selected, concrete, fields_are_found, is_condition, is_value, missing_fields_are_not_found,
    value_types_are_compared,
};
use crate::table::resolve;
use crate::types::{BuiltinTyCons, Span, Ty, TyConId};

verus! {

proof fn conditions_of(b: BuiltinTyCons, k: Kind)
    ensures
        boolean(b, k) <==> is_condition(b, k),
{
    match k {
        Kind::Col(t) => {
            if boolean(b, k) {
                assert(is_value(k, Ty::Con(b.bool, t->Con_1)));
            }
        },
        Kind::Scalar(t) => {
            if boolean(b, k) {
                assert(is_value(k, Ty::Con(b.bool, t->Con_1)));
            }
        },
        Kind::Pred => {},
    }
}

/// `g.key` is a value of the type of the key, `g.count` an integer, and nothing
/// else can be asked of a group by a field, nor anything of what is no group.
pub proof fn groups_have_a_key_and_a_count(
    gr: Grouping,
    st: QState,
    base: Box<Expr>,
    field: Ident,
    span: Span,
)
    ensures
        ({
            let out = group_node(gr, st, Expr::FieldAccess { base, field, span });
            let own = *base matches Expr::Ident(id) && id.text@ == gr.g;
            &&& out.0 == st
            &&& own && field.text@ == "key"@ ==> out.1 == Ok::<Kind, Diag>(Kind::Scalar(gr.k))
            &&& own && field.text@ == "count"@ ==> out.1 == Ok::<Kind, Diag>(
                Kind::Scalar(Ty::Con(gr.q.b.int, Seq::empty())),
            )
            &&& !own || field.text@ != "key"@ && field.text@ != "count"@ ==> out.1 is Err
        }),
{
    reveal_strlit("key");
    reveal_strlit("count");
    assert("key"@.len() == 3 && "count"@.len() == 5);
}

/// `g.sum`, `g.min` and `g.max` have the type of what they fold, and `g.avg` is a
/// float. Nothing else can be called on a group, and an aggregate takes one
/// accessor.
pub proof fn aggregates_have_their_types(
    gr: Grouping,
    st: QState,
    base: Box<Expr>,
    field: Ident,
    at: Span,
    args: Vec<Expr>,
    span: Span,
)
    ensures
        ({
            let callee = Expr::FieldAccess { base, field, span: at };
            let out = group_node(gr, st, Expr::Call { callee: Box::new(callee), args, span });
            let own = *base matches Expr::Ident(id) && id.text@ == gr.g;
            let f = field.text@;
            let folds = f == "sum"@ || f == "min"@ || f == "max"@;
            let s = folded(gr, st, args@[0]);
            &&& !own || !(folds || f == "avg"@) || args@.len() != 1 ==> out == (st, out.1)
                && out.1 is Err
            &&& own && (folds || f == "avg"@) && args@.len() == 1 && s.1 is Err ==> out.1 == s.1
            &&& own && f == "avg"@ && args@.len() == 1 && s.1 is Ok ==> out == (
                s.0,
                Ok::<Kind, Diag>(Kind::Scalar(Ty::Con(gr.q.b.float, Seq::empty()))),
            )
            &&& own && folds && args@.len() == 1 ==> forall|k: Kind, t: Ty| #[trigger]
                is_value(k, t) && s.1 == Ok::<Kind, Diag>(k) ==> out == (
                    s.0,
                    Ok::<Kind, Diag>(Kind::Scalar(t)),
                )
        }),
{
    reveal_strlit("sum");
    reveal_strlit("avg");
    reveal_strlit("min");
    reveal_strlit("max");
    assert("sum"@[0] == 's' && "avg"@[0] == 'a' && "min"@[0] == 'm' && "max"@[0] == 'm');
    assert("sum"@ != "avg"@ && "min"@ != "avg"@ && "max"@ != "avg"@) by {
        assert("sum"@[0] != "avg"@[0]);
        assert("min"@[0] != "avg"@[0]);
        assert("max"@[0] != "avg"@[0]);
    }
}

/// An aggregate folds a value of a row, and no condition.
pub proof fn aggregates_fold_values(gr: Grouping, st: QState, arg: Expr)
    requires
        folded(gr, st, arg).1 is Ok,
    ensures
        exists|t: Ty| #[trigger] is_value(folded(gr, st, arg).1->Ok_0, t),
        peeled(arg) matches Expr::Lambda { params, body: _, span: _ } && params@.len() > 0,
{
    let k = folded(gr, st, arg).1->Ok_0;
    match k {
        Kind::Col(t) => assert(is_value(k, t)),
        Kind::Scalar(t) => assert(is_value(k, t)),
        Kind::Pred => {},
    }
}

/// A condition on a group compares values of one type, or joins conditions; where
/// one side of a comparison is not known yet, it is one as well.
pub proof fn group_conditions(
    gr: Grouping,
    st: QState,
    op: BinOp,
    lhs: Box<Expr>,
    rhs: Box<Expr>,
    span: Span,
    s: QState,
    l: Kind,
    r: Kind,
)
    requires
        group_node(gr, st, *lhs).1 == Ok::<Kind, Diag>(l),
        group_node(gr, group_node(gr, st, *lhs).0, *rhs) == (s, Ok::<Kind, Diag>(r)),
    ensures
        ({
            let out = group_node(gr, st, Expr::Binary { op, lhs, rhs, span });
            let compares = op is Eq || op is Ne || op is Lt || op is Gt || op is Le || op is Ge;
            let joins = op is And || op is Or;
            &&& out.1 is Ok ==> out.1 == Ok::<Kind, Diag>(Kind::Pred)
            &&& !compares && !joins ==> out.1 is Err
            &&& joins ==> (out.1 is Ok <==> is_condition(gr.q.b, l) && is_condition(gr.q.b, r))
            &&& compares && (l is Pred || r is Pred) ==> out.1 is Err
            &&& compares ==> forall|x: Ty, y: Ty| #[trigger]
                is_value(l, x) && #[trigger] is_value(r, y) ==> (out.1 is Ok <==> resolve(
                    s.table,
                    x,
                ) is Var || resolve(s.table, y) is Var || resolve(s.table, x) == resolve(
                    s.table,
                    y,
                ) && concrete(resolve(s.table, x)))
        }),
{
    conditions_of(gr.q.b, l);
    conditions_of(gr.q.b, r);
    assert forall|x: Ty, y: Ty| #[trigger] is_value(l, x) && #[trigger] is_value(r, y) implies (
    same_value(resolve(s.table, x), resolve(s.table, y)) <==> resolve(s.table, x) == resolve(
        s.table,
        y,
    ) && concrete(resolve(s.table, x))) by {
        value_types_are_compared(resolve(s.table, x), resolve(s.table, y));
    }
}

/// The body of a grouped quote that is no record expression is accepted where it
/// is a condition, whatever result is asked for that is no record, and is noted as
/// a quote over groups.
pub proof fn group_bodies_are_conditions(
    gr: Grouping,
    names: Map<Seq<char>, TyConId>,
    st: QState,
    body: Expr,
    want: Option<Ty>,
    span: Span,
    k: Kind,
)
    requires
        peeled(body) !is Record,
        peeled(body) !is RecordLit,
        want matches Some(w) ==> fields_of(gr.q.tycons, w) is None,
        group_node(gr, st, body).1 == Ok::<Kind, Diag>(k),
    ensures
        group_body(gr, names, st, body, want, span).1 is Ok <==> is_condition(gr.q.b, k),
        is_condition(gr.q.b, k) ==> ({
            let quoted = group_body(gr, names, st, body, want, span).0.quoted;
            let key = (span.start, span.end);
            quoted.dom().contains(key) && quoted[key].group && quoted[key].param_name == gr.g
        }),
{
    conditions_of(gr.q.b, k);
}

/// An aggregate is placed in a field of the result where it is a value of the
/// type that the result declares for the field, or of a type not known yet.
pub proof fn aggregates_fit_their_fields(
    gr: Grouping,
    st: QState,
    name: Seq<char>,
    span: Span,
    k: Kind,
    expected: Seq<(Seq<char>, Ty)>,
    i: int,
)
    requires
        0 <= i < expected.len(),
        expected[i].0 == name,
        forall|j: int| 0 <= j < i ==> (#[trigger] expected[j]).0 != name,
    ensures
        k is Pred ==> group_place(gr, st, name, span, k, expected).1 is Err,
        forall|x: Ty| #[trigger]
            is_value(k, x) ==> (group_place(gr, st, name, span, k, expected).1 is Ok <==> resolve(
                st.table,
                x,
            ) is Var || resolve(st.table, x) == resolve(st.table, expected[i].1) && concrete(
                resolve(st.table, x),
            )),
{
    fields_are_found(expected, name, i);
    assert forall|x: Ty| #[trigger] is_value(k, x) implies (same_value(
        resolve(st.table, x),
        resolve(st.table, expected[i].1),
    ) <==> resolve(st.table, x) == resolve(st.table, expected[i].1) && concrete(
        resolve(st.table, x),
    )) by {
        value_types_are_compared(resolve(st.table, x), resolve(st.table, expected[i].1));
    }
}

proof fn placed_is_declared(
    gr: Grouping,
    st: QState,
    f: FieldInit,
    expected: Seq<(Seq<char>, Ty)>,
)
    requires
        group_project_field(gr, st, f, expected).1 is Ok,
    ensures
        f.value is Some,
        exists|i: int| 0 <= i < expected.len() && (#[trigger] expected[i]).0 == f.name.text@,
{
    reveal(group_project_field);
    if !(exists|i: int| 0 <= i < expected.len() && (#[trigger] expected[i]).0 == f.name.text@) {
        missing_fields_are_not_found(expected, f.name.text@);
    }
}

proof fn all_placed_are_declared(
    gr: Grouping,
    st: QState,
    fs: Seq<FieldInit>,
    expected: Seq<(Seq<char>, Ty)>,
)
    requires
        group_projected(gr, st, fs, expected).1 is Ok,
    ensures
        forall|j: int|
            0 <= j < fs.len() ==> (#[trigger] fs[j]).value is Some && exists|i: int|
                0 <= i < expected.len() && (#[trigger] expected[i]).0 == fs[j].name.text@,
    decreases fs.len(),
{
    if fs.len() > 0 {
        let before = fs.drop_last();
        all_placed_are_declared(gr, st, before, expected);
        placed_is_declared(gr, group_projected(gr, st, before, expected).0, fs.last(), expected);
        assert forall|j: int| 0 <= j < fs.len() implies (#[trigger] fs[j]).value is Some && exists|
            i: int,
        |
            0 <= i < expected.len() && (#[trigger] expected[i]).0 == fs[j].name.text@ by {
            if j < before.len() {
                assert(before[j] == fs[j]);
            } else {
                assert(fs[j] == fs.last());
            }
        }
    }
}

/// A grouped projection that is accepted gives every declared column of the
/// result, and gives nothing else.
pub proof fn grouped_projections_fill_their_record(
    gr: Grouping,
    st: QState,
    body: Expr,
    expected: Seq<(Seq<char>, Ty)>,
    span: Span,
)
    requires
        group_projection(gr, st, body, expected, span).1 is Ok,
    ensures
        inits_of(peeled(body)) matches Some(fs) && fs.len() > 0 && (forall|i: int|
            0 <= i < expected.len() ==> exists|j: int|
                0 <= j < fs.len() && (#[trigger] fs[j]).name.text@ == (
                #[trigger] expected[i]).0) && (forall|j: int|
            0 <= j < fs.len() ==> (#[trigger] fs[j]).value is Some && exists|i: int|
                0 <= i < expected.len() && (#[trigger] expected[i]).0 == fs[j].name.text@),
{
    let fs = inits_of(peeled(body))->0;
    all_selected(expected, fs);
    all_placed_are_declared(gr, st, fs, expected);
    assert forall|i: int| 0 <= i < expected.len() implies exists|j: int|
        0 <= j < fs.len() && (#[trigger] fs[j]).name.text@ == (#[trigger] expected[i]).0 by {
        assert(selects(fs, expected[i].0));
    }
}

/// What an aggregate folds is looked at with its parameter ranging over the rows
/// of the group: its columns are those of the entity of the rows.
pub proof fn aggregates_range_over_their_rows(
    gr: Grouping,
    st: QState,
    name: Ident,
    at: Span,
    params: Vec<LambdaParam>,
    body: Box<Expr>,
    span: Span,
    entity: TyConId,
    args: Seq<Ty>,
    fields: Seq<(Seq<char>, Ty)>,
)
    requires
        params@ == seq![LambdaParam::Pattern(Pattern::Var { name, span: at })],
        resolve(st.table, gr.e) == Ty::Con(entity, args),
        columns_of(gr.q.tycons, entity) == Some(fields),
    ensures
        ({
            let row = ParamOf {
                name: name.text@,
                entity,
                entity_name: con_name(gr.q.tycons, entity),
                fields,
                nullable: false,
            };
            let inner = node(Quoting { scope: seq![row], ..gr.q }, st, *body);
            let out = folded(gr, st, Expr::Lambda { params, body, span });
            &&& out.0 == inner.0
            &&& inner.1 matches Ok(k) ==> (k !is Pred ==> out.1 == Ok::<Kind, Diag>(k))
            &&& inner.1 is Err || inner.1 == Ok::<Kind, Diag>(Kind::Pred) ==> out.1 is Err
        }),
{
    reveal_with_fuel(accessor_scope, 2);
    let row = ParamOf {
        name: name.text@,
        entity,
        entity_name: con_name(gr.q.tycons, entity),
        fields,
        nullable: false,
    };
    assert(Seq::<ParamOf>::empty().push(row) =~= seq![row]);
    assert(accessor_scope(gr.q.tycons, st.table, params@, gr.e, span, 1) == (
        st.table,
        Ok::<Seq<ParamOf>, Diag>(seq![row]),
    ));
}

/// A grouped quote takes one parameter, a plain name.
pub proof fn grouped_quotes_take_one_parameter(
    q: Quoting,
    names: Map<Seq<char>, TyConId>,
    st: QState,
    params: Vec<LambdaParam>,
    body: Box<Expr>,
    span: Span,
    rows: Ty,
    key: Ty,
    ret: Option<Ty>,
)
    requires
        group_verdict(
            q,
            names,
            st,
            Expr::Lambda { params, body, span },
            rows,
            key,
            ret,
        ).1 is Ok,
    ensures
        params@.len() == 1,
        params@[0] matches LambdaParam::Pattern(Pattern::Var { name: _, span: _ })
            || params@[0] matches LambdaParam::Annotated {
            pat: Pattern::Var { name: _, span: _ },
            ty: _,
        },
{
}

} // verus!
