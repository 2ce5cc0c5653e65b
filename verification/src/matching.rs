use vstd::prelude::*;

use crate::ast::{Expr, Ident, Literal};
use crate::ctx::in_scope;
use crate::diag::Diag;
use crate::instantiate::{deferred, fresh_vars, mono_instantiates_to_itself, with_slots};
use crate::qexpr::{
    all_zero, bad_element, column, find_param, int_digits, literal_zero, node, peeled,
    without_underscores, Kind, QState, Quoting,
};
use crate::quote::{entity_of, pinned, slot_of};
use crate::subst::{apply_fixed, cap_occurs, cap_occurs_any, occurs, occurs_any};
use crate::table::{look, look_cap, resolve, Table};
use crate::types::{mono, BuiltinTyCons, CapVid, Span, Ty, TyConDecl, TyConId, TyVid};
use crate::unifying::variables_take_types;

verus! {

/// The functions that match a column in a quote.
pub open spec fn is_matcher(name: Seq<char>) -> bool {
    name == "like"@ || name == "contains"@ || name == "startsWith"@ || name == "endsWith"@
}

/// A column of a parameter, with its type.
pub open spec fn is_column(q: Quoting, tb: Table, e: Expr, t: Ty) -> bool {
    &&& peeled(e) matches Expr::FieldAccess { base, field, span }
    &&& *base matches Expr::Ident(id)
    &&& find_param(q.scope, id.text@) is Some
    &&& column(q, *base, field, span) matches Ok(Kind::Col(x))
    &&& resolve(tb, x) == t
}

/// A text literal.
pub open spec fn is_text(lit: Literal) -> bool {
    lit is Text || lit is RawText
}

/// The constructors of the literal types are told apart.
pub open spec fn apart(b: BuiltinTyCons) -> bool {
    b.text != b.int && b.text != b.float && b.text != b.bool
}

/// A text match takes a text column and a text literal, in either order, and is a
/// condition. A column of another type does not match, and neither does another
/// literal.
pub proof fn text_columns_match_text_literals(
    q: Quoting,
    st: QState,
    id: Ident,
    args: Vec<Expr>,
    span: Span,
    at: int,
    t: Ty,
    lit: Literal,
)
    requires
        apart(q.b),
        is_matcher(id.text@),
        args@.len() == 2,
        at == 0 || at == 1,
        is_column(q, st.table, args@[at], t),
        peeled(args@[1 - at]) == Expr::Literal(lit),
    ensures
        ({
            let out = node(
                q,
                st,
                Expr::Call { callee: Box::new(Expr::Ident(id)), args, span },
            );
            let fits = t is Con && t->Con_0 == q.b.text && is_text(lit);
            &&& out.0 == st
            &&& fits ==> out.1 == Ok::<Kind, Diag>(Kind::Pred)
            &&& !fits ==> out.1 is Err
        }),
{
}

/// A column is in a list of literals where the function is `contains` and no
/// element of the list is at fault; any other match against a list is refused.
pub proof fn columns_match_lists(
    q: Quoting,
    st: QState,
    id: Ident,
    args: Vec<Expr>,
    span: Span,
    at: int,
    t: Ty,
    elems: Vec<Expr>,
    within: Span,
)
    requires
        is_matcher(id.text@),
        args@.len() == 2,
        at == 0 || at == 1,
        is_column(q, st.table, args@[at], t),
        peeled(args@[1 - at]) == (Expr::List { elems, span: within }),
    ensures
        ({
            let out = node(
                q,
                st,
                Expr::Call { callee: Box::new(Expr::Ident(id)), args, span },
            );
            &&& out.0 == st
            &&& id.text@ == "contains"@ && bad_element(q, elems@, t) is None ==> out.1 == Ok::<
                Kind,
                Diag,
            >(Kind::Pred)
            &&& id.text@ == "contains"@ && bad_element(q, elems@, t) is Some ==> out.1 == Err::<
                Kind,
                Diag,
            >(bad_element(q, elems@, t)->0)
            &&& id.text@ != "contains"@ ==> out.1 is Err
        }),
{
}

/// No other function can be called in a quote, and those that can take two
/// arguments, one of which is a column.
pub proof fn other_calls_are_refused(q: Quoting, st: QState, id: Ident, args: Vec<Expr>, span: Span)
    requires
        !is_matcher(id.text@) || args@.len() != 2 || forall|k: int|
            0 <= k < args@.len() ==> peeled(#[trigger] args@[k]) !is FieldAccess,
    ensures
        ({
            let out = node(
                q,
                st,
                Expr::Call { callee: Box::new(Expr::Ident(id)), args, span },
            );
            out.0 == st && out.1 is Err
        }),
{
    if args@.len() == 2 {
        assert(args@[0] == args@[0] && args@[1] == args@[1]);
    }
}

/// A pipe into a call is the call with what is piped for its last argument.
pub proof fn pipes_are_matches(
    q: Quoting,
    st: QState,
    id: Ident,
    args: Vec<Expr>,
    both: Vec<Expr>,
    lhs: Box<Expr>,
    at: Span,
    span: Span,
)
    requires
        args@.len() == 1,
        both@ == args@.push(*lhs),
    ensures
        ({
            let call = Expr::Call { callee: Box::new(Expr::Ident(id)), args, span: at };
            node(q, st, Expr::Pipe { lhs, rhs: Box::new(call), span }) == node(
                q,
                st,
                Expr::Call { callee: Box::new(Expr::Ident(id)), args: both, span },
            )
        }),
{
    let call = Expr::Call { callee: Box::new(Expr::Ident(id)), args, span: at };
    assert(peeled(call) == call);
    assert(both@[0] == args@[0] && both@[1] == *lhs);
}

/// A name from around a quote is a value of the type that it has there, where
/// that is one of the types that can be sent along. A row cannot be, and neither
/// can a name that is not in scope.
pub proof fn names_around_are_values(q: Quoting, st: QState, id: Ident, t: Ty)
    requires
        in_scope(q.env, id.text@) == Some(mono(t)),
    ensures
        ({
            let out = node(q, st, Expr::Ident(id));
            let v = resolve(st.table, t);
            let sent = v is Con && (v->Con_0 == q.b.int || v->Con_0 == q.b.text || v->Con_0
                == q.b.bool || v->Con_0 == q.b.float);
            let row = find_param(q.scope, id.text@) is Some;
            &&& out.0.table == st.table
            &&& out.0.deferred == st.deferred
            &&& sent && !row ==> out.1 == Ok::<Kind, Diag>(Kind::Scalar(v))
            &&& !sent || row ==> out.1 is Err
        }),
{
    mono_instantiates_to_itself(t, st.table);
    assert(st.deferred + deferred(mono(t), st.table.types.len())
        =~= st.deferred);
}

/// A name that nothing in scope has is no value, and a row is none by itself.
pub proof fn unknown_names_are_no_values(q: Quoting, st: QState, id: Ident)
    requires
        in_scope(q.env, id.text@) is None || find_param(q.scope, id.text@) is Some,
    ensures
        node(q, st, Expr::Ident(id)).0 == st,
        node(q, st, Expr::Ident(id)).1 is Err,
{
}

proof fn kept_characters(s: Seq<char>)
    ensures
        forall|c: char|
            #[trigger] without_underscores(s).contains(c) <==> c != '_' && s.contains(c),
    decreases s.len(),
{
    if s.len() > 0 {
        let before = s.drop_last();
        kept_characters(before);
        let kept = without_underscores(before);
        assert forall|c: char|
            #[trigger] without_underscores(s).contains(c) <==> c != '_' && s.contains(c) by {
            assert(s.contains(c) <==> before.contains(c) || c == s.last()) by {
                if s.contains(c) {
                    let k = choose|k: int| 0 <= k < s.len() && s[k] == c;
                    if k < before.len() {
                        assert(before[k] == c);
                    }
                }
                if before.contains(c) {
                    let k = choose|k: int| 0 <= k < before.len() && before[k] == c;
                    assert(s[k] == c);
                }
                if c == s.last() {
                    assert(s[s.len() - 1] == c);
                }
            }
            let longer = kept.push(s.last());
            assert(longer.contains(c) <==> kept.contains(c) || c == s.last()) by {
                if longer.contains(c) {
                    let k = choose|k: int| 0 <= k < longer.len() && longer[k] == c;
                    if k < kept.len() {
                        assert(kept[k] == c);
                    }
                }
                if kept.contains(c) {
                    let k = choose|k: int| 0 <= k < kept.len() && kept[k] == c;
                    assert(longer[k] == c);
                }
                assert(longer[kept.len() as int] == s.last());
            }
            assert(kept.contains(c) <==> c != '_' && before.contains(c));
        }
    }
}

/// A decimal literal is zero where it has a zero and nothing else but
/// underscores.
pub proof fn decimal_zeros(raw: Seq<char>)
    requires
        forall|k: int|
            0 <= k < raw.len() ==> '0' <= #[trigger] raw[k] <= '9' || raw[k] == '_',
    ensures
        all_zero(raw) <==> raw.contains('0') && forall|k: int|
            0 <= k < raw.len() ==> #[trigger] raw[k] == '0' || raw[k] == '_',
{
    kept_characters(raw);
    let s = without_underscores(raw);
    assert forall|k: int| 0 <= k < s.len() implies '0' <= #[trigger] s[k] <= '9' by {
        assert(s.contains(s[k]));
        assert(raw.contains(s[k]));
    }
    assert(int_digits(raw) == s);
    if all_zero(raw) {
        assert(s.contains(s[0]));
        assert forall|k: int| 0 <= k < raw.len() implies #[trigger] raw[k] == '0' || raw[k]
            == '_' by {
            assert(raw.contains(raw[k]));
            if raw[k] != '_' {
                assert(s.contains(raw[k]));
            }
        }
    }
    if raw.contains('0') && forall|k: int|
        0 <= k < raw.len() ==> #[trigger] raw[k] == '0' || raw[k] == '_' {
        assert(s.contains('0'));
        assert forall|k: int| 0 <= k < s.len() implies #[trigger] s[k] == '0' by {
            assert(s.contains(s[k]));
            assert(raw.contains(s[k]));
        }
    }
}

proof fn prefix_is_kept(raw: Seq<char>)
    requires
        raw.len() >= 2,
        raw[0] != '_',
        raw[1] != '_',
    ensures
        without_underscores(raw) == raw.take(2) + without_underscores(raw.skip(2)),
    decreases raw.len(),
{
    if raw.len() == 2 {
        assert(raw.skip(2).len() == 0);
        let one = raw.drop_last();
        let none = one.drop_last();
        assert(none.len() == 0);
        assert(without_underscores(none) =~= none);
        assert(one.last() == raw[0] && raw.last() == raw[1]);
        assert(without_underscores(one) =~= none.push(raw[0]));
        assert(without_underscores(raw) =~= raw);
        assert(without_underscores(raw.skip(2)) =~= Seq::<char>::empty());
        assert(raw.take(2) + without_underscores(raw.skip(2)) =~= raw);
    } else {
        let before = raw.drop_last();
        prefix_is_kept(before);
        assert(before.take(2) =~= raw.take(2));
        assert(raw.skip(2).drop_last() =~= before.skip(2));
        assert(raw.skip(2).last() == raw.last());
        assert(without_underscores(raw) =~= raw.take(2) + without_underscores(raw.skip(2)));
    }
}

/// A literal in another base is zero where what follows its prefix has a zero and
/// nothing else but underscores.
pub proof fn prefixed_zeros(raw: Seq<char>)
    requires
        raw.len() >= 2,
        raw[0] == '0',
        raw[1] == 'b' || raw[1] == 'B' || raw[1] == 'o' || raw[1] == 'O' || raw[1] == 'x' || raw[1]
            == 'X',
    ensures
        all_zero(raw) <==> raw.skip(2).contains('0') && forall|k: int|
            2 <= k < raw.len() ==> #[trigger] raw[k] == '0' || raw[k] == '_',
{
    prefix_is_kept(raw);
    let rest = raw.skip(2);
    kept_characters(rest);
    let d = without_underscores(rest);
    assert(without_underscores(raw).skip(2) =~= d);
    assert(int_digits(raw) == d);
    if all_zero(raw) {
        assert(d.contains(d[0]));
        assert forall|k: int| 2 <= k < raw.len() implies #[trigger] raw[k] == '0' || raw[k]
            == '_' by {
            assert(rest[k - 2] == raw[k]);
            assert(rest.contains(raw[k]));
            if raw[k] != '_' {
                assert(d.contains(raw[k]));
            }
        }
    }
    if rest.contains('0') && forall|k: int|
        2 <= k < raw.len() ==> #[trigger] raw[k] == '0' || raw[k] == '_' {
        assert(d.contains('0'));
        assert forall|k: int| 0 <= k < d.len() implies #[trigger] d[k] == '0' by {
            assert(d.contains(d[k]));
            assert(rest.contains(d[k]));
            let j = choose|j: int| 0 <= j < rest.len() && rest[j] == d[k];
            assert(raw[j + 2] == d[k]);
        }
    }
}

/// A literal is a zero by its digits, a float by its value, and no other
/// expression is one.
pub proof fn zeros_are_literals(e: Expr)
    ensures
        literal_zero(e) <==> match e {
            Expr::Literal(Literal::IntDec { raw, span: _ }) => all_zero(raw@),
            Expr::Literal(Literal::IntBin { raw, span: _ }) => all_zero(raw@),
            Expr::Literal(Literal::IntOct { raw, span: _ }) => all_zero(raw@),
            Expr::Literal(Literal::IntHex { raw, span: _ }) => all_zero(raw@),
            Expr::Literal(Literal::Float { raw: _, zero, span: _ }) => zero,
            _ => false,
        },
{
}

/// A parameter of the function in a quote has for its entity the constructor of
/// its type, or where it may be missing the constructor of what it may be.
pub proof fn parameters_have_their_entities(
    b: BuiltinTyCons,
    tycons: Seq<TyConDecl>,
    tb: Table,
    quote: TyConId,
    args: Seq<Ty>,
    params: Seq<Ty>,
    i: int,
    id: TyConId,
    sub: Seq<Ty>,
)
    requires
        quote.0 < tycons.len(),
        tycons[quote.0 as int].name@ == "Quote"@,
        args.len() > 0,
        resolve(tb, args[0]) is Fn,
        (resolve(tb, args[0]))->Fn_params == params,
        0 <= i < params.len(),
        resolve(tb, params[i]) == Ty::Con(id, sub),
    ensures
        slot_of(tycons, tb, Ty::Con(quote, args), i) == Some(Ty::Con(id, sub)),
        id != b.option ==> entity_of(b, tb, Ty::Con(id, sub)) == Some(id),
        id == b.option && sub.len() > 0 ==> (resolve(tb, sub[0]) matches Ty::Con(e, _) ==> entity_of(
            b,
            tb,
            Ty::Con(id, sub),
        ) == Some(e)),
{
}

/// A quote whose body names a record has that record for its result, with as many
/// new arguments as the record has parameters.
pub proof fn named_records_are_results(
    tb: Table,
    tycons: Seq<TyConDecl>,
    v: TyVid,
    target: TyConId,
)
    requires
        v.0 < tb.types.len(),
        tb.types[v.0 as int] is None,
        target.0 < tycons.len(),
        tb.types.len() + tycons[target.0 as int].arity <= u32::MAX,
    ensures
        look(pinned(tb, tycons, Ty::Var(v), target), v) matches Ty::Con(id, args) && id == target
            && args.len() == tycons[target.0 as int].arity && forall|i: int|
            0 <= i < args.len() ==> (#[trigger] args[i]) == Ty::Var(
                TyVid((tb.types.len() + i) as u32),
            ),
{
    let n = tycons[target.0 as int].arity as nat;
    let grown = Table { types: with_slots(tb.types, n), ..tb };
    let args = fresh_vars(tb.types.len(), n).map_values(|w: TyVid| Ty::Var(w));
    let t = Ty::Con(target, args);
    assert(grown.types[v.0 as int] is None);
    assert forall|i: int| 0 <= i < args.len() implies #[trigger] args[i] == Ty::Var(
        TyVid((tb.types.len() + i) as u32),
    ) && look(grown, TyVid((tb.types.len() + i) as u32)) == args[i] && args[i] != Ty::Var(v) by {}
    assert forall|w: TyVid| occurs(w, t) implies #[trigger] look(grown, w) == Ty::Var(w) && w != v by {
        assert(occurs_any(w, args));
        let i = choose|i: int| 0 <= i < args.len() && occurs(w, #[trigger] args[i]);
        assert(args[i] == Ty::Var(TyVid((tb.types.len() + i) as u32)));
    }
    assert forall|c: CapVid| !cap_occurs(c, t) by {
        assert(!cap_occurs_any(c, args)) by {
            assert forall|i: int| 0 <= i < args.len() implies !cap_occurs(
                c,
                #[trigger] args[i],
            ) by {
                assert(args[i] == Ty::Var(TyVid((tb.types.len() + i) as u32)));
            }
        }
    }
    apply_fixed(t, |w: TyVid| look(grown, w), |c: CapVid| look_cap(grown, c));
    assert(!occurs(v, t)) by {
        assert(look(grown, v) == Ty::Var(v));
    }
    variables_take_types(grown, v, t);
}

} // verus!
