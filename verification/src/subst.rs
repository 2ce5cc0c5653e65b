use vstd::prelude::*;

use crate::types::{CapRow, CapVid, Ty, TyVid};

verus! {

broadcast use crate::types::group_views;

/// A type with every variable replaced: type variables by `f`, capability
/// variables by `g`.
pub open spec fn apply(
    t: Ty,
    f: spec_fn(TyVid) -> Ty,
    g: spec_fn(CapVid) -> CapRow,
) -> Ty
    decreases t,
{
    match t {
        Ty::Var(v) => f(v),
        Ty::Con(id, args) => Ty::Con(id, apply_all(args, f, g)),
        Ty::Fn { params, ret, caps } => Ty::Fn {
            params: apply_all(params, f, g),
            ret: Box::new(apply(*ret, f, g)),
            caps: apply_caps(caps, g),
        },
        Ty::Tuple(elems) => Ty::Tuple(apply_all(elems, f, g)),
        Ty::Record { fields, tail } => Ty::Record { fields: apply_fields(fields, f, g), tail },
        Ty::Alias { name, body } => Ty::Alias { name, body: Box::new(apply(*body, f, g)) },
        Ty::Rigid { id, name } => t,
        Ty::Error => t,
    }
}

pub open spec fn apply_caps(c: CapRow, g: spec_fn(CapVid) -> CapRow) -> CapRow {
    match c {
        CapRow::Concrete(_) => c,
        CapRow::Var(v) => g(v),
    }
}

pub open spec fn apply_all(
    ts: Seq<Ty>,
    f: spec_fn(TyVid) -> Ty,
    g: spec_fn(CapVid) -> CapRow,
) -> Seq<Ty>
    decreases ts,
{
    Seq::new(
        ts.len(),
        |i: int|
            if 0 <= i < ts.len() {
                apply(ts[i], f, g)
            } else {
                Ty::Error
            },
    )
}

pub open spec fn apply_fields(
    fs: Seq<(Seq<char>, Ty)>,
    f: spec_fn(TyVid) -> Ty,
    g: spec_fn(CapVid) -> CapRow,
) -> Seq<(Seq<char>, Ty)>
    decreases fs,
{
    Seq::new(
        fs.len(),
        |i: int|
            if 0 <= i < fs.len() {
                (fs[i].0, apply(fs[i].1, f, g))
            } else {
                (Seq::empty(), Ty::Error)
            },
    )
}

/// Type variable `v` occurs in `t`.
pub open spec fn occurs(v: TyVid, t: Ty) -> bool
    decreases t,
{
    match t {
        Ty::Var(w) => v == w,
        Ty::Con(_, args) => occurs_any(v, args),
        Ty::Fn { params, ret, caps } => occurs_any(v, params) || occurs(v, *ret),
        Ty::Tuple(elems) => occurs_any(v, elems),
        Ty::Record { fields, tail } => occurs_field(v, fields),
        Ty::Alias { name, body } => occurs(v, *body),
        Ty::Rigid { id, name } => false,
        Ty::Error => false,
    }
}

pub open spec fn occurs_any(v: TyVid, ts: Seq<Ty>) -> bool
    decreases ts,
{
    exists|i: int| 0 <= i < ts.len() && occurs(v, #[trigger] ts[i])
}

pub open spec fn occurs_field(v: TyVid, fs: Seq<(Seq<char>, Ty)>) -> bool
    decreases fs,
{
    exists|i: int| 0 <= i < fs.len() && occurs(v, (#[trigger] fs[i]).1)
}

/// Capability variable `c` occurs in `t`.
pub open spec fn cap_occurs(c: CapVid, t: Ty) -> bool
    decreases t,
{
    match t {
        Ty::Var(_) => false,
        Ty::Con(_, args) => cap_occurs_any(c, args),
        Ty::Fn { params, ret, caps } => cap_occurs_any(c, params) || cap_occurs(c, *ret) || caps
            == CapRow::Var(c),
        Ty::Tuple(elems) => cap_occurs_any(c, elems),
        Ty::Record { fields, tail } => cap_occurs_field(c, fields),
        Ty::Alias { name, body } => cap_occurs(c, *body),
        Ty::Rigid { id, name } => false,
        Ty::Error => false,
    }
}

pub open spec fn cap_occurs_any(c: CapVid, ts: Seq<Ty>) -> bool
    decreases ts,
{
    exists|i: int| 0 <= i < ts.len() && cap_occurs(c, #[trigger] ts[i])
}

pub open spec fn cap_occurs_field(c: CapVid, fs: Seq<(Seq<char>, Ty)>) -> bool
    decreases fs,
{
    exists|i: int| 0 <= i < fs.len() && cap_occurs(c, (#[trigger] fs[i]).1)
}

/// Replacements that agree on the variables of a type give the same type.
pub proof fn apply_agree(
    t: Ty,
    f: spec_fn(TyVid) -> Ty,
    g: spec_fn(CapVid) -> CapRow,
    f2: spec_fn(TyVid) -> Ty,
    g2: spec_fn(CapVid) -> CapRow,
)
    requires
        forall|v: TyVid| occurs(v, t) ==> #[trigger] f(v) == f2(v),
        forall|c: CapVid| cap_occurs(c, t) ==> #[trigger] g(c) == g2(c),
    ensures
        apply(t, f, g) == apply(t, f2, g2),
    decreases t,
{
    match t {
        Ty::Con(_, args) => apply_all_agree(args, f, g, f2, g2),
        Ty::Fn { params, ret, caps } => {
            apply_all_agree(params, f, g, f2, g2);
            apply_agree(*ret, f, g, f2, g2);
        },
        Ty::Tuple(elems) => apply_all_agree(elems, f, g, f2, g2),
        Ty::Record { fields, tail } => apply_fields_agree(fields, f, g, f2, g2),
        Ty::Alias { name, body } => apply_agree(*body, f, g, f2, g2),
        _ => {},
    }
}

pub proof fn apply_all_agree(
    ts: Seq<Ty>,
    f: spec_fn(TyVid) -> Ty,
    g: spec_fn(CapVid) -> CapRow,
    f2: spec_fn(TyVid) -> Ty,
    g2: spec_fn(CapVid) -> CapRow,
)
    requires
        forall|v: TyVid| occurs_any(v, ts) ==> #[trigger] f(v) == f2(v),
        forall|c: CapVid| cap_occurs_any(c, ts) ==> #[trigger] g(c) == g2(c),
    ensures
        apply_all(ts, f, g) == apply_all(ts, f2, g2),
    decreases ts,
{
    assert forall|i: int| 0 <= i < ts.len() implies #[trigger] apply_all(ts, f, g)[i] == apply_all(
        ts,
        f2,
        g2,
    )[i] by {
        apply_agree(ts[i], f, g, f2, g2);
    }
    assert(apply_all(ts, f, g) =~= apply_all(ts, f2, g2));
}

pub proof fn apply_fields_agree(
    fs: Seq<(Seq<char>, Ty)>,
    f: spec_fn(TyVid) -> Ty,
    g: spec_fn(CapVid) -> CapRow,
    f2: spec_fn(TyVid) -> Ty,
    g2: spec_fn(CapVid) -> CapRow,
)
    requires
        forall|v: TyVid| occurs_field(v, fs) ==> #[trigger] f(v) == f2(v),
        forall|c: CapVid| cap_occurs_field(c, fs) ==> #[trigger] g(c) == g2(c),
    ensures
        apply_fields(fs, f, g) == apply_fields(fs, f2, g2),
    decreases fs,
{
    assert forall|i: int| 0 <= i < fs.len() implies #[trigger] apply_fields(fs, f, g)[i]
        == apply_fields(fs, f2, g2)[i] by {
        apply_agree(fs[i].1, f, g, f2, g2);
    }
    assert(apply_fields(fs, f, g) =~= apply_fields(fs, f2, g2));
}

/// Replacing one after the other is replacing by the composition.
pub proof fn apply_twice(
    t: Ty,
    f: spec_fn(TyVid) -> Ty,
    g: spec_fn(CapVid) -> CapRow,
    f2: spec_fn(TyVid) -> Ty,
    g2: spec_fn(CapVid) -> CapRow,
)
    ensures
        apply(apply(t, f, g), f2, g2) == apply(
            t,
            |v: TyVid| apply(f(v), f2, g2),
            |c: CapVid| apply_caps(g(c), g2),
        ),
    decreases t,
{
    match t {
        Ty::Con(_, args) => apply_all_twice(args, f, g, f2, g2),
        Ty::Fn { params, ret, caps } => {
            apply_all_twice(params, f, g, f2, g2);
            apply_twice(*ret, f, g, f2, g2);
        },
        Ty::Tuple(elems) => apply_all_twice(elems, f, g, f2, g2),
        Ty::Record { fields, tail } => apply_fields_twice(fields, f, g, f2, g2),
        Ty::Alias { name, body } => apply_twice(*body, f, g, f2, g2),
        _ => {},
    }
}

proof fn apply_all_twice(
    ts: Seq<Ty>,
    f: spec_fn(TyVid) -> Ty,
    g: spec_fn(CapVid) -> CapRow,
    f2: spec_fn(TyVid) -> Ty,
    g2: spec_fn(CapVid) -> CapRow,
)
    ensures
        apply_all(apply_all(ts, f, g), f2, g2) == apply_all(
            ts,
            |v: TyVid| apply(f(v), f2, g2),
            |c: CapVid| apply_caps(g(c), g2),
        ),
    decreases ts,
{
    let h = |v: TyVid| apply(f(v), f2, g2);
    let k = |c: CapVid| apply_caps(g(c), g2);
    assert forall|i: int| 0 <= i < ts.len() implies #[trigger] apply_all(
        apply_all(ts, f, g),
        f2,
        g2,
    )[i] == apply_all(ts, h, k)[i] by {
        apply_twice(ts[i], f, g, f2, g2);
    }
    assert(apply_all(apply_all(ts, f, g), f2, g2) =~= apply_all(ts, h, k));
}

proof fn apply_fields_twice(
    fs: Seq<(Seq<char>, Ty)>,
    f: spec_fn(TyVid) -> Ty,
    g: spec_fn(CapVid) -> CapRow,
    f2: spec_fn(TyVid) -> Ty,
    g2: spec_fn(CapVid) -> CapRow,
)
    ensures
        apply_fields(apply_fields(fs, f, g), f2, g2) == apply_fields(
            fs,
            |v: TyVid| apply(f(v), f2, g2),
            |c: CapVid| apply_caps(g(c), g2),
        ),
    decreases fs,
{
    let h = |v: TyVid| apply(f(v), f2, g2);
    let k = |c: CapVid| apply_caps(g(c), g2);
    assert forall|i: int| 0 <= i < fs.len() implies #[trigger] apply_fields(
        apply_fields(fs, f, g),
        f2,
        g2,
    )[i] == apply_fields(fs, h, k)[i] by {
        apply_twice(fs[i].1, f, g, f2, g2);
    }
    assert(apply_fields(apply_fields(fs, f, g), f2, g2) =~= apply_fields(fs, h, k));
}

/// Replacing every variable by itself changes nothing.
pub proof fn apply_identity(t: Ty)
    ensures
        apply(t, |v: TyVid| Ty::Var(v), |c: CapVid| CapRow::Var(c)) == t,
    decreases t,
{
    let f = |v: TyVid| Ty::Var(v);
    let g = |c: CapVid| CapRow::Var(c);
    match t {
        Ty::Con(_, args) => apply_all_identity(args),
        Ty::Fn { params, ret, caps } => {
            apply_all_identity(params);
            apply_identity(*ret);
        },
        Ty::Tuple(elems) => apply_all_identity(elems),
        Ty::Record { fields, tail } => {
            assert forall|i: int| 0 <= i < fields.len() implies #[trigger] apply_fields(
                fields,
                f,
                g,
            )[i] == fields[i] by {
                apply_identity(fields[i].1);
            }
            assert(apply_fields(fields, f, g) =~= fields);
        },
        Ty::Alias { name, body } => apply_identity(*body),
        _ => {},
    }
}

proof fn apply_all_identity(ts: Seq<Ty>)
    ensures
        apply_all(ts, |v: TyVid| Ty::Var(v), |c: CapVid| CapRow::Var(c)) == ts,
    decreases ts,
{
    let f = |v: TyVid| Ty::Var(v);
    let g = |c: CapVid| CapRow::Var(c);
    assert forall|i: int| 0 <= i < ts.len() implies #[trigger] apply_all(ts, f, g)[i] == ts[i] by {
        apply_identity(ts[i]);
    }
    assert(apply_all(ts, f, g) =~= ts);
}

/// A type where every variable stands for itself is left as it is.
pub proof fn apply_fixed(t: Ty, f: spec_fn(TyVid) -> Ty, g: spec_fn(CapVid) -> CapRow)
    requires
        forall|v: TyVid| occurs(v, t) ==> #[trigger] f(v) == Ty::Var(v),
        forall|c: CapVid| cap_occurs(c, t) ==> #[trigger] g(c) == CapRow::Var(c),
    ensures
        apply(t, f, g) == t,
{
    let f2 = |v: TyVid| Ty::Var(v);
    let g2 = |c: CapVid| CapRow::Var(c);
    apply_agree(t, f, g, f2, g2);
    apply_identity(t);
}

/// What occurs after a replacement comes from what occurred before it.
pub proof fn occurs_apply(
    t: Ty,
    f: spec_fn(TyVid) -> Ty,
    g: spec_fn(CapVid) -> CapRow,
    w: TyVid,
)
    ensures
        occurs(w, apply(t, f, g)) <==> exists|v: TyVid|
            #[trigger] occurs(v, t) && occurs(w, f(v)),
    decreases t,
{
    let r = apply(t, f, g);
    match t {
        Ty::Var(v) => {
            assert(occurs(v, t));
            if occurs(w, r) {
                assert(occurs(v, t) && occurs(w, f(v)));
            }
        },
        Ty::Con(_, args) => {
            occurs_apply_all(args, f, g, w);
            if occurs(w, r) {
                let v = choose|v: TyVid| #[trigger] occurs_any(v, args) && occurs(w, f(v));
                assert(occurs(v, t));
            }
            if exists|v: TyVid| #[trigger] occurs(v, t) && occurs(w, f(v)) {
                let v = choose|v: TyVid| #[trigger] occurs(v, t) && occurs(w, f(v));
                assert(occurs_any(v, args) && occurs(w, f(v)));
            }
        },
        Ty::Fn { params, ret, caps } => {
            occurs_apply_all(params, f, g, w);
            occurs_apply(*ret, f, g, w);
            if occurs(w, r) {
                if occurs_any(w, apply_all(params, f, g)) {
                    let v = choose|v: TyVid| #[trigger] occurs_any(v, params) && occurs(w, f(v));
                    assert(occurs(v, t));
                } else {
                    let v = choose|v: TyVid| #[trigger] occurs(v, *ret) && occurs(w, f(v));
                    assert(occurs(v, t));
                }
            }
            if exists|v: TyVid| #[trigger] occurs(v, t) && occurs(w, f(v)) {
                let v = choose|v: TyVid| #[trigger] occurs(v, t) && occurs(w, f(v));
                if occurs_any(v, params) {
                    assert(occurs_any(v, params) && occurs(w, f(v)));
                } else {
                    assert(occurs(v, *ret) && occurs(w, f(v)));
                }
            }
        },
        Ty::Tuple(elems) => {
            occurs_apply_all(elems, f, g, w);
            if occurs(w, r) {
                let v = choose|v: TyVid| #[trigger] occurs_any(v, elems) && occurs(w, f(v));
                assert(occurs(v, t));
            }
            if exists|v: TyVid| #[trigger] occurs(v, t) && occurs(w, f(v)) {
                let v = choose|v: TyVid| #[trigger] occurs(v, t) && occurs(w, f(v));
                assert(occurs_any(v, elems) && occurs(w, f(v)));
            }
        },
        Ty::Record { fields, tail } => {
            occurs_apply_fields(fields, f, g, w);
            if occurs(w, r) {
                let v = choose|v: TyVid| #[trigger] occurs_field(v, fields) && occurs(w, f(v));
                assert(occurs(v, t));
            }
            if exists|v: TyVid| #[trigger] occurs(v, t) && occurs(w, f(v)) {
                let v = choose|v: TyVid| #[trigger] occurs(v, t) && occurs(w, f(v));
                assert(occurs_field(v, fields) && occurs(w, f(v)));
            }
        },
        Ty::Alias { name, body } => {
            occurs_apply(*body, f, g, w);
            if occurs(w, r) {
                let v = choose|v: TyVid| #[trigger] occurs(v, *body) && occurs(w, f(v));
                assert(occurs(v, t));
            }
            if exists|v: TyVid| #[trigger] occurs(v, t) && occurs(w, f(v)) {
                let v = choose|v: TyVid| #[trigger] occurs(v, t) && occurs(w, f(v));
                assert(occurs(v, *body) && occurs(w, f(v)));
            }
        },
        _ => {},
    }
}

proof fn occurs_apply_all(
    ts: Seq<Ty>,
    f: spec_fn(TyVid) -> Ty,
    g: spec_fn(CapVid) -> CapRow,
    w: TyVid,
)
    ensures
        occurs_any(w, apply_all(ts, f, g)) <==> exists|v: TyVid|
            #[trigger] occurs_any(v, ts) && occurs(w, f(v)),
    decreases ts,
{
    let rs = apply_all(ts, f, g);
    if occurs_any(w, rs) {
        let i = choose|i: int| 0 <= i < rs.len() && occurs(w, #[trigger] rs[i]);
        occurs_apply(ts[i], f, g, w);
        let v = choose|v: TyVid| #[trigger] occurs(v, ts[i]) && occurs(w, f(v));
        assert(occurs_any(v, ts));
    }
    if exists|v: TyVid| #[trigger] occurs_any(v, ts) && occurs(w, f(v)) {
        let v = choose|v: TyVid| #[trigger] occurs_any(v, ts) && occurs(w, f(v));
        let i = choose|i: int| 0 <= i < ts.len() && occurs(v, #[trigger] ts[i]);
        occurs_apply(ts[i], f, g, w);
        assert(occurs(v, ts[i]) && occurs(w, f(v)));
        assert(occurs(w, rs[i]));
    }
}

proof fn occurs_apply_fields(
    fs: Seq<(Seq<char>, Ty)>,
    f: spec_fn(TyVid) -> Ty,
    g: spec_fn(CapVid) -> CapRow,
    w: TyVid,
)
    ensures
        occurs_field(w, apply_fields(fs, f, g)) <==> exists|v: TyVid|
            #[trigger] occurs_field(v, fs) && occurs(w, f(v)),
    decreases fs,
{
    let rs = apply_fields(fs, f, g);
    if occurs_field(w, rs) {
        let i = choose|i: int| 0 <= i < rs.len() && occurs(w, (#[trigger] rs[i]).1);
        occurs_apply(fs[i].1, f, g, w);
        let v = choose|v: TyVid| #[trigger] occurs(v, fs[i].1) && occurs(w, f(v));
        assert(occurs_field(v, fs));
    }
    if exists|v: TyVid| #[trigger] occurs_field(v, fs) && occurs(w, f(v)) {
        let v = choose|v: TyVid| #[trigger] occurs_field(v, fs) && occurs(w, f(v));
        let i = choose|i: int| 0 <= i < fs.len() && occurs(v, (#[trigger] fs[i]).1);
        occurs_apply(fs[i].1, f, g, w);
        assert(occurs(v, fs[i].1) && occurs(w, f(v)));
        assert(occurs(w, rs[i].1));
    }
}

} // verus!
