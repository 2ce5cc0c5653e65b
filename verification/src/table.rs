use vstd::prelude::*;

use crate::subst::{
    apply, apply_agree, apply_all, apply_caps, apply_fields, apply_fixed, apply_twice, cap_occurs,
    cap_occurs_any, cap_occurs_field, occurs, occurs_any, occurs_field,
};
use crate::types::{field_views, views, CapRow, CapVid, Ty, TyVid, Type};

verus! {

broadcast use crate::types::group_views;

/// What inference knows of the variables: what each type variable and each
/// capability variable is bound to.
#[verifier::ext_equal]
pub struct Table {
    pub types: Seq<Option<Ty>>,
    pub caps: Seq<Option<CapRow>>,
}

/// What a type variable stands for.
pub open spec fn look(tb: Table, v: TyVid) -> Ty {
    if v.0 < tb.types.len() && tb.types[v.0 as int] is Some {
        tb.types[v.0 as int]->0
    } else {
        Ty::Var(v)
    }
}

/// What a capability variable stands for.
pub open spec fn look_cap(tb: Table, c: CapVid) -> CapRow {
    if c.0 < tb.caps.len() && tb.caps[c.0 as int] is Some {
        tb.caps[c.0 as int]->0
    } else {
        CapRow::Var(c)
    }
}

/// A type with everything filled in that is known of its variables.
pub open spec fn resolve(tb: Table, t: Ty) -> Ty {
    apply(t, |v: TyVid| look(tb, v), |c: CapVid| look_cap(tb, c))
}

/// Every binding is filled in itself, and none is its own variable.
pub open spec fn solved(tb: Table) -> bool {
    &&& forall|v: int|
        0 <= v < tb.types.len() && (#[trigger] tb.types[v]) is Some ==> resolve(
            tb,
            tb.types[v]->0,
        ) == tb.types[v]->0 && tb.types[v]->0 != Ty::Var(TyVid(v as u32))
    &&& forall|c: int|
        0 <= c < tb.caps.len() && (#[trigger] tb.caps[c]) is Some ==> apply_caps(
            tb.caps[c]->0,
            |k: CapVid| look_cap(tb, k),
        ) == tb.caps[c]->0
    &&& tb.types.len() <= u32::MAX
    &&& tb.caps.len() <= u32::MAX
}

/// Type variable `v` is in the table and not bound.
pub open spec fn open_var(tb: Table, v: TyVid) -> bool {
    v.0 < tb.types.len() && tb.types[v.0 as int] is None
}

/// The replacement of one variable.
pub open spec fn one(v: TyVid, t: Ty) -> spec_fn(TyVid) -> Ty {
    |w: TyVid|
        if w == v {
            t
        } else {
            Ty::Var(w)
        }
}

/// Every capability variable stays.
pub open spec fn same_caps() -> spec_fn(CapVid) -> CapRow {
    |c: CapVid| CapRow::Var(c)
}

/// The table after binding the open variable `v` to `t`.
pub open spec fn bound(tb: Table, v: TyVid, t: Ty) -> Table {
    Table {
        types: Seq::new(
            tb.types.len(),
            |u: int|
                if u == v.0 {
                    Some(t)
                } else {
                    match tb.types[u] {
                        Some(x) => Some(apply(x, one(v, t), same_caps())),
                        None => None,
                    }
                },
        ),
        caps: tb.caps,
    }
}

/// A type that a replacement leaves as it is holds only variables that stand
/// for themselves.
pub proof fn fixed_vars(t: Ty, f: spec_fn(TyVid) -> Ty, g: spec_fn(CapVid) -> CapRow)
    requires
        apply(t, f, g) == t,
    ensures
        forall|v: TyVid| occurs(v, t) ==> #[trigger] f(v) == Ty::Var(v),
        forall|c: CapVid| cap_occurs(c, t) ==> #[trigger] g(c) == CapRow::Var(c),
    decreases t,
{
    match t {
        Ty::Con(_, args) => fixed_vars_all(args, f, g),
        Ty::Fn { params, ret, caps } => {
            fixed_vars_all(params, f, g);
            fixed_vars(*ret, f, g);
        },
        Ty::Tuple(elems) => fixed_vars_all(elems, f, g),
        Ty::Record { fields, tail } => fixed_vars_fields(fields, f, g),
        Ty::Alias { name, body } => fixed_vars(*body, f, g),
        _ => {},
    }
}

proof fn fixed_vars_all(ts: Seq<Ty>, f: spec_fn(TyVid) -> Ty, g: spec_fn(CapVid) -> CapRow)
    requires
        apply_all(ts, f, g) == ts,
    ensures
        forall|v: TyVid| occurs_any(v, ts) ==> #[trigger] f(v) == Ty::Var(v),
        forall|c: CapVid| cap_occurs_any(c, ts) ==> #[trigger] g(c) == CapRow::Var(c),
    decreases ts,
{
    assert forall|v: TyVid| occurs_any(v, ts) implies #[trigger] f(v) == Ty::Var(v) by {
        let i = choose|i: int| 0 <= i < ts.len() && occurs(v, #[trigger] ts[i]);
        assert(apply_all(ts, f, g)[i] == ts[i]);
        fixed_vars(ts[i], f, g);
    }
    assert forall|c: CapVid| cap_occurs_any(c, ts) implies #[trigger] g(c) == CapRow::Var(c) by {
        let i = choose|i: int| 0 <= i < ts.len() && cap_occurs(c, #[trigger] ts[i]);
        assert(apply_all(ts, f, g)[i] == ts[i]);
        fixed_vars(ts[i], f, g);
    }
}

proof fn fixed_vars_fields(
    fs: Seq<(Seq<char>, Ty)>,
    f: spec_fn(TyVid) -> Ty,
    g: spec_fn(CapVid) -> CapRow,
)
    requires
        apply_fields(fs, f, g) == fs,
    ensures
        forall|v: TyVid| occurs_field(v, fs) ==> #[trigger] f(v) == Ty::Var(v),
        forall|c: CapVid| cap_occurs_field(c, fs) ==> #[trigger] g(c) == CapRow::Var(c),
    decreases fs,
{
    assert forall|v: TyVid| occurs_field(v, fs) implies #[trigger] f(v) == Ty::Var(v) by {
        let i = choose|i: int| 0 <= i < fs.len() && occurs(v, (#[trigger] fs[i]).1);
        assert(apply_fields(fs, f, g)[i] == fs[i]);
        fixed_vars(fs[i].1, f, g);
    }
    assert forall|c: CapVid| cap_occurs_field(c, fs) implies #[trigger] g(c) == CapRow::Var(c) by {
        let i = choose|i: int| 0 <= i < fs.len() && cap_occurs(c, (#[trigger] fs[i]).1);
        assert(apply_fields(fs, f, g)[i] == fs[i]);
        fixed_vars(fs[i].1, f, g);
    }
}

/// Resolving a second time changes nothing.
pub proof fn resolve_idempotent(tb: Table, t: Ty)
    requires
        solved(tb),
    ensures
        resolve(tb, resolve(tb, t)) == resolve(tb, t),
{
    let f = |v: TyVid| look(tb, v);
    let g = |c: CapVid| look_cap(tb, c);
    apply_twice(t, f, g, f, g);
    let f2 = |v: TyVid| apply(f(v), f, g);
    let g2 = |c: CapVid| apply_caps(g(c), g);
    assert forall|v: TyVid| #[trigger] f2(v) == f(v) by {
        if v.0 < tb.types.len() && tb.types[v.0 as int] is Some {
            assert(resolve(tb, tb.types[v.0 as int]->0) == tb.types[v.0 as int]->0);
        }
    }
    assert forall|c: CapVid| #[trigger] g2(c) == g(c) by {
        if c.0 < tb.caps.len() && tb.caps[c.0 as int] is Some {
            assert(tb.caps[c.0 as int] is Some);
        }
    }
    apply_agree(t, f2, g2, f, g);
}

/// A resolved type holds no bound variable.
pub proof fn resolved_vars_open(tb: Table, t: Ty, v: TyVid)
    requires
        solved(tb),
        resolve(tb, t) == t,
        occurs(v, t),
    ensures
        look(tb, v) == Ty::Var(v),
        v.0 < tb.types.len() ==> tb.types[v.0 as int] is None,
{
    let f = |w: TyVid| look(tb, w);
    let g = |c: CapVid| look_cap(tb, c);
    fixed_vars(t, f, g);
    assert(f(v) == Ty::Var(v));
    if v.0 < tb.types.len() && tb.types[v.0 as int] is Some {
        assert(tb.types[v.0 as int]->0 != Ty::Var(TyVid(v.0 as int as u32)));
    }
}

/// Binding a variable refines every type by exactly that replacement.
pub proof fn resolve_bound(tb: Table, v: TyVid, t: Ty, x: Ty)
    requires
        open_var(tb, v),
    ensures
        resolve(bound(tb, v, t), x) == apply(resolve(tb, x), one(v, t), same_caps()),
{
    let tc = bound(tb, v, t);
    let f = |w: TyVid| look(tb, w);
    let g = |c: CapVid| look_cap(tb, c);
    apply_twice(x, f, g, one(v, t), same_caps());
    let f2 = |w: TyVid| apply(f(w), one(v, t), same_caps());
    let g2 = |c: CapVid| apply_caps(g(c), same_caps());
    let f3 = |w: TyVid| look(tc, w);
    let g3 = |c: CapVid| look_cap(tc, c);
    assert forall|w: TyVid| #[trigger] f3(w) == f2(w) by {}
    assert forall|c: CapVid| #[trigger] g3(c) == g2(c) by {}
    apply_agree(x, f3, g3, f2, g2);
}

/// Binding an open variable to a resolved type without it keeps the table solved.
pub proof fn bound_solved(tb: Table, v: TyVid, t: Ty)
    requires
        solved(tb),
        open_var(tb, v),
        resolve(tb, t) == t,
        !occurs(v, t),
    ensures
        solved(bound(tb, v, t)),
{
    let tc = bound(tb, v, t);
    let f = |w: TyVid| look(tb, w);
    let g = |c: CapVid| look_cap(tb, c);
    let f3 = |w: TyVid| look(tc, w);
    let g3 = |c: CapVid| look_cap(tc, c);
    assert(resolve(tc, t) == t) by {
        fixed_vars(t, f, g);
        assert forall|w: TyVid| occurs(w, t) implies #[trigger] f3(w) == Ty::Var(w) by {
            resolved_vars_open(tb, t, w);
        }
        assert forall|c: CapVid| cap_occurs(c, t) implies #[trigger] g3(c) == CapRow::Var(c) by {
            assert(g(c) == CapRow::Var(c));
        }
        apply_fixed(t, f3, g3);
    }
    assert forall|u: int| 0 <= u < tc.types.len() && (#[trigger] tc.types[u]) is Some implies resolve(
        tc,
        tc.types[u]->0,
    ) == tc.types[u]->0 && tc.types[u]->0 != Ty::Var(TyVid(u as u32)) by {
        if u == v.0 {
            if t == Ty::Var(v) {
                assert(occurs(v, t));
            }
        } else {
            assert(tb.types[u] is Some);
            let x = tb.types[u]->0;
            let y = tc.types[u]->0;
            assert(y == apply(x, one(v, t), same_caps()));
            apply_twice(x, one(v, t), same_caps(), f3, g3);
            let f4 = |w: TyVid| apply(one(v, t)(w), f3, g3);
            let g4 = |c: CapVid| apply_caps(same_caps()(c), g3);
            fixed_vars(x, f, g);
            assert forall|w: TyVid| occurs(w, x) implies #[trigger] f4(w) == one(v, t)(w) by {
                if w != v {
                    resolved_vars_open(tb, x, w);
                }
            }
            assert forall|c: CapVid| cap_occurs(c, x) implies #[trigger] g4(c) == same_caps()(
                c,
            ) by {
                assert(g(c) == CapRow::Var(c));
            }
            apply_agree(x, f4, g4, one(v, t), same_caps());
            let own = TyVid(u as u32);
            if y == Ty::Var(own) {
                if x == Ty::Var(v) {
                    assert(occurs(own, t));
                    resolved_vars_open(tb, t, own);
                }
            }
        }
    }
    assert forall|c: int| 0 <= c < tc.caps.len() && (#[trigger] tc.caps[c]) is Some implies apply_caps(
        tc.caps[c]->0,
        |k: CapVid| look_cap(tc, k),
    ) == tc.caps[c]->0 by {
        assert(tb.caps[c] is Some);
    }
}

/// The replacement of one capability variable.
pub open spec fn one_cap(c: CapVid, row: CapRow) -> spec_fn(CapVid) -> CapRow {
    |k: CapVid|
        if k == c {
            row
        } else {
            CapRow::Var(k)
        }
}

/// Every type variable stays.
pub open spec fn same_vars() -> spec_fn(TyVid) -> Ty {
    |v: TyVid| Ty::Var(v)
}

/// Capability variable `c` is in the table and not bound.
pub open spec fn open_cap(tb: Table, c: CapVid) -> bool {
    c.0 < tb.caps.len() && tb.caps[c.0 as int] is None
}

/// The table after binding the open capability variable `c` to `row`.
pub open spec fn bound_cap(tb: Table, c: CapVid, row: CapRow) -> Table {
    Table {
        types: Seq::new(
            tb.types.len(),
            |u: int|
                match tb.types[u] {
                    Some(x) => Some(apply(x, same_vars(), one_cap(c, row))),
                    None => None,
                },
        ),
        caps: Seq::new(
            tb.caps.len(),
            |k: int|
                if k == c.0 {
                    Some(row)
                } else {
                    match tb.caps[k] {
                        Some(r) => Some(apply_caps(r, one_cap(c, row))),
                        None => None,
                    }
                },
        ),
    }
}

/// Binding a capability variable refines every type by exactly that replacement.
pub proof fn resolve_bound_cap(tb: Table, c: CapVid, row: CapRow, x: Ty)
    requires
        open_cap(tb, c),
    ensures
        resolve(bound_cap(tb, c, row), x) == apply(resolve(tb, x), same_vars(), one_cap(c, row)),
{
    let tc = bound_cap(tb, c, row);
    let f = |w: TyVid| look(tb, w);
    let g = |k: CapVid| look_cap(tb, k);
    apply_twice(x, f, g, same_vars(), one_cap(c, row));
    let f2 = |w: TyVid| apply(f(w), same_vars(), one_cap(c, row));
    let g2 = |k: CapVid| apply_caps(g(k), one_cap(c, row));
    let f3 = |w: TyVid| look(tc, w);
    let g3 = |k: CapVid| look_cap(tc, k);
    assert forall|w: TyVid| #[trigger] f3(w) == f2(w) by {}
    assert forall|k: CapVid| #[trigger] g3(k) == g2(k) by {}
    apply_agree(x, f3, g3, f2, g2);
}

/// Binding an open capability variable to another resolved row keeps the table
/// solved.
pub proof fn bound_cap_solved(tb: Table, c: CapVid, row: CapRow)
    requires
        solved(tb),
        open_cap(tb, c),
        apply_caps(row, |k: CapVid| look_cap(tb, k)) == row,
        row != CapRow::Var(c),
    ensures
        solved(bound_cap(tb, c, row)),
{
    let tc = bound_cap(tb, c, row);
    let f = |w: TyVid| look(tb, w);
    let g = |k: CapVid| look_cap(tb, k);
    let f3 = |w: TyVid| look(tc, w);
    let g3 = |k: CapVid| look_cap(tc, k);
    assert(apply_caps(row, g3) == row);
    assert forall|u: int| 0 <= u < tc.types.len() && (#[trigger] tc.types[u]) is Some implies resolve(
        tc,
        tc.types[u]->0,
    ) == tc.types[u]->0 && tc.types[u]->0 != Ty::Var(TyVid(u as u32)) by {
        assert(tb.types[u] is Some);
        let x = tb.types[u]->0;
        apply_twice(x, same_vars(), one_cap(c, row), f3, g3);
        let f4 = |w: TyVid| apply(same_vars()(w), f3, g3);
        let g4 = |k: CapVid| apply_caps(one_cap(c, row)(k), g3);
        fixed_vars(x, f, g);
        assert forall|w: TyVid| occurs(w, x) implies #[trigger] f4(w) == same_vars()(w) by {
            resolved_vars_open(tb, x, w);
        }
        assert forall|k: CapVid| cap_occurs(k, x) implies #[trigger] g4(k) == one_cap(c, row)(
            k,
        ) by {
            assert(g(k) == CapRow::Var(k));
        }
        apply_agree(x, f4, g4, same_vars(), one_cap(c, row));
    }
    assert forall|k: int| 0 <= k < tc.caps.len() && (#[trigger] tc.caps[k]) is Some implies apply_caps(
        tc.caps[k]->0,
        |j: CapVid| look_cap(tc, j),
    ) == tc.caps[k]->0 by {
        assert((|j: CapVid| look_cap(tc, j)) =~= g3);
        if k != c.0 {
            assert(tb.caps[k] is Some);
            assert((|j: CapVid| look_cap(tb, j)) =~= g);
        }
    }
}

/// A new variable at the end of the table keeps it solved and changes no type
/// that does not mention it.
pub proof fn grow_solved(tb: Table)
    requires
        solved(tb),
        tb.types.len() < u32::MAX,
    ensures
        solved(Table { types: tb.types.push(None), ..tb }),
        forall|t: Ty| #[trigger]
            resolve(Table { types: tb.types.push(None), ..tb }, t) == resolve(tb, t),
{
    let tc = Table { types: tb.types.push(None), ..tb };
    assert forall|t: Ty| #[trigger] resolve(tc, t) == resolve(tb, t) by {
        let f = |w: TyVid| look(tb, w);
        let g = |c: CapVid| look_cap(tb, c);
        let f3 = |w: TyVid| look(tc, w);
        let g3 = |c: CapVid| look_cap(tc, c);
        assert forall|w: TyVid| #[trigger] f3(w) == f(w) by {}
        apply_agree(t, f3, g3, f, g);
    }
    assert forall|v: int| 0 <= v < tc.types.len() && (#[trigger] tc.types[v]) is Some implies resolve(
        tc,
        tc.types[v]->0,
    ) == tc.types[v]->0 && tc.types[v]->0 != Ty::Var(TyVid(v as u32)) by {
        assert(tb.types[v] is Some);
    }
    assert forall|c: int| 0 <= c < tc.caps.len() && (#[trigger] tc.caps[c]) is Some implies apply_caps(
        tc.caps[c]->0,
        |k: CapVid| look_cap(tc, k),
    ) == tc.caps[c]->0 by {
        assert(tb.caps[c] is Some);
        assert((|k: CapVid| look_cap(tc, k)) =~= (|k: CapVid| look_cap(tb, k)));
    }
}

/// A new capability variable at the end of the table keeps it solved and
/// changes no type.
pub proof fn grow_caps_solved(tb: Table)
    requires
        solved(tb),
        tb.caps.len() < u32::MAX,
    ensures
        solved(Table { caps: tb.caps.push(None), ..tb }),
        forall|t: Ty| #[trigger]
            resolve(Table { caps: tb.caps.push(None), ..tb }, t) == resolve(tb, t),
{
    let tc = Table { caps: tb.caps.push(None), ..tb };
    assert forall|t: Ty| #[trigger] resolve(tc, t) == resolve(tb, t) by {
        let f = |w: TyVid| look(tb, w);
        let g = |c: CapVid| look_cap(tb, c);
        let f3 = |w: TyVid| look(tc, w);
        let g3 = |c: CapVid| look_cap(tc, c);
        assert forall|c: CapVid| #[trigger] g3(c) == g(c) by {}
        apply_agree(t, f3, g3, f, g);
    }
    assert forall|v: int| 0 <= v < tc.types.len() && (#[trigger] tc.types[v]) is Some implies resolve(
        tc,
        tc.types[v]->0,
    ) == tc.types[v]->0 && tc.types[v]->0 != Ty::Var(TyVid(v as u32)) by {
        assert(tb.types[v] is Some);
    }
    assert forall|c: int| 0 <= c < tc.caps.len() && (#[trigger] tc.caps[c]) is Some implies apply_caps(
        tc.caps[c]->0,
        |k: CapVid| look_cap(tc, k),
    ) == tc.caps[c]->0 by {
        assert(tb.caps[c] is Some);
        let a = |k: CapVid| look_cap(tc, k);
        let b = |k: CapVid| look_cap(tb, k);
        assert forall|k: CapVid| #[trigger] a(k) == b(k) by {}
        assert(a =~= b);
    }
}

/// The substitution table of inference, kept in solved form.
pub struct VarTable {
    types: Vec<Option<Type>>,
    caps: Vec<Option<CapRow>>,
}

spec fn opt_view(o: Option<Type>) -> Option<Ty> {
    match o {
        Some(t) => Some(t@),
        None => None,
    }
}

impl VarTable {
    pub closed spec fn view(&self) -> Table {
        Table {
            types: Seq::new(self.types@.len(), |v: int| opt_view(self.types@[v])),
            caps: self.caps@,
        }
    }

    pub open spec fn wf(&self) -> bool {
        solved(self@)
    }

    /// The table without variables.
    pub fn new() -> (r: VarTable)
        ensures
            r.wf(),
            r@ == (Table { types: Seq::empty(), caps: Seq::empty() }),
    {
        let r = VarTable { types: Vec::new(), caps: Vec::new() };
        assert(r@ =~= (Table { types: Seq::empty(), caps: Seq::empty() }));
        r
    }

    /// The number of type variables.
    pub fn len(&self) -> (r: usize)
        ensures
            r == self@.types.len(),
    {
        self.types.len()
    }

    /// How many capability variables there are.
    pub fn cap_len(&self) -> (r: usize)
        ensures
            r == self@.caps.len(),
    {
        self.caps.len()
    }

    /// Allocates a type variable.
    pub fn fresh(&mut self) -> (r: TyVid)
        requires
            old(self).wf(),
            old(self)@.types.len() < u32::MAX,
        ensures
            final(self).wf(),
            r == TyVid(old(self)@.types.len() as u32),
            final(self)@ == (Table { types: old(self)@.types.push(None), ..old(self)@ }),
    {
        let n: usize = self.types.len();
        proof {
            grow_solved(self@);
        }
        self.types.push(None);
        assert(self@ =~= (Table { types: old(self)@.types.push(None), ..old(self)@ }));
        TyVid(n as u32)
    }

    /// Allocates a capability variable.
    pub fn fresh_cap(&mut self) -> (r: CapVid)
        requires
            old(self).wf(),
            old(self)@.caps.len() < u32::MAX,
        ensures
            final(self).wf(),
            r == CapVid(old(self)@.caps.len() as u32),
            final(self)@ == (Table { caps: old(self)@.caps.push(None), ..old(self)@ }),
    {
        let n: usize = self.caps.len();
        proof {
            grow_caps_solved(self@);
        }
        self.caps.push(None);
        assert(self@ =~= (Table { caps: old(self)@.caps.push(None), ..old(self)@ }));
        CapVid(n as u32)
    }

    fn look_var(&self, v: TyVid) -> (r: Type)
        ensures
            r@ == look(self@, v),
    {
        let at: usize = v.0 as usize;
        if at < self.types.len() {
            match &self.types[at] {
                Some(t) => {
                    assert(self@.types[at as int] == Some(t@));
                    t.clone()
                },
                None => {
                    assert(self@.types[at as int] is None);
                    Type::Var(v)
                },
            }
        } else {
            Type::Var(v)
        }
    }

    fn look_row(&self, c: CapRow) -> (r: CapRow)
        ensures
            r == apply_caps(c, |k: CapVid| look_cap(self@, k)),
    {
        match c {
            CapRow::Concrete(_) => c,
            CapRow::Var(k) => {
                let at: usize = k.0 as usize;
                if at < self.caps.len() {
                    match self.caps[at] {
                        Some(r) => r,
                        None => c,
                    }
                } else {
                    c
                }
            },
        }
    }

    fn resolve_all(&self, ts: &Vec<Type>) -> (r: Vec<Type>)
        ensures
            views(r@) == apply_all(
                views(ts@),
                |v: TyVid| look(self@, v),
                |c: CapVid| look_cap(self@, c),
            ),
        decreases ts,
    {
        let mut out: Vec<Type> = Vec::new();
        let mut i: usize = 0;
        while i < ts.len()
            invariant
                i <= ts@.len(),
                out@.len() == i,
                forall|k: int| 0 <= k < i ==> (#[trigger] out@[k])@ == resolve(self@, ts@[k]@),
            decreases ts@.len() - i,
        {
            out.push(self.deep_resolve(&ts[i]));
            i = i + 1;
        }
        assert(views(out@) =~= apply_all(
            views(ts@),
            |v: TyVid| look(self@, v),
            |c: CapVid| look_cap(self@, c),
        ));
        out
    }

    fn resolve_fields(&self, fs: &Vec<(String, Type)>) -> (r: Vec<(String, Type)>)
        ensures
            field_views(r@) == apply_fields(
                field_views(fs@),
                |v: TyVid| look(self@, v),
                |c: CapVid| look_cap(self@, c),
            ),
        decreases fs,
    {
        let mut out: Vec<(String, Type)> = Vec::new();
        let mut i: usize = 0;
        while i < fs.len()
            invariant
                i <= fs@.len(),
                out@.len() == i,
                forall|k: int|
                    0 <= k < i ==> (#[trigger] out@[k]).0@ == fs@[k].0@ && out@[k].1@ == resolve(
                        self@,
                        fs@[k].1@,
                    ),
            decreases fs@.len() - i,
        {
            let f = &fs[i];
            out.push((f.0.clone(), self.deep_resolve(&f.1)));
            i = i + 1;
        }
        assert(field_views(out@) =~= apply_fields(
            field_views(fs@),
            |v: TyVid| look(self@, v),
            |c: CapVid| look_cap(self@, c),
        ));
        out
    }

    /// Fills in everything that is known of the variables of a type.
    pub fn deep_resolve(&self, ty: &Type) -> (r: Type)
        ensures
            r@ == resolve(self@, ty@),
        decreases ty,
    {
        match ty {
            Type::Var(v) => self.look_var(*v),
            Type::Con(id, args) => Type::Con(*id, self.resolve_all(args)),
            Type::Fn { params, ret, caps } => Type::Fn {
                params: self.resolve_all(params),
                ret: Box::new(self.deep_resolve(ret)),
                caps: self.look_row(*caps),
            },
            Type::Tuple(elems) => Type::Tuple(self.resolve_all(elems)),
            Type::Record { fields, tail } => Type::Record {
                fields: self.resolve_fields(fields),
                tail: *tail,
            },
            Type::Alias { name, body } => Type::Alias {
                name: *name,
                body: Box::new(self.deep_resolve(body)),
            },
            Type::Rigid { id, name } => Type::Rigid { id: *id, name: name.clone() },
            Type::Error => Type::Error,
        }
    }

    /// Binds the open variable `v` to what `ty` stands for.
    ///
    /// Nothing happens where that is `v` itself. Where it holds `v` inside, the
    /// table stays as it is and the answer is `false`.
    pub fn bind(&mut self, v: TyVid, ty: &Type) -> (r: bool)
        requires
            old(self).wf(),
            open_var(old(self)@, v),
        ensures
            final(self).wf(),
            ({
                let t = resolve(old(self)@, ty@);
                &&& r == (t == Ty::Var(v) || !occurs(v, t))
                &&& final(self)@ == (if occurs(v, t) {
                    old(self)@
                } else {
                    bound(old(self)@, v, t)
                })
            }),
    {
        let t = self.deep_resolve(ty);
        proof {
            resolve_idempotent(self@, ty@);
        }
        if occurs_in(v, &t) {
            return match t {
                Type::Var(_) => true,
                _ => false,
            };
        }
        let ghost before = self@;
        proof {
            bound_solved(before, v, t@);
        }
        let n: usize = self.types.len();
        let mut next: Vec<Option<Type>> = Vec::new();
        let mut i: usize = 0;
        while i < n
            invariant
                n == self.types@.len(),
                i <= n,
                self@ == before,
                next@.len() == i,
                forall|u: int|
                    0 <= u < i ==> opt_view(#[trigger] next@[u]) == bound(before, v, t@).types[u],
            decreases n - i,
        {
            let entry: Option<Type> = if i == v.0 as usize {
                Some(t.clone())
            } else {
                match &self.types[i] {
                    Some(x) => {
                        assert(before.types[i as int] == Some(x@));
                        Some(replace_var(x, v, &t))
                    },
                    None => {
                        assert(before.types[i as int] is None);
                        None
                    },
                }
            };
            next.push(entry);
            i = i + 1;
        }
        self.types = next;
        assert(self@ =~= bound(before, v, t@));
        true
    }
}

impl VarTable {
    /// Binds the open capability variable `c` to another row.
    pub fn bind_cap(&mut self, c: CapVid, row: CapRow)
        requires
            old(self).wf(),
            open_cap(old(self)@, c),
            apply_caps(row, |k: CapVid| look_cap(old(self)@, k)) == row,
            row != CapRow::Var(c),
        ensures
            final(self).wf(),
            final(self)@ == bound_cap(old(self)@, c, row),
    {
        let ghost before = self@;
        proof {
            bound_cap_solved(before, c, row);
        }
        let n: usize = self.types.len();
        let mut types: Vec<Option<Type>> = Vec::new();
        let mut i: usize = 0;
        while i < n
            invariant
                n == self.types@.len(),
                i <= n,
                self@ == before,
                types@.len() == i,
                forall|u: int|
                    0 <= u < i ==> opt_view(#[trigger] types@[u]) == bound_cap(
                        before,
                        c,
                        row,
                    ).types[u],
            decreases n - i,
        {
            let entry: Option<Type> = match &self.types[i] {
                Some(x) => {
                    assert(before.types[i as int] == Some(x@));
                    Some(replace_cap(x, c, row))
                },
                None => {
                    assert(before.types[i as int] is None);
                    None
                },
            };
            types.push(entry);
            i = i + 1;
        }
        let m: usize = self.caps.len();
        let mut caps: Vec<Option<CapRow>> = Vec::new();
        let mut j: usize = 0;
        while j < m
            invariant
                m == self.caps@.len(),
                j <= m,
                self@ == before,
                caps@.len() == j,
                forall|k: int|
                    0 <= k < j ==> #[trigger] caps@[k] == bound_cap(before, c, row).caps[k],
            decreases m - j,
        {
            let entry: Option<CapRow> = if j == c.0 as usize {
                Some(row)
            } else {
                match self.caps[j] {
                    Some(r) => Some(replace_row(r, c, row)),
                    None => None,
                }
            };
            caps.push(entry);
            j = j + 1;
        }
        self.types = types;
        self.caps = caps;
        assert(self@ =~= bound_cap(before, c, row));
    }

    /// Fills in what is known of a capability row.
    pub fn resolve_row(&self, row: CapRow) -> (r: CapRow)
        ensures
            r == apply_caps(row, |k: CapVid| look_cap(self@, k)),
    {
        self.look_row(row)
    }

    /// Whether a type variable is in the table and not bound.
    pub fn is_open(&self, v: TyVid) -> (r: bool)
        ensures
            r == open_var(self@, v),
    {
        let at: usize = v.0 as usize;
        if at < self.types.len() {
            let r = self.types[at].is_none();
            assert(self@.types[at as int] == opt_view(self.types@[at as int]));
            r
        } else {
            false
        }
    }

    /// Whether a capability variable is in the table and not bound.
    pub fn is_open_cap(&self, c: CapVid) -> (r: bool)
        ensures
            r == open_cap(self@, c),
    {
        let at: usize = c.0 as usize;
        at < self.caps.len() && self.caps[at].is_none()
    }
}

fn replace_row(r: CapRow, c: CapVid, row: CapRow) -> (out: CapRow)
    ensures
        out == apply_caps(r, one_cap(c, row)),
{
    match r {
        CapRow::Concrete(_) => r,
        CapRow::Var(k) => if k.0 == c.0 {
            row
        } else {
            r
        },
    }
}

/// Replaces one capability variable throughout a type.
fn replace_cap(ty: &Type, c: CapVid, row: CapRow) -> (r: Type)
    ensures
        r@ == apply(ty@, same_vars(), one_cap(c, row)),
    decreases ty,
{
    match ty {
        Type::Var(w) => Type::Var(*w),
        Type::Con(id, args) => Type::Con(*id, replace_cap_all(args, c, row)),
        Type::Fn { params, ret, caps } => Type::Fn {
            params: replace_cap_all(params, c, row),
            ret: Box::new(replace_cap(ret, c, row)),
            caps: replace_row(*caps, c, row),
        },
        Type::Tuple(elems) => Type::Tuple(replace_cap_all(elems, c, row)),
        Type::Record { fields, tail } => Type::Record {
            fields: replace_cap_fields(fields, c, row),
            tail: *tail,
        },
        Type::Alias { name, body } => Type::Alias {
            name: *name,
            body: Box::new(replace_cap(body, c, row)),
        },
        Type::Rigid { id, name } => Type::Rigid { id: *id, name: name.clone() },
        Type::Error => Type::Error,
    }
}

fn replace_cap_all(ts: &Vec<Type>, c: CapVid, row: CapRow) -> (r: Vec<Type>)
    ensures
        views(r@) == apply_all(views(ts@), same_vars(), one_cap(c, row)),
    decreases ts,
{
    let mut out: Vec<Type> = Vec::new();
    let mut i: usize = 0;
    while i < ts.len()
        invariant
            i <= ts@.len(),
            out@.len() == i,
            forall|k: int|
                0 <= k < i ==> (#[trigger] out@[k])@ == apply(
                    ts@[k]@,
                    same_vars(),
                    one_cap(c, row),
                ),
        decreases ts@.len() - i,
    {
        out.push(replace_cap(&ts[i], c, row));
        i = i + 1;
    }
    assert(views(out@) =~= apply_all(views(ts@), same_vars(), one_cap(c, row)));
    out
}

fn replace_cap_fields(fs: &Vec<(String, Type)>, c: CapVid, row: CapRow) -> (r: Vec<(String, Type)>)
    ensures
        field_views(r@) == apply_fields(field_views(fs@), same_vars(), one_cap(c, row)),
    decreases fs,
{
    let mut out: Vec<(String, Type)> = Vec::new();
    let mut i: usize = 0;
    while i < fs.len()
        invariant
            i <= fs@.len(),
            out@.len() == i,
            forall|k: int|
                0 <= k < i ==> (#[trigger] out@[k]).0@ == fs@[k].0@ && out@[k].1@ == apply(
                    fs@[k].1@,
                    same_vars(),
                    one_cap(c, row),
                ),
        decreases fs@.len() - i,
    {
        let f = &fs[i];
        out.push((f.0.clone(), replace_cap(&f.1, c, row)));
        i = i + 1;
    }
    assert(field_views(out@) =~= apply_fields(field_views(fs@), same_vars(), one_cap(c, row)));
    out
}

/// Whether type variable `v` occurs in a type.
pub fn occurs_in(v: TyVid, ty: &Type) -> (r: bool)
    ensures
        r == occurs(v, ty@),
    decreases ty,
{
    match ty {
        Type::Var(w) => w.0 == v.0,
        Type::Con(_, args) => occurs_in_any(v, args),
        Type::Fn { params, ret, caps: _ } => {
            let a = occurs_in_any(v, params);
            let b = occurs_in(v, ret);
            a || b
        },
        Type::Tuple(elems) => occurs_in_any(v, elems),
        Type::Record { fields, tail: _ } => occurs_in_field(v, fields),
        Type::Alias { name: _, body } => occurs_in(v, body),
        Type::Rigid { .. } => false,
        Type::Error => false,
    }
}

fn occurs_in_any(v: TyVid, ts: &Vec<Type>) -> (r: bool)
    ensures
        r == occurs_any(v, views(ts@)),
    decreases ts,
{
    let mut i: usize = 0;
    while i < ts.len()
        invariant
            i <= ts@.len(),
            forall|k: int| 0 <= k < i ==> !occurs(v, (#[trigger] ts@[k])@),
        decreases ts@.len() - i,
    {
        if occurs_in(v, &ts[i]) {
            assert(occurs(v, views(ts@)[i as int]));
            return true;
        }
        i = i + 1;
    }
    assert forall|k: int| 0 <= k < views(ts@).len() implies !occurs(v, #[trigger] views(ts@)[k]) by {
        assert(!occurs(v, ts@[k]@));
    }
    false
}

fn occurs_in_field(v: TyVid, fs: &Vec<(String, Type)>) -> (r: bool)
    ensures
        r == occurs_field(v, field_views(fs@)),
    decreases fs,
{
    let mut i: usize = 0;
    while i < fs.len()
        invariant
            i <= fs@.len(),
            forall|k: int| 0 <= k < i ==> !occurs(v, (#[trigger] fs@[k]).1@),
        decreases fs@.len() - i,
    {
        let f = &fs[i];
        if occurs_in(v, &f.1) {
            assert(occurs(v, field_views(fs@)[i as int].1));
            return true;
        }
        i = i + 1;
    }
    assert forall|k: int| 0 <= k < field_views(fs@).len() implies !occurs(
        v,
        (#[trigger] field_views(fs@)[k]).1,
    ) by {
        assert(!occurs(v, fs@[k].1@));
    }
    false
}

/// Replaces one type variable throughout a type.
pub fn replace_var(ty: &Type, v: TyVid, by: &Type) -> (r: Type)
    ensures
        r@ == apply(ty@, one(v, by@), same_caps()),
    decreases ty,
{
    match ty {
        Type::Var(w) => if w.0 == v.0 {
            by.clone()
        } else {
            Type::Var(*w)
        },
        Type::Con(id, args) => Type::Con(*id, replace_var_all(args, v, by)),
        Type::Fn { params, ret, caps } => Type::Fn {
            params: replace_var_all(params, v, by),
            ret: Box::new(replace_var(ret, v, by)),
            caps: *caps,
        },
        Type::Tuple(elems) => Type::Tuple(replace_var_all(elems, v, by)),
        Type::Record { fields, tail } => Type::Record {
            fields: replace_var_fields(fields, v, by),
            tail: *tail,
        },
        Type::Alias { name, body } => Type::Alias {
            name: *name,
            body: Box::new(replace_var(body, v, by)),
        },
        Type::Rigid { id, name } => Type::Rigid { id: *id, name: name.clone() },
        Type::Error => Type::Error,
    }
}

fn replace_var_all(ts: &Vec<Type>, v: TyVid, by: &Type) -> (r: Vec<Type>)
    ensures
        views(r@) == apply_all(views(ts@), one(v, by@), same_caps()),
    decreases ts,
{
    let mut out: Vec<Type> = Vec::new();
    let mut i: usize = 0;
    while i < ts.len()
        invariant
            i <= ts@.len(),
            out@.len() == i,
            forall|k: int|
                0 <= k < i ==> (#[trigger] out@[k])@ == apply(ts@[k]@, one(v, by@), same_caps()),
        decreases ts@.len() - i,
    {
        out.push(replace_var(&ts[i], v, by));
        i = i + 1;
    }
    assert(views(out@) =~= apply_all(views(ts@), one(v, by@), same_caps()));
    out
}

fn replace_var_fields(fs: &Vec<(String, Type)>, v: TyVid, by: &Type) -> (r: Vec<(String, Type)>)
    ensures
        field_views(r@) == apply_fields(field_views(fs@), one(v, by@), same_caps()),
    decreases fs,
{
    let mut out: Vec<(String, Type)> = Vec::new();
    let mut i: usize = 0;
    while i < fs.len()
        invariant
            i <= fs@.len(),
            out@.len() == i,
            forall|k: int|
                0 <= k < i ==> (#[trigger] out@[k]).0@ == fs@[k].0@ && out@[k].1@ == apply(
                    fs@[k].1@,
                    one(v, by@),
                    same_caps(),
                ),
        decreases fs@.len() - i,
    {
        let f = &fs[i];
        out.push((f.0.clone(), replace_var(&f.1, v, by)));
        i = i + 1;
    }
    assert(field_views(out@) =~= apply_fields(field_views(fs@), one(v, by@), same_caps()));
    out
}

} // verus!
