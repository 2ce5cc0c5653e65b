use rustc_hash::FxHashSet;
use vstd::prelude::*;

use crate::ctx::InferCtx;
use crate::fx::{contains_id, insert_id, list_ids};
use crate::subst::{
    apply, apply_all, apply_caps, apply_fields, apply_fixed, cap_occurs, cap_occurs_any,
    cap_occurs_field, occurs, occurs_any, occurs_apply, occurs_field,
};
use crate::table::{resolve, Table};
use crate::types::{
    field_views, mono, preds, views, CapRow, CapVid, Constraint, Poly, Pred, Scheme, Ty, TyVid,
    Type,
};

verus! {

broadcast use crate::types::group_views;

/// `s` holds exactly the type variables of `t`, by their raw ids.
pub open spec fn are_vars_of(s: Set<u32>, t: Ty) -> bool {
    forall|v: u32| #[trigger] s.contains(v) <==> occurs(TyVid(v), t)
}

/// `s` holds exactly the capability variables of `t`, by their raw ids.
pub open spec fn are_caps_of(s: Set<u32>, t: Ty) -> bool {
    forall|c: u32| #[trigger] s.contains(c) <==> cap_occurs(CapVid(c), t)
}

/// Collects the type variables and the capability variables of a type, by
/// their raw ids. Nothing is resolved.
#[must_use]
pub fn collect_free_vars(ty: &Type) -> (r: (FxHashSet<u32>, FxHashSet<u32>))
    ensures
        are_vars_of(r.0@, ty@),
        are_caps_of(r.1@, ty@),
{
    let mut free_ty: FxHashSet<u32> = FxHashSet::default();
    let mut free_cap: FxHashSet<u32> = FxHashSet::default();
    collect_free_vars_rec(ty, &mut free_ty, &mut free_cap);
    (free_ty, free_cap)
}

fn collect_free_vars_rec(ty: &Type, free_ty: &mut FxHashSet<u32>, free_cap: &mut FxHashSet<u32>)
    ensures
        forall|v: u32| #[trigger]
            final(free_ty)@.contains(v) <==> old(free_ty)@.contains(v) || occurs(TyVid(v), ty@),
        forall|c: u32| #[trigger]
            final(free_cap)@.contains(c) <==> old(free_cap)@.contains(c) || cap_occurs(
                CapVid(c),
                ty@,
            ),
    decreases ty,
{
    match ty {
        Type::Var(v) => {
            insert_id(free_ty, v.0);
        },
        Type::Con(_, args) => collect_free_vars_all(args, free_ty, free_cap),
        Type::Fn { params, ret, caps } => {
            collect_free_vars_all(params, free_ty, free_cap);
            collect_free_vars_rec(ret, free_ty, free_cap);
            if let CapRow::Var(c) = caps {
                insert_id(free_cap, c.0);
            }
        },
        Type::Tuple(elems) => collect_free_vars_all(elems, free_ty, free_cap),
        Type::Record { fields, tail: _ } => {
            collect_free_vars_fields(fields, free_ty, free_cap);
        },
        Type::Alias { name: _, body } => collect_free_vars_rec(body, free_ty, free_cap),
        Type::Rigid { .. } => {},
        Type::Error => {},
    }
}

fn collect_free_vars_all(
    ts: &Vec<Type>,
    free_ty: &mut FxHashSet<u32>,
    free_cap: &mut FxHashSet<u32>,
)
    ensures
        forall|v: u32| #[trigger]
            final(free_ty)@.contains(v) <==> old(free_ty)@.contains(v) || occurs_any(
                TyVid(v),
                views(ts@),
            ),
        forall|c: u32| #[trigger]
            final(free_cap)@.contains(c) <==> old(free_cap)@.contains(c) || cap_occurs_any(
                CapVid(c),
                views(ts@),
            ),
    decreases ts,
{
    let mut i: usize = 0;
    let ghost all = views(ts@);
    while i < ts.len()
        invariant
            i <= ts@.len(),
            all == views(ts@),
            forall|v: u32| #[trigger]
                free_ty@.contains(v) <==> old(free_ty)@.contains(v) || exists|k: int|
                    0 <= k < i && occurs(TyVid(v), #[trigger] all[k]),
            forall|c: u32| #[trigger]
                free_cap@.contains(c) <==> old(free_cap)@.contains(c) || exists|k: int|
                    0 <= k < i && cap_occurs(CapVid(c), #[trigger] all[k]),
        decreases ts@.len() - i,
    {
        assert(all[i as int] == ts@[i as int]@);
        collect_free_vars_rec(&ts[i], free_ty, free_cap);
        i = i + 1;
    }
}

fn collect_free_vars_fields(
    fs: &Vec<(String, Type)>,
    free_ty: &mut FxHashSet<u32>,
    free_cap: &mut FxHashSet<u32>,
)
    ensures
        forall|v: u32| #[trigger]
            final(free_ty)@.contains(v) <==> old(free_ty)@.contains(v) || occurs_field(
                TyVid(v),
                field_views(fs@),
            ),
        forall|c: u32| #[trigger]
            final(free_cap)@.contains(c) <==> old(free_cap)@.contains(c) || cap_occurs_field(
                CapVid(c),
                field_views(fs@),
            ),
    decreases fs,
{
    let mut i: usize = 0;
    let ghost all = field_views(fs@);
    while i < fs.len()
        invariant
            i <= fs@.len(),
            all == field_views(fs@),
            forall|v: u32| #[trigger]
                free_ty@.contains(v) <==> old(free_ty)@.contains(v) || exists|k: int|
                    0 <= k < i && occurs(TyVid(v), (#[trigger] all[k]).1),
            forall|c: u32| #[trigger]
                free_cap@.contains(c) <==> old(free_cap)@.contains(c) || exists|k: int|
                    0 <= k < i && cap_occurs(CapVid(c), (#[trigger] all[k]).1),
        decreases fs@.len() - i,
    {
        let f = &fs[i];
        assert(all[i as int] == (f.0@, f.1@));
        collect_free_vars_rec(&f.1, free_ty, free_cap);
        i = i + 1;
    }
}

/// Strictly ascending.
pub open spec fn ascending(s: Seq<u32>) -> bool {
    forall|a: int, b: int| 0 <= a < b < s.len() ==> #[trigger] s[a] < #[trigger] s[b]
}

/// The raw ids of a list of type variables.
pub open spec fn raw_vars(vs: Seq<TyVid>) -> Seq<u32> {
    vs.map_values(|v: TyVid| v.0)
}

/// The raw ids of a list of capability variables.
pub open spec fn raw_caps(cs: Seq<CapVid>) -> Seq<u32> {
    cs.map_values(|c: CapVid| c.0)
}

/// The ids of `from` that `without` lacks, in ascending order.
pub(crate) fn difference(from: &FxHashSet<u32>, without: &FxHashSet<u32>) -> (r: Vec<u32>)
    ensures
        ascending(r@),
        forall|v: u32| #[trigger] r@.contains(v) <==> from@.contains(v) && !without@.contains(v),
{
    let ids = list_ids(from);
    let mut out: Vec<u32> = Vec::new();
    let mut i: usize = 0;
    while i < ids.len()
        invariant
            i <= ids@.len(),
            ids@.no_duplicates(),
            ascending(out@),
            forall|v: u32| #[trigger]
                out@.contains(v) <==> !without@.contains(v) && exists|k: int|
                    0 <= k < i && #[trigger] ids@[k] == v,
        decreases ids@.len() - i,
    {
        let id: u32 = ids[i];
        if !contains_id(without, id) {
            let ghost was = out@;
            assert(!was.contains(id)) by {
                if was.contains(id) {
                    let k = choose|k: int| 0 <= k < i && #[trigger] ids@[k] == id;
                    assert(ids@[k] == ids@[i as int]);
                }
            }
            insert_ascending(&mut out, id);
        }
        i = i + 1;
    }
    assert forall|v: u32| #[trigger] out@.contains(v) <==> from@.contains(v) && !without@.contains(
        v,
    ) by {
        assert(ids@.contains(v) <==> from@.contains(v));
        if ids@.contains(v) {
            let k = choose|k: int| 0 <= k < ids@.len() && ids@[k] == v;
            assert(ids@[k] == v);
        }
        if exists|k: int| 0 <= k < i && #[trigger] ids@[k] == v {
            let k = choose|k: int| 0 <= k < i && #[trigger] ids@[k] == v;
            assert(ids@.contains(v));
        }
    }
    out
}

fn insert_ascending(out: &mut Vec<u32>, id: u32)
    requires
        ascending(old(out)@),
        !old(out)@.contains(id),
    ensures
        ascending(final(out)@),
        forall|v: u32| #[trigger] final(out)@.contains(v) <==> old(out)@.contains(v) || v == id,
{
    let mut at: usize = 0;
    while at < out.len() && out[at] < id
        invariant
            *out == *old(out),
            at <= out@.len(),
            forall|k: int| 0 <= k < at ==> out@[k] < id,
        decreases out@.len() - at,
    {
        at = at + 1;
    }
    let ghost was = out@;
    out.insert(at, id);
    proof {
        let now = out@;
        assert(now == was.insert(at as int, id));
        assert forall|k: int| at <= k < was.len() implies was[k] > id by {
            assert(was[k] != id);
            if k > at {
                assert(was[at as int] < was[k]);
            }
        }
        assert forall|a: int, b: int| 0 <= a < b < now.len() implies #[trigger] now[a]
            < #[trigger] now[b] by {
            let pa = if a < at {
                a
            } else {
                a - 1
            };
            let pb = if b < at {
                b
            } else {
                b - 1
            };
            if a == at {
                assert(now[b] == was[b - 1]);
            } else if b == at {
                assert(now[a] == was[a]);
            } else {
                assert(now[a] == was[pa]);
                assert(now[b] == was[pb]);
                assert(was[pa] < was[pb]);
            }
        }
        assert forall|v: u32| #[trigger] now.contains(v) <==> was.contains(v) || v == id by {
            if was.contains(v) {
                let k = choose|k: int| 0 <= k < was.len() && was[k] == v;
                if k < at {
                    assert(now[k] == v);
                } else {
                    assert(now[k + 1] == v);
                }
            }
            if v == id {
                assert(now[at as int] == v);
            }
            if now.contains(v) && v != id {
                let k = choose|k: int| 0 <= k < now.len() && now[k] == v;
                if k < at {
                    assert(was[k] == v);
                } else {
                    assert(was[k - 1] == v);
                }
            }
        }
    }
}

/// `p` is the generalisation of `t`: its type is `t` with everything filled in,
/// and it quantifies over exactly the variables of that which the environment
/// does not have, in ascending order, without constraints.
pub open spec fn is_generalisation(
    p: Poly,
    tb: Table,
    t: Ty,
    env_ty: Set<u32>,
    env_cap: Set<u32>,
) -> bool {
    &&& p.ty == resolve(tb, t)
    &&& ascending(raw_vars(p.vars))
    &&& forall|v: u32| #[trigger]
        p.vars.contains(TyVid(v)) <==> occurs(TyVid(v), p.ty) && !env_ty.contains(v)
    &&& ascending(raw_caps(p.cap_vars))
    &&& forall|c: u32| #[trigger]
        p.cap_vars.contains(CapVid(c)) <==> cap_occurs(CapVid(c), p.ty) && !env_cap.contains(c)
    &&& p.constraints.len() == 0
}

/// Generalises a type against a snapshot of the variables of an environment.
#[must_use]
pub fn generalise_with_env(
    ctx: &InferCtx,
    ty: &Type,
    free_in_env_ty: &FxHashSet<u32>,
    free_in_env_cap: &FxHashSet<u32>,
) -> (r: Scheme)
    ensures
        is_generalisation(r@, ctx.table(), ty@, free_in_env_ty@, free_in_env_cap@),
{
    let ty_resolved = ctx.deep_resolve(ty);
    let (free_ty, free_cap) = collect_free_vars(&ty_resolved);
    let ids = difference(&free_ty, free_in_env_ty);
    let mut vars: Vec<TyVid> = Vec::new();
    let mut i: usize = 0;
    while i < ids.len()
        invariant
            i <= ids@.len(),
            vars@.len() == i,
            forall|k: int| 0 <= k < i ==> (#[trigger] vars@[k]).0 == ids@[k],
        decreases ids@.len() - i,
    {
        vars.push(TyVid(ids[i]));
        i = i + 1;
    }
    let cap_ids = difference(&free_cap, free_in_env_cap);
    let mut cap_vars: Vec<CapVid> = Vec::new();
    let mut j: usize = 0;
    while j < cap_ids.len()
        invariant
            j <= cap_ids@.len(),
            cap_vars@.len() == j,
            forall|k: int| 0 <= k < j ==> (#[trigger] cap_vars@[k]).0 == cap_ids@[k],
        decreases cap_ids@.len() - j,
    {
        cap_vars.push(CapVid(cap_ids[j]));
        j = j + 1;
    }
    proof {
        assert(raw_vars(vars@) =~= ids@);
        assert(raw_caps(cap_vars@) =~= cap_ids@);
        assert forall|v: u32| #[trigger] vars@.contains(TyVid(v)) <==> ids@.contains(v) by {
            if vars@.contains(TyVid(v)) {
                let k = choose|k: int| 0 <= k < vars@.len() && vars@[k] == TyVid(v);
                assert(raw_vars(vars@)[k] == v);
                assert(ids@[k] == v);
            }
            if ids@.contains(v) {
                let k = choose|k: int| 0 <= k < ids@.len() && ids@[k] == v;
                assert(raw_vars(vars@)[k] == vars@[k].0);
                assert(vars@[k] == TyVid(v));
            }
        }
        assert forall|c: u32| #[trigger] cap_vars@.contains(CapVid(c)) <==> cap_ids@.contains(c) by {
            if cap_vars@.contains(CapVid(c)) {
                let k = choose|k: int| 0 <= k < cap_vars@.len() && cap_vars@[k] == CapVid(c);
                assert(raw_caps(cap_vars@)[k] == c);
                assert(cap_ids@[k] == c);
            }
            if cap_ids@.contains(c) {
                let k = choose|k: int| 0 <= k < cap_ids@.len() && cap_ids@[k] == c;
                assert(raw_caps(cap_vars@)[k] == cap_vars@[k].0);
                assert(cap_vars@[k] == CapVid(c));
            }
        }
    }
    Scheme { vars, cap_vars, ty: ty_resolved, constraints: Vec::new() }
}

/// Wraps a type in a scheme that quantifies over nothing.
#[must_use]
pub fn monoscheme(ty: Type) -> (r: Scheme)
    ensures
        r@ == mono(ty@),
{
    Scheme::mono(ty)
}

/// Type variable `v` is free in a scheme, with everything filled in.
pub open spec fn free_in(tb: Table, p: Poly, v: TyVid) -> bool {
    occurs(v, resolve(tb, p.ty)) && !p.vars.contains(v)
}

/// Capability variable `c` is free in a scheme, with everything filled in.
pub open spec fn cap_free_in(tb: Table, p: Poly, c: CapVid) -> bool {
    cap_occurs(c, resolve(tb, p.ty)) && !p.cap_vars.contains(c)
}

/// Type variable `v` is free in some binding of the environment.
pub open spec fn free_in_env(tb: Table, env: Seq<Seq<(Seq<char>, Poly)>>, v: TyVid) -> bool {
    exists|i: int, k: int|
        0 <= i < env.len() && 0 <= k < env[i].len() && free_in(tb, (#[trigger] env[i][k]).1, v)
}

/// Capability variable `c` is free in some binding of the environment.
pub open spec fn cap_free_in_env(tb: Table, env: Seq<Seq<(Seq<char>, Poly)>>, c: CapVid) -> bool {
    exists|i: int, k: int|
        0 <= i < env.len() && 0 <= k < env[i].len() && cap_free_in(tb, (#[trigger] env[i][k]).1, c)
}

fn has_var(vs: &Vec<TyVid>, id: u32) -> (r: bool)
    ensures
        r == vs@.contains(TyVid(id)),
{
    let mut i: usize = 0;
    while i < vs.len()
        invariant
            i <= vs@.len(),
            forall|k: int| 0 <= k < i ==> vs@[k] != TyVid(id),
        decreases vs@.len() - i,
    {
        if vs[i].0 == id {
            assert(vs@[i as int] == TyVid(id));
            return true;
        }
        i = i + 1;
    }
    false
}

fn has_cap(cs: &Vec<CapVid>, id: u32) -> (r: bool)
    ensures
        r == cs@.contains(CapVid(id)),
{
    let mut i: usize = 0;
    while i < cs.len()
        invariant
            i <= cs@.len(),
            forall|k: int| 0 <= k < i ==> cs@[k] != CapVid(id),
        decreases cs@.len() - i,
    {
        if cs[i].0 == id {
            assert(cs@[i as int] == CapVid(id));
            return true;
        }
        i = i + 1;
    }
    false
}

fn add_scheme_vars(ctx: &InferCtx, s: &Scheme, tys: &mut FxHashSet<u32>, caps: &mut FxHashSet<u32>)
    ensures
        forall|v: u32| #[trigger]
            final(tys)@.contains(v) <==> old(tys)@.contains(v) || free_in(
                ctx.table(),
                s@,
                TyVid(v),
            ),
        forall|c: u32| #[trigger]
            final(caps)@.contains(c) <==> old(caps)@.contains(c) || cap_free_in(
                ctx.table(),
                s@,
                CapVid(c),
            ),
{
    let resolved = ctx.deep_resolve(&s.ty);
    let (free_ty, free_cap) = collect_free_vars(&resolved);
    let ids = list_ids(&free_ty);
    let mut i: usize = 0;
    while i < ids.len()
        invariant
            i <= ids@.len(),
            forall|v: u32| #[trigger]
                tys@.contains(v) <==> old(tys)@.contains(v) || (!s.vars@.contains(TyVid(v))
                    && exists|k: int| 0 <= k < i && #[trigger] ids@[k] == v),
        decreases ids@.len() - i,
    {
        let id: u32 = ids[i];
        if !has_var(&s.vars, id) {
            insert_id(tys, id);
        }
        i = i + 1;
    }
    let cap_ids = list_ids(&free_cap);
    let mut j: usize = 0;
    while j < cap_ids.len()
        invariant
            j <= cap_ids@.len(),
            forall|c: u32| #[trigger]
                caps@.contains(c) <==> old(caps)@.contains(c) || (!s.cap_vars@.contains(CapVid(c))
                    && exists|k: int| 0 <= k < j && #[trigger] cap_ids@[k] == c),
        decreases cap_ids@.len() - j,
    {
        let id: u32 = cap_ids[j];
        if !has_cap(&s.cap_vars, id) {
            insert_id(caps, id);
        }
        j = j + 1;
    }
    proof {
        assert forall|v: u32| (exists|k: int| 0 <= k < ids@.len() && #[trigger] ids@[k] == v)
            == occurs(TyVid(v), resolved@) by {
            assert(ids@.contains(v) <==> free_ty@.contains(v));
            if ids@.contains(v) {
                let k = choose|k: int| 0 <= k < ids@.len() && ids@[k] == v;
                assert(ids@[k] == v);
            }
        }
        assert forall|c: u32|
            (exists|k: int| 0 <= k < cap_ids@.len() && #[trigger] cap_ids@[k] == c) == cap_occurs(
                CapVid(c),
                resolved@,
            ) by {
            assert(cap_ids@.contains(c) <==> free_cap@.contains(c));
            if cap_ids@.contains(c) {
                let k = choose|k: int| 0 <= k < cap_ids@.len() && cap_ids@[k] == c;
                assert(cap_ids@[k] == c);
            }
        }
    }
}

/// The variables that are free in the environment, by their raw ids.
pub fn env_free_vars(ctx: &InferCtx) -> (r: (FxHashSet<u32>, FxHashSet<u32>))
    ensures
        forall|v: u32| #[trigger]
            r.0@.contains(v) <==> free_in_env(ctx.table(), ctx.env@, TyVid(v)),
        forall|c: u32| #[trigger]
            r.1@.contains(c) <==> cap_free_in_env(ctx.table(), ctx.env@, CapVid(c)),
{
    let mut tys: FxHashSet<u32> = FxHashSet::default();
    let mut caps: FxHashSet<u32> = FxHashSet::default();
    let ghost env = ctx.env@;
    let ghost tb = ctx.table();
    let mut i: usize = 0;
    while i < ctx.env.frames.len()
        invariant
            i <= ctx.env.frames@.len(),
            env == ctx.env@,
            tb == ctx.table(),
            forall|v: u32| #[trigger]
                tys@.contains(v) <==> exists|a: int, k: int|
                    0 <= a < i && 0 <= k < env[a].len() && free_in(
                        tb,
                        (#[trigger] env[a][k]).1,
                        TyVid(v),
                    ),
            forall|c: u32| #[trigger]
                caps@.contains(c) <==> exists|a: int, k: int|
                    0 <= a < i && 0 <= k < env[a].len() && cap_free_in(
                        tb,
                        (#[trigger] env[a][k]).1,
                        CapVid(c),
                    ),
        decreases ctx.env.frames@.len() - i,
    {
        let frame = &ctx.env.frames[i];
        let ghost t0 = tys@;
        let ghost c0 = caps@;
        let mut k: usize = 0;
        while k < frame.bindings.len()
            invariant
                k <= frame.bindings@.len(),
                i < ctx.env.frames@.len(),
                *frame == ctx.env.frames@[i as int],
                env == ctx.env@,
                tb == ctx.table(),
                env[i as int] == frame@,
                forall|v: u32| #[trigger]
                    tys@.contains(v) <==> t0.contains(v) || exists|m: int|
                        0 <= m < k && free_in(tb, (#[trigger] env[i as int][m]).1, TyVid(v)),
                forall|c: u32| #[trigger]
                    caps@.contains(c) <==> c0.contains(c) || exists|m: int|
                        0 <= m < k && cap_free_in(tb, (#[trigger] env[i as int][m]).1, CapVid(c)),
            decreases frame.bindings@.len() - k,
        {
            let b = &frame.bindings[k];
            assert(env[i as int][k as int] == (b.0@, b.1@));
            add_scheme_vars(ctx, &b.1, &mut tys, &mut caps);
            k = k + 1;
        }
        i = i + 1;
    }
    (tys, caps)
}

/// Generalises a type against the environment: quantifies over exactly the
/// variables of the type that are free in no binding.
#[must_use]
pub fn generalise(ctx: &InferCtx, ty: &Type) -> (r: Scheme)
    ensures
        exists|env_ty: Set<u32>, env_cap: Set<u32>|
            {
                &&& forall|v: u32| #[trigger]
                    env_ty.contains(v) <==> free_in_env(ctx.table(), ctx.env@, TyVid(v))
                &&& forall|c: u32| #[trigger]
                    env_cap.contains(c) <==> cap_free_in_env(ctx.table(), ctx.env@, CapVid(c))
                &&& #[trigger] is_generalisation(r@, ctx.table(), ty@, env_ty, env_cap)
            },
{
    let (env_ty, env_cap) = env_free_vars(ctx);
    let r = generalise_with_env(ctx, ty, &env_ty, &env_cap);
    assert(is_generalisation(r@, ctx.table(), ty@, env_ty@, env_cap@));
    r
}

/// What variable `v` becomes where `vars` are renamed to `fresh`.
pub open spec fn renamed(vars: Seq<TyVid>, fresh: Seq<TyVid>, v: TyVid) -> TyVid {
    match vars.index_of_first(v) {
        Some(i) => fresh[i],
        None => v,
    }
}

/// What capability variable `c` becomes where `caps` are renamed to `fresh`.
pub open spec fn renamed_cap(caps: Seq<CapVid>, fresh: Seq<CapVid>, c: CapVid) -> CapVid {
    match caps.index_of_first(c) {
        Some(i) => fresh[i],
        None => c,
    }
}

/// `n` consecutive type variables from `from` on.
pub open spec fn fresh_vars(from: nat, n: nat) -> Seq<TyVid> {
    Seq::new(n, |i: int| TyVid((from + i) as u32))
}

/// `n` consecutive capability variables from `from` on.
pub open spec fn fresh_caps(from: nat, n: nat) -> Seq<CapVid> {
    Seq::new(n, |i: int| CapVid((from + i) as u32))
}

/// A type with its quantified variables renamed.
pub open spec fn instance(
    t: Ty,
    vars: Seq<TyVid>,
    fresh: Seq<TyVid>,
    caps: Seq<CapVid>,
    cfresh: Seq<CapVid>,
) -> Ty {
    apply(
        t,
        |v: TyVid| Ty::Var(renamed(vars, fresh, v)),
        |c: CapVid| CapRow::Var(renamed_cap(caps, cfresh, c)),
    )
}

/// A constraint with the quantified variables renamed.
pub open spec fn pred_instance(p: Pred, vars: Seq<TyVid>, fresh: Seq<TyVid>) -> Pred {
    Pred { class: p.class, tys: p.tys.map_values(|v: TyVid| renamed(vars, fresh, v)) }
}

/// `k` empty slots at the end of a table.
pub open spec fn with_slots<A>(s: Seq<Option<A>>, k: nat) -> Seq<Option<A>> {
    s + Seq::new(k, |i: int| None)
}

fn rename_var(vars: &Vec<TyVid>, fresh: &Vec<TyVid>, v: TyVid) -> (r: TyVid)
    requires
        vars@.len() == fresh@.len(),
    ensures
        r == renamed(vars@, fresh@, v),
{
    proof {
        vars@.index_of_first_ensures(v);
    }
    let mut i: usize = 0;
    while i < vars.len()
        invariant
            vars@.len() == fresh@.len(),
            i <= vars@.len(),
            forall|k: int| 0 <= k < i ==> vars@[k] != v,
        decreases vars@.len() - i,
    {
        if vars[i].0 == v.0 {
            proof {
                vars@.index_of_first_ensures(v);
                assert(vars@[i as int] == v);
                let j = vars@.index_of_first(v)->0;
                if j < i {
                    assert(vars@[j] != v);
                }
            }
            return fresh[i];
        }
        i = i + 1;
    }
    v
}

fn rename_row(caps: &Vec<CapVid>, fresh: &Vec<CapVid>, row: CapRow) -> (r: CapRow)
    requires
        caps@.len() == fresh@.len(),
    ensures
        r == apply_caps(row, |c: CapVid| CapRow::Var(renamed_cap(caps@, fresh@, c))),
{
    match row {
        CapRow::Concrete(_) => row,
        CapRow::Var(c) => {
            proof {
                caps@.index_of_first_ensures(c);
            }
            let mut i: usize = 0;
            while i < caps.len()
                invariant
                    caps@.len() == fresh@.len(),
                    row == CapRow::Var(c),
                    i <= caps@.len(),
                    forall|k: int| 0 <= k < i ==> caps@[k] != c,
                decreases caps@.len() - i,
            {
                if caps[i].0 == c.0 {
                    proof {
                        caps@.index_of_first_ensures(c);
                        assert(caps@[i as int] == c);
                        let j = caps@.index_of_first(c)->0;
                        if j < i {
                            assert(caps@[j] != c);
                        }
                    }
                    return CapRow::Var(fresh[i]);
                }
                i = i + 1;
            }
            row
        },
    }
}

/// Two lists of variables of one length: the quantified ones and what each of
/// them becomes.
pub struct Renaming {
    pub vars: Vec<TyVid>,
    pub fresh: Vec<TyVid>,
    pub caps: Vec<CapVid>,
    pub cap_fresh: Vec<CapVid>,
}

impl Renaming {
    pub open spec fn wf(&self) -> bool {
        self.vars@.len() == self.fresh@.len() && self.caps@.len() == self.cap_fresh@.len()
    }

    pub open spec fn of(&self, t: Ty) -> Ty {
        instance(t, self.vars@, self.fresh@, self.caps@, self.cap_fresh@)
    }

    fn rename_all(&self, ts: &Vec<Type>) -> (r: Vec<Type>)
        requires
            self.wf(),
        ensures
            views(r@) == apply_all(
                views(ts@),
                |v: TyVid| Ty::Var(renamed(self.vars@, self.fresh@, v)),
                |c: CapVid| CapRow::Var(renamed_cap(self.caps@, self.cap_fresh@, c)),
            ),
        decreases ts,
    {
        let mut out: Vec<Type> = Vec::new();
        let mut i: usize = 0;
        while i < ts.len()
            invariant
                self.wf(),
                i <= ts@.len(),
                out@.len() == i,
                forall|k: int| 0 <= k < i ==> (#[trigger] out@[k])@ == self.of(ts@[k]@),
            decreases ts@.len() - i,
        {
            out.push(self.rename(&ts[i]));
            i = i + 1;
        }
        assert(views(out@) =~= apply_all(
            views(ts@),
            |v: TyVid| Ty::Var(renamed(self.vars@, self.fresh@, v)),
            |c: CapVid| CapRow::Var(renamed_cap(self.caps@, self.cap_fresh@, c)),
        ));
        out
    }

    fn rename_fields(&self, fs: &Vec<(String, Type)>) -> (r: Vec<(String, Type)>)
        requires
            self.wf(),
        ensures
            field_views(r@) == apply_fields(
                field_views(fs@),
                |v: TyVid| Ty::Var(renamed(self.vars@, self.fresh@, v)),
                |c: CapVid| CapRow::Var(renamed_cap(self.caps@, self.cap_fresh@, c)),
            ),
        decreases fs,
    {
        let mut out: Vec<(String, Type)> = Vec::new();
        let mut i: usize = 0;
        while i < fs.len()
            invariant
                self.wf(),
                i <= fs@.len(),
                out@.len() == i,
                forall|k: int|
                    0 <= k < i ==> (#[trigger] out@[k]).0@ == fs@[k].0@ && out@[k].1@ == self.of(
                        fs@[k].1@,
                    ),
            decreases fs@.len() - i,
        {
            let f = &fs[i];
            out.push((f.0.clone(), self.rename(&f.1)));
            i = i + 1;
        }
        assert(field_views(out@) =~= apply_fields(
            field_views(fs@),
            |v: TyVid| Ty::Var(renamed(self.vars@, self.fresh@, v)),
            |c: CapVid| CapRow::Var(renamed_cap(self.caps@, self.cap_fresh@, c)),
        ));
        out
    }

    /// Renames the quantified variables throughout a type.
    pub(crate) fn rename(&self, ty: &Type) -> (r: Type)
        requires
            self.wf(),
        ensures
            r@ == self.of(ty@),
        decreases ty,
    {
        match ty {
            Type::Var(v) => Type::Var(rename_var(&self.vars, &self.fresh, *v)),
            Type::Con(id, args) => Type::Con(*id, self.rename_all(args)),
            Type::Fn { params, ret, caps } => Type::Fn {
                params: self.rename_all(params),
                ret: Box::new(self.rename(ret)),
                caps: rename_row(&self.caps, &self.cap_fresh, *caps),
            },
            Type::Tuple(elems) => Type::Tuple(self.rename_all(elems)),
            Type::Record { fields, tail } => Type::Record {
                fields: self.rename_fields(fields),
                tail: *tail,
            },
            Type::Alias { name, body } => Type::Alias {
                name: *name,
                body: Box::new(self.rename(body)),
            },
            Type::Rigid { id, name } => Type::Rigid { id: *id, name: name.clone() },
            Type::Error => Type::Error,
        }
    }
}

/// What instantiating a scheme gives, where the table has `nt` type variables
/// and `nc` capability variables.
pub open spec fn instantiated(p: Poly, nt: nat, nc: nat) -> Ty {
    instance(
        p.ty,
        p.vars,
        fresh_vars(nt, p.vars.len()),
        p.cap_vars,
        fresh_caps(nc, p.cap_vars.len()),
    )
}

/// The constraints that instantiating a scheme defers.
pub open spec fn deferred(p: Poly, nt: nat) -> Seq<Pred> {
    p.constraints.map_values(
        |c: Pred| pred_instance(c, p.vars, fresh_vars(nt, p.vars.len())),
    )
}

/// The table after instantiating a scheme.
pub open spec fn after_instantiate(tb: Table, p: Poly) -> Table {
    Table {
        types: with_slots(tb.types, p.vars.len()),
        caps: with_slots(tb.caps, p.cap_vars.len()),
    }
}

/// Replaces every quantified variable of a scheme by a fresh one, and defers
/// the scheme's constraints under the same replacement.
#[must_use]
pub fn instantiate(ctx: &mut InferCtx, scheme: &Scheme) -> (r: Type)
    requires
        old(ctx).wf(),
        old(ctx).table().types.len() + scheme@.vars.len() <= u32::MAX,
        old(ctx).table().caps.len() + scheme@.cap_vars.len() <= u32::MAX,
    ensures
        final(ctx).wf(),
        r@ == instantiated(scheme@, old(ctx).table().types.len(), old(ctx).table().caps.len()),
        final(ctx).table() == after_instantiate(old(ctx).table(), scheme@),
        preds(final(ctx).deferred_constraints@) == preds(old(ctx).deferred_constraints@) + deferred(
            scheme@,
            old(ctx).table().types.len(),
        ),
        *final(ctx) == (InferCtx {
            vars: final(ctx).vars,
            deferred_constraints: final(ctx).deferred_constraints,
            ..*old(ctx)
        }),
{
    let ghost tb = ctx.table();
    let mut fresh: Vec<TyVid> = Vec::new();
    let mut i: usize = 0;
    assert(with_slots(tb.types, 0) =~= tb.types);
    assert(ctx.table() =~= (Table { types: with_slots(tb.types, 0), caps: tb.caps }));
    while i < scheme.vars.len()
        invariant
            i <= scheme.vars@.len(),
            ctx.wf(),
            tb == old(ctx).table(),
            tb.types.len() + scheme@.vars.len() <= u32::MAX,
            fresh@ =~= fresh_vars(tb.types.len(), i as nat),
            ctx.table() == (Table { types: with_slots(tb.types, i as nat), caps: tb.caps }),
            *ctx == (InferCtx { vars: ctx.vars, ..*old(ctx) }),
        decreases scheme.vars@.len() - i,
    {
        fresh.push(ctx.fresh_tyvid());
        i = i + 1;
        assert(with_slots(tb.types, (i - 1) as nat).push(None) =~= with_slots(
            tb.types,
            i as nat,
        ));
    }
    let mut cap_fresh: Vec<CapVid> = Vec::new();
    let mut j: usize = 0;
    assert(with_slots(tb.caps, 0) =~= tb.caps);
    while j < scheme.cap_vars.len()
        invariant
            j <= scheme.cap_vars@.len(),
            ctx.wf(),
            tb == old(ctx).table(),
            tb.caps.len() + scheme@.cap_vars.len() <= u32::MAX,
            cap_fresh@ =~= fresh_caps(tb.caps.len(), j as nat),
            ctx.table() == (Table {
                types: with_slots(tb.types, scheme@.vars.len()),
                caps: with_slots(tb.caps, j as nat),
            }),
            *ctx == (InferCtx { vars: ctx.vars, ..*old(ctx) }),
        decreases scheme.cap_vars@.len() - j,
    {
        cap_fresh.push(ctx.vars.fresh_cap());
        j = j + 1;
        assert(with_slots(tb.caps, (j - 1) as nat).push(None) =~= with_slots(tb.caps, j as nat));
    }
    let vars = scheme.vars.clone();
    let caps = scheme.cap_vars.clone();
    assert(vars@ =~= scheme.vars@);
    assert(caps@ =~= scheme.cap_vars@);
    let renaming = Renaming { vars, fresh, caps, cap_fresh };
    let r = renaming.rename(&scheme.ty);
    let ghost pending = preds(ctx.deferred_constraints@);
    let ghost want = deferred(scheme@, tb.types.len());
    let mut k: usize = 0;
    assert(pending + want.take(0) =~= pending);
    while k < scheme.constraints.len()
        invariant
            k <= scheme.constraints@.len(),
            ctx.wf(),
            renaming.wf(),
            renaming.vars@ == scheme.vars@,
            renaming.fresh@ == fresh_vars(tb.types.len(), scheme@.vars.len()),
            ctx.table() == after_instantiate(tb, scheme@),
            want == deferred(scheme@, tb.types.len()),
            want.len() == scheme.constraints@.len(),
            preds(ctx.deferred_constraints@) == pending + want.take(k as int),
            *ctx == (InferCtx {
                vars: ctx.vars,
                deferred_constraints: ctx.deferred_constraints,
                ..*old(ctx)
            }),
        decreases scheme.constraints@.len() - k,
    {
        let c = &scheme.constraints[k];
        let mut tys: Vec<TyVid> = Vec::new();
        let mut m: usize = 0;
        while m < c.tys.len()
            invariant
                m <= c.tys@.len(),
                renaming.wf(),
                tys@.len() == m,
                forall|q: int|
                    0 <= q < m ==> #[trigger] tys@[q] == renamed(
                        renaming.vars@,
                        renaming.fresh@,
                        c.tys@[q],
                    ),
            decreases c.tys@.len() - m,
        {
            tys.push(rename_var(&renaming.vars, &renaming.fresh, c.tys[m]));
            m = m + 1;
        }
        let ghost before = ctx.deferred_constraints@;
        let d = Constraint { class: c.class, tys };
        assert(d@ == want[k as int]) by {
            assert(scheme@.constraints[k as int] == c@);
            assert(d@.tys =~= want[k as int].tys);
        }
        ctx.deferred_constraints.push(d);
        assert(preds(ctx.deferred_constraints@) =~= preds(before).push(d@));
        assert(want.take(k + 1) =~= want.take(k as int).push(want[k as int]));
        assert(pending + want.take(k + 1) =~= (pending + want.take(k as int)).push(
            want[k as int],
        ));
        k = k + 1;
    }
    assert(want.take(k as int) =~= want);
    r
}

/// A scheme that quantifies over nothing instantiates to its own type, and
/// nothing is allocated.
pub proof fn mono_instantiates_to_itself(t: Ty, tb: Table)
    ensures
        instantiated(mono(t), tb.types.len(), tb.caps.len()) == t,
        after_instantiate(tb, mono(t)) == tb,
        deferred(mono(t), tb.types.len()).len() == 0,
{
    let p = mono(t);
    let f = |v: TyVid| Ty::Var(renamed(p.vars, fresh_vars(tb.types.len(), 0), v));
    let g = |c: CapVid| CapRow::Var(renamed_cap(p.cap_vars, fresh_caps(tb.caps.len(), 0), c));
    assert forall|v: TyVid| #[trigger] f(v) == Ty::Var(v) by {
        p.vars.index_of_first_ensures(v);
    }
    assert forall|c: CapVid| #[trigger] g(c) == CapRow::Var(c) by {
        p.cap_vars.index_of_first_ensures(c);
    }
    apply_fixed(t, f, g);
    assert(with_slots(tb.types, 0) =~= tb.types);
    assert(with_slots(tb.caps, 0) =~= tb.caps);
}

/// Every variable of an instance is either a fresh one or one that the scheme
/// left free: no quantified variable survives.
pub proof fn instance_vars(p: Poly, nt: nat, nc: nat, w: TyVid)
    requires
        nt + p.vars.len() <= u32::MAX,
        occurs(w, instantiated(p, nt, nc)),
    ensures
        (nt <= w.0 < nt + p.vars.len()) || (occurs(w, p.ty) && !p.vars.contains(w)),
{
    let fresh = fresh_vars(nt, p.vars.len());
    let f = |v: TyVid| Ty::Var(renamed(p.vars, fresh, v));
    let g = |c: CapVid| CapRow::Var(
        renamed_cap(p.cap_vars, fresh_caps(nc, p.cap_vars.len()), c),
    );
    occurs_apply(p.ty, f, g, w);
    let v = choose|v: TyVid| #[trigger] occurs(v, p.ty) && occurs(w, f(v));
    p.vars.index_of_first_ensures(v);
}

/// What generalisation leaves free is what the environment has: a variable
/// that is free in the generalised scheme occurs in the environment's snapshot.
pub proof fn generalisation_keeps_env_vars(
    p: Poly,
    tb: Table,
    t: Ty,
    env_ty: Set<u32>,
    env_cap: Set<u32>,
    v: TyVid,
)
    requires
        is_generalisation(p, tb, t, env_ty, env_cap),
        occurs(v, p.ty),
    ensures
        p.vars.contains(v) <==> !env_ty.contains(v.0),
{
    assert(v == TyVid(v.0));
    assert(p.vars.contains(TyVid(v.0)) <==> occurs(TyVid(v.0), p.ty) && !env_ty.contains(v.0));
}

/// Instantiating a generalised type renames only variables that the
/// environment does not have.
pub proof fn instance_of_generalisation(
    p: Poly,
    tb: Table,
    t: Ty,
    env_ty: Set<u32>,
    env_cap: Set<u32>,
    nt: nat,
    v: TyVid,
)
    requires
        is_generalisation(p, tb, t, env_ty, env_cap),
        env_ty.contains(v.0),
    ensures
        renamed(p.vars, fresh_vars(nt, p.vars.len()), v) == v,
{
    assert(v == TyVid(v.0));
    assert(!p.vars.contains(TyVid(v.0)));
    p.vars.index_of_first_ensures(v);
}

/// Two ascending lists of the same ids are equal.
pub proof fn ascending_unique(s: Seq<u32>, t: Seq<u32>)
    requires
        ascending(s),
        ascending(t),
        forall|v: u32| #[trigger] s.contains(v) <==> t.contains(v),
    ensures
        s == t,
    decreases s.len(),
{
    if s.len() == 0 {
        if t.len() > 0 {
            assert(t.contains(t[0]));
            assert(s.contains(t[0]));
        }
        assert(s =~= t);
    } else {
        assert(s.contains(s.last()));
        assert(t.contains(s.last()));
        let i = choose|i: int| 0 <= i < t.len() && t[i] == s.last();
        assert(t.contains(t.last()));
        assert(s.contains(t.last()));
        let k = choose|k: int| 0 <= k < s.len() && s[k] == t.last();
        if i < t.len() - 1 {
            assert(t[i] < t[t.len() - 1]);
        }
        if k < s.len() - 1 {
            assert(s[k] < s[s.len() - 1]);
        }
        assert(s.last() == t.last());
        let s1 = s.drop_last();
        let t1 = t.drop_last();
        assert(ascending(s1)) by {
            assert forall|a: int, b: int| 0 <= a < b < s1.len() implies #[trigger] s1[a]
                < #[trigger] s1[b] by {
                assert(s[a] < s[b]);
            }
        }
        assert(ascending(t1)) by {
            assert forall|a: int, b: int| 0 <= a < b < t1.len() implies #[trigger] t1[a]
                < #[trigger] t1[b] by {
                assert(t[a] < t[b]);
            }
        }
        assert forall|v: u32| #[trigger] s1.contains(v) <==> t1.contains(v) by {
            if s1.contains(v) {
                let a = choose|a: int| 0 <= a < s1.len() && s1[a] == v;
                assert(s[a] == v);
                assert(s[a] < s[s.len() - 1]);
                assert(s.contains(v));
                assert(t.contains(v));
                let b = choose|b: int| 0 <= b < t.len() && t[b] == v;
                assert(t1[b] == v);
            }
            if t1.contains(v) {
                let a = choose|a: int| 0 <= a < t1.len() && t1[a] == v;
                assert(t[a] == v);
                assert(t[a] < t[t.len() - 1]);
                assert(t.contains(v));
                assert(s.contains(v));
                let b = choose|b: int| 0 <= b < s.len() && s[b] == v;
                assert(s1[b] == v);
            }
        }
        ascending_unique(s1, t1);
        assert(s =~= s1.push(s.last()));
        assert(t =~= t1.push(t.last()));
    }
}

/// The generalisation of a type.
pub open spec fn generalisation(tb: Table, t: Ty, env_ty: Set<u32>, env_cap: Set<u32>) -> Poly {
    choose|p: Poly| is_generalisation(p, tb, t, env_ty, env_cap)
}

/// There is one generalisation of a type.
pub proof fn generalisation_is_one(
    p: Poly,
    tb: Table,
    t: Ty,
    env_ty: Set<u32>,
    env_cap: Set<u32>,
)
    requires
        is_generalisation(p, tb, t, env_ty, env_cap),
    ensures
        p == generalisation(tb, t, env_ty, env_cap),
{
    let q = generalisation(tb, t, env_ty, env_cap);
    assert(is_generalisation(q, tb, t, env_ty, env_cap));
    assert forall|v: u32| #[trigger] raw_vars(p.vars).contains(v) <==> raw_vars(q.vars).contains(
        v,
    ) by {
        raw_contains(p.vars, v);
        raw_contains(q.vars, v);
        assert(p.vars.contains(TyVid(v)) <==> q.vars.contains(TyVid(v)));
    }
    ascending_unique(raw_vars(p.vars), raw_vars(q.vars));
    assert(p.vars =~= q.vars) by {
        assert(raw_vars(p.vars).len() == raw_vars(q.vars).len());
        assert forall|i: int| 0 <= i < p.vars.len() implies p.vars[i] == q.vars[i] by {
            assert(raw_vars(p.vars)[i] == raw_vars(q.vars)[i]);
        }
    }
    assert forall|c: u32| #[trigger] raw_caps(p.cap_vars).contains(c) <==> raw_caps(
        q.cap_vars,
    ).contains(c) by {
        raw_cap_contains(p.cap_vars, c);
        raw_cap_contains(q.cap_vars, c);
        assert(p.cap_vars.contains(CapVid(c)) <==> q.cap_vars.contains(CapVid(c)));
    }
    ascending_unique(raw_caps(p.cap_vars), raw_caps(q.cap_vars));
    assert(p.cap_vars =~= q.cap_vars) by {
        assert(raw_caps(p.cap_vars).len() == raw_caps(q.cap_vars).len());
        assert forall|i: int| 0 <= i < p.cap_vars.len() implies p.cap_vars[i] == q.cap_vars[i] by {
            assert(raw_caps(p.cap_vars)[i] == raw_caps(q.cap_vars)[i]);
        }
    }
    assert(p.constraints =~= q.constraints);
}

proof fn raw_contains(vs: Seq<TyVid>, v: u32)
    ensures
        raw_vars(vs).contains(v) <==> vs.contains(TyVid(v)),
{
    if raw_vars(vs).contains(v) {
        let i = choose|i: int| 0 <= i < raw_vars(vs).len() && raw_vars(vs)[i] == v;
        assert(vs[i] == TyVid(v));
    }
    if vs.contains(TyVid(v)) {
        let i = choose|i: int| 0 <= i < vs.len() && vs[i] == TyVid(v);
        assert(raw_vars(vs)[i] == v);
    }
}

proof fn raw_cap_contains(cs: Seq<CapVid>, c: u32)
    ensures
        raw_caps(cs).contains(c) <==> cs.contains(CapVid(c)),
{
    if raw_caps(cs).contains(c) {
        let i = choose|i: int| 0 <= i < raw_caps(cs).len() && raw_caps(cs)[i] == c;
        assert(cs[i] == CapVid(c));
    }
    if cs.contains(CapVid(c)) {
        let i = choose|i: int| 0 <= i < cs.len() && cs[i] == CapVid(c);
        assert(raw_caps(cs)[i] == c);
    }
}

} // verus!
