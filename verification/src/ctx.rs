use rustc_hash::FxHashMap;
use vstd::prelude::*;

use crate::error::TypeError;
use crate::fx::{by_name, get_name, get_pair, put_pair};
use crate::plans::{DictPlan, DictResolution};
use crate::qexpr::QuoteInfo;
use crate::table::{resolve, Table, VarTable};
use crate::text::same_text;
use crate::types::{Constraint, Poly, Scheme, Span, Ty, TyConDecl, TyConId, TyVid, Type};

verus! {

/// One scope of the environment: the names bound in it, in order.
pub struct Frame {
    pub bindings: Vec<(String, Scheme)>,
}

/// The names in scope, innermost scope last.
pub struct Env {
    pub frames: Vec<Frame>,
}

impl Frame {
    pub open spec fn view(&self) -> Seq<(Seq<char>, Poly)> {
        self.bindings@.map_values(|b: (String, Scheme)| (b.0@, b.1@))
    }

    fn rebind(self, name: String, scheme: Scheme) -> (r: Frame)
        ensures
            r@ == rebound(self@, name@, scheme@),
    {
        let mut bindings = self.bindings;
        let ghost was = self@;
        let mut i: usize = bindings.len();
        while i > 0
            invariant
                i <= bindings@.len(),
                bindings@ == self.bindings@,
                was == self@,
                forall|k: int| i <= k < was.len() ==> (#[trigger] was[k]).0 != name@,
            decreases i,
        {
            i = i - 1;
            assert(was[i as int].0 == bindings@[i as int].0@);
            if same_text(bindings[i].0.as_str(), name.as_str()) {
                proof {
                    replaced_at(was, name@, scheme@, i as int);
                }
                bindings.set(i, (name, scheme));
                let r = Frame { bindings };
                assert(r@ =~= was.update(i as int, (name@, scheme@)));
                return r;
            }
        }
        proof {
            not_in_frame(was, name@);
        }
        bindings.push((name, scheme));
        let r = Frame { bindings };
        assert(r@ =~= was.push((name@, scheme@)));
        r
    }
}

/// What a name is bound to in one scope: its last binding.
pub open spec fn in_frame(frame: Seq<(Seq<char>, Poly)>, name: Seq<char>) -> Option<Poly>
    decreases frame.len(),
{
    if frame.len() == 0 {
        None
    } else if frame.last().0 == name {
        Some(frame.last().1)
    } else {
        in_frame(frame.drop_last(), name)
    }
}

/// What a name is bound to: its binding in the innermost scope that has one.
pub open spec fn in_scope(frames: Seq<Seq<(Seq<char>, Poly)>>, name: Seq<char>) -> Option<Poly>
    decreases frames.len(),
{
    if frames.len() == 0 {
        None
    } else {
        match in_frame(frames.last(), name) {
            Some(p) => Some(p),
            None => in_scope(frames.drop_last(), name),
        }
    }
}

/// A scope with the binding of a name replaced.
pub open spec fn replaced(frame: Seq<(Seq<char>, Poly)>, name: Seq<char>, p: Poly) -> Seq<
    (Seq<char>, Poly),
>
    decreases frame.len(),
{
    if frame.len() == 0 {
        frame
    } else if frame.last().0 == name {
        frame.drop_last().push((name, p))
    } else {
        replaced(frame.drop_last(), name, p).push(frame.last())
    }
}

/// A scope after binding a name, in place of what it was bound to.
pub open spec fn rebound(frame: Seq<(Seq<char>, Poly)>, name: Seq<char>, p: Poly) -> Seq<
    (Seq<char>, Poly),
> {
    if in_frame(frame, name) is Some {
        replaced(frame, name, p)
    } else {
        frame.push((name, p))
    }
}

/// A name that no binding of a scope has is not bound in it.
proof fn not_in_frame(frame: Seq<(Seq<char>, Poly)>, name: Seq<char>)
    requires
        forall|k: int| 0 <= k < frame.len() ==> (#[trigger] frame[k]).0 != name,
    ensures
        in_frame(frame, name) is None,
    decreases frame.len(),
{
    if frame.len() > 0 {
        not_in_frame(frame.drop_last(), name);
    }
}

/// The binding that is replaced is the last one.
proof fn replaced_at(frame: Seq<(Seq<char>, Poly)>, name: Seq<char>, p: Poly, i: int)
    requires
        0 <= i < frame.len(),
        frame[i].0 == name,
        forall|k: int| i < k < frame.len() ==> (#[trigger] frame[k]).0 != name,
    ensures
        in_frame(frame, name) is Some,
        replaced(frame, name, p) == frame.update(i, (name, p)),
    decreases frame.len(),
{
    if i == frame.len() - 1 {
        assert(frame.drop_last().push((name, p)) =~= frame.update(i, (name, p)));
    } else {
        replaced_at(frame.drop_last(), name, p, i);
        assert(frame.drop_last().update(i, (name, p)).push(frame.last()) =~= frame.update(
            i,
            (name, p),
        ));
    }
}

/// The scopes after binding a name in the innermost one.
pub open spec fn with_binding(
    frames: Seq<Seq<(Seq<char>, Poly)>>,
    name: Seq<char>,
    p: Poly,
) -> Seq<Seq<(Seq<char>, Poly)>> {
    frames.update(frames.len() - 1, rebound(frames.last(), name, p))
}

impl Env {
    pub open spec fn view(&self) -> Seq<Seq<(Seq<char>, Poly)>> {
        self.frames@.map_values(|f: Frame| f@)
    }

    /// The environment without scopes.
    pub fn new() -> (r: Env)
        ensures
            r@ == Seq::<Seq<(Seq<char>, Poly)>>::empty(),
    {
        let r = Env { frames: Vec::new() };
        assert(r@ =~= Seq::<Seq<(Seq<char>, Poly)>>::empty());
        r
    }

    /// Opens a scope.
    pub fn push_frame(&mut self)
        ensures
            final(self)@ == old(self)@.push(Seq::empty()),
    {
        let f = Frame { bindings: Vec::new() };
        assert(f@ =~= Seq::empty());
        self.frames.push(f);
        assert(self@ =~= old(self)@.push(Seq::empty()));
    }

    /// Closes the innermost scope.
    pub fn pop_frame(&mut self)
        requires
            old(self)@.len() > 0,
        ensures
            final(self)@ == old(self)@.drop_last(),
    {
        self.frames.pop();
        assert(self@ =~= old(self)@.drop_last());
    }

    /// Binds a name in the innermost scope, in place of what it was bound to
    /// there.
    pub fn bind(&mut self, name: String, scheme: Scheme)
        requires
            old(self)@.len() > 0,
        ensures
            final(self)@ == with_binding(old(self)@, name@, scheme@),
    {
        let ghost was = self.frames@;
        match self.frames.pop() {
            Some(f) => {
                let g = f.rebind(name, scheme);
                self.frames.push(g);
                assert(self@ =~= with_binding(old(self)@, name@, scheme@));
            },
            None => {},
        }
    }

    /// The scheme that a name is bound to.
    pub fn lookup(&self, name: &str) -> (r: Option<&Scheme>)
        ensures
            r is Some <==> in_scope(self@, name@) is Some,
            r matches Some(s) ==> in_scope(self@, name@) == Some(s@),
    {
        let mut i: usize = self.frames.len();
        let ghost all = self@;
        assert(all.take(i as int) =~= all);
        while i > 0
            invariant
                i <= self.frames@.len(),
                all == self@,
                in_scope(all, name@) == in_scope(all.take(i as int), name@),
            decreases i,
        {
            i = i - 1;
            let frame = &self.frames[i];
            let ghost here = frame@;
            assert(all.take(i + 1).last() == here);
            assert(all.take(i + 1).drop_last() =~= all.take(i as int));
            let mut k: usize = frame.bindings.len();
            assert(here.take(k as int) =~= here);
            while k > 0
                invariant
                    k <= frame.bindings@.len(),
                    i < self.frames@.len(),
                    here == frame@,
                    all == self@,
                    *frame == self.frames@[i as int],
                    in_scope(all, name@) == in_scope(all.take(i + 1), name@),
                    all.take(i + 1).last() == here,
                    in_frame(here, name@) == in_frame(here.take(k as int), name@),
                decreases k,
            {
                k = k - 1;
                let b = &frame.bindings[k];
                assert(here.take(k + 1).last() == (b.0@, b.1@));
                assert(here.take(k + 1).drop_last() =~= here.take(k as int));
                if same_text(b.0.as_str(), name) {
                    return Some(&b.1);
                }
            }
        }
        None
    }
}

/// What an id is of.
#[derive(Clone, Copy, Debug, PartialEq, Eq, Structural)]
pub enum NodeKind {
    Expr,
    Block,
    Try,
}

/// The ids of the expressions of a module, by their sort and the two ends of
/// their place.
#[derive(Debug)]
pub struct NodeIdMap {
    pub exprs: FxHashMap<(u32, u32), u32>,
    pub blocks: FxHashMap<(u32, u32), u32>,
    pub tries: FxHashMap<(u32, u32), u32>,
}

impl NodeIdMap {
    /// The ids of one sort.
    pub open spec fn ids(&self, kind: NodeKind) -> Map<(u32, u32), u32> {
        match kind {
            NodeKind::Expr => self.exprs@,
            NodeKind::Block => self.blocks@,
            NodeKind::Try => self.tries@,
        }
    }

    /// The id at a place.
    pub open spec fn at(&self, span: Span, kind: NodeKind) -> Option<u32> {
        if self.ids(kind).dom().contains((span.start, span.end)) {
            Some(self.ids(kind)[(span.start, span.end)])
        } else {
            None
        }
    }

    /// No ids.
    pub fn new() -> (r: NodeIdMap)
        ensures
            forall|k: NodeKind| #[trigger] r.ids(k) == Map::<(u32, u32), u32>::empty(),
    {
        NodeIdMap {
            exprs: FxHashMap::default(),
            blocks: FxHashMap::default(),
            tries: FxHashMap::default(),
        }
    }

    /// Notes an id.
    pub fn assign(&mut self, span: Span, kind: NodeKind, id: u32)
        ensures
            forall|k: NodeKind| #[trigger]
                final(self).ids(k) == if k == kind {
                    old(self).ids(k).insert((span.start, span.end), id)
                } else {
                    old(self).ids(k)
                },
    {
        let key = (span.start, span.end);
        match kind {
            NodeKind::Expr => put_pair(&mut self.exprs, key, id),
            NodeKind::Block => put_pair(&mut self.blocks, key, id),
            NodeKind::Try => put_pair(&mut self.tries, key, id),
        }
    }

    /// The id at a place.
    pub fn get(&self, span: Span, kind: NodeKind) -> (r: Option<u32>)
        ensures
            r == self.at(span, kind),
    {
        let key = (span.start, span.end);
        let found = match kind {
            NodeKind::Expr => get_pair(&self.exprs, key),
            NodeKind::Block => get_pair(&self.blocks, key),
            NodeKind::Try => get_pair(&self.tries, key),
        };
        match found {
            Some(id) => Some(*id),
            None => None,
        }
    }
}

/// What an entry of the table of expression types denotes.
pub open spec fn node_view(t: Option<Type>) -> Option<Ty> {
    match t {
        Some(t) => Some(t@),
        None => None,
    }
}

/// What the table of expression types denotes.
pub open spec fn node_views(ts: Seq<Option<Type>>) -> Seq<Option<Ty>> {
    ts.map_values(|t: Option<Type>| node_view(t))
}

/// The table of expression types with the type of the expression at a place,
/// grown to hold it.
pub open spec fn noted(
    nodes: Seq<Option<Ty>>,
    ids: Map<(u32, u32), u32>,
    span: Span,
    t: Ty,
) -> Seq<Option<Ty>> {
    if ids.dom().contains((span.start, span.end)) {
        let id = ids[(span.start, span.end)] as int;
        let n = if nodes.len() > id {
            nodes.len()
        } else {
            (id + 1) as nat
        };
        Seq::new(
            n,
            |k: int|
                if k == id {
                    Some(t)
                } else if k < nodes.len() {
                    nodes[k]
                } else {
                    None
                },
        )
    } else {
        nodes
    }
}

/// The receivers of queries.
#[derive(Clone, Copy, Debug, PartialEq, Eq, Structural)]
pub struct RowsTycons {
    pub query: TyConId,
    pub join: TyConId,
    pub left_join: TyConId,
    pub right_join: TyConId,
    pub full_join: TyConId,
    pub option: TyConId,
}

/// The state of inference for one module.
pub struct InferCtx {
    /// What is known of the variables.
    pub vars: VarTable,
    /// The names in scope.
    pub env: Env,
    /// The diagnostics so far.
    pub errors: Vec<TypeError>,
    /// The class constraints that wait to be solved.
    pub deferred_constraints: Vec<Constraint>,
    /// The constructor table.
    pub tycon_decls: Vec<TyConDecl>,
    /// The constructors that a source name refers to.
    pub user_tycon_names: FxHashMap<String, TyConId>,
    /// The return type of the enclosing function.
    pub current_fn_ret: Option<Type>,
    /// The type that `?` propagates into, inside a `try` block.
    pub current_propagate_target: Option<Type>,
    /// The module that is being checked.
    pub current_module_raw: Option<u32>,
    /// The ids of the expressions.
    pub node_ids: NodeIdMap,
    /// The types of the expressions, by their ids.
    pub node_types: Vec<Option<Type>>,
    /// The lambdas that are quotes, by the two ends of their place.
    pub quoted_lambdas: FxHashMap<(u32, u32), QuoteInfo>,
    /// The schemes of the top-level functions, by the ids of their bodies.
    pub schemes_accum: FxHashMap<u32, Scheme>,
    /// The schemes of the top-level functions and constants, by their names.
    pub name_schemes_accum: FxHashMap<String, Scheme>,
    /// How the constraints were solved.
    pub dict_resolution_accum: DictResolution,
    /// The receivers of queries, where all of them are known.
    pub rows_tycons: Option<RowsTycons>,
}

impl InferCtx {
    /// The table of variables is in order.
    pub open spec fn wf(&self) -> bool {
        self.vars.wf()
    }

    /// What is known of the variables.
    pub open spec fn table(&self) -> Table {
        self.vars@
    }

    /// `n` more type variables can be allocated.
    pub open spec fn has_room(&self, n: int) -> bool {
        self.vars@.types.len() + n <= u32::MAX
    }

    /// A context that knows nothing.
    pub fn new() -> (r: InferCtx)
        ensures
            r.wf(),
            r.table() == (Table { types: Seq::empty(), caps: Seq::empty() }),
            r.env@.len() == 0,
            r.errors@.len() == 0,
            r.deferred_constraints@.len() == 0,
            r.tycon_decls@.len() == 0,
            by_name(r.user_tycon_names@) == Map::<Seq<char>, TyConId>::empty(),
            r.current_fn_ret is None,
            r.current_propagate_target is None,
            r.current_module_raw is None,
            forall|k: NodeKind| #[trigger]
                r.node_ids.ids(k) == Map::<(u32, u32), u32>::empty(),
            r.node_types@.len() == 0,
            r.quoted_lambdas@ == Map::<(u32, u32), QuoteInfo>::empty(),
            r.schemes_accum@ == Map::<u32, Scheme>::empty(),
            by_name(r.name_schemes_accum@) == Map::<Seq<char>, Scheme>::empty(),
            r.dict_resolution_accum@ == Map::<(u32, u32), DictPlan>::empty(),
            r.rows_tycons is None,
    {
        let names: FxHashMap<String, TyConId> = FxHashMap::default();
        assert(by_name(names@) =~= Map::<Seq<char>, TyConId>::empty());
        let schemes: FxHashMap<String, Scheme> = FxHashMap::default();
        assert(by_name(schemes@) =~= Map::<Seq<char>, Scheme>::empty());
        InferCtx {
            vars: VarTable::new(),
            env: Env::new(),
            errors: Vec::new(),
            deferred_constraints: Vec::new(),
            tycon_decls: Vec::new(),
            user_tycon_names: names,
            current_fn_ret: None,
            current_propagate_target: None,
            current_module_raw: None,
            node_ids: NodeIdMap::new(),
            node_types: Vec::new(),
            quoted_lambdas: FxHashMap::default(),
            schemes_accum: FxHashMap::default(),
            name_schemes_accum: schemes,
            dict_resolution_accum: FxHashMap::default(),
            rows_tycons: None,
        }
    }

    /// Allocates a type variable.
    pub fn fresh_tyvid(&mut self) -> (r: TyVid)
        requires
            old(self).wf(),
            old(self).has_room(1),
        ensures
            final(self).wf(),
            r == TyVid(old(self).table().types.len() as u32),
            final(self).table() == (Table {
                types: old(self).table().types.push(None),
                ..old(self).table()
            }),
            *final(self) == (InferCtx { vars: final(self).vars, ..*old(self) }),
    {
        self.vars.fresh()
    }

    /// Fills in everything that is known of the variables of a type.
    pub fn deep_resolve(&self, ty: &Type) -> (r: Type)
        ensures
            r@ == resolve(self.table(), ty@),
    {
        self.vars.deep_resolve(ty)
    }

    /// Notes the type of the expression at a place, where the expression has an
    /// id.
    pub fn write_node_type(&mut self, span: Span, ty: &Type)
        ensures
            node_views(final(self).node_types@) == noted(
                node_views(old(self).node_types@),
                old(self).node_ids.ids(NodeKind::Expr),
                span,
                ty@,
            ),
            *final(self) == (InferCtx { node_types: final(self).node_types, ..*old(self) }),
    {
        let ghost before = node_views(self.node_types@);
        if let Some(id) = self.node_ids.get(span, NodeKind::Expr) {
            let at: usize = id as usize;
            let ghost n = self.node_types@.len();
            while self.node_types.len() <= at
                invariant
                    n == before.len(),
                    before.len() <= self.node_types@.len(),
                    self.node_types@.len() <= n || self.node_types@.len() <= at + 1,
                    forall|k: int|
                        0 <= k < self.node_types@.len() ==> node_view(#[trigger] self.node_types@[k])
                            == if k < before.len() {
                            before[k]
                        } else {
                            None
                        },
                    *self == (InferCtx { node_types: self.node_types, ..*old(self) }),
                decreases at + 1 - self.node_types@.len(),
            {
                self.node_types.push(None);
            }
            let ghost grown = self.node_types@;
            self.node_types.set(at, Some(ty.clone()));
            assert(node_views(self.node_types@) =~= noted(
                before,
                old(self).node_ids.ids(NodeKind::Expr),
                span,
                ty@,
            )) by {
                assert forall|k: int| 0 <= k < self.node_types@.len() implies node_view(
                    self.node_types@[k],
                ) == noted(before, old(self).node_ids.ids(NodeKind::Expr), span, ty@)[k] by {
                    if k != at {
                        assert(self.node_types@[k] == grown[k]);
                    }
                }
            }
        }
    }

    /// The constructor that a source name refers to.
    pub fn tycon_named(&self, name: &str) -> (r: Option<TyConId>)
        ensures
            r is Some <==> by_name(self.user_tycon_names@).dom().contains(name@),
            r matches Some(id) ==> id == by_name(self.user_tycon_names@)[name@],
    {
        match get_name(&self.user_tycon_names, name) {
            Some(id) => Some(*id),
            None => None,
        }
    }
}

proof fn replaced_lookup(
    frame: Seq<(Seq<char>, Poly)>,
    name: Seq<char>,
    p: Poly,
    other: Seq<char>,
)
    requires
        other != name,
    ensures
        in_frame(frame, name) is Some ==> in_frame(replaced(frame, name, p), name) == Some(p),
        in_frame(replaced(frame, name, p), other) == in_frame(frame, other),
    decreases frame.len(),
{
    if frame.len() > 0 {
        replaced_lookup(frame.drop_last(), name, p, other);
        let r = replaced(frame, name, p);
        if frame.last().0 == name {
            assert(r.drop_last() =~= frame.drop_last());
        } else {
            assert(r.drop_last() =~= replaced(frame.drop_last(), name, p));
        }
    }
}

/// A name means what it was last bound to in the innermost scope, whatever it
/// meant before; other names keep their meaning.
pub proof fn latest_binding_wins(
    frames: Seq<Seq<(Seq<char>, Poly)>>,
    name: Seq<char>,
    p: Poly,
    other: Seq<char>,
)
    requires
        frames.len() > 0,
        other != name,
    ensures
        in_scope(with_binding(frames, name, p), name) == Some(p),
        in_scope(with_binding(frames, name, p), other) == in_scope(frames, other),
{
    let after = with_binding(frames, name, p);
    assert(after.drop_last() =~= frames.drop_last());
    replaced_lookup(frames.last(), name, p, other);
    assert(frames.last().push((name, p)).drop_last() =~= frames.last());
}

/// Closing a scope undoes what was bound in it.
pub proof fn closing_undoes_bindings(
    frames: Seq<Seq<(Seq<char>, Poly)>>,
    name: Seq<char>,
    p: Poly,
)
    ensures
        with_binding(frames.push(Seq::empty()), name, p).drop_last() == frames,
{
    assert(with_binding(frames.push(Seq::empty()), name, p).drop_last() =~= frames);
}

/// Binding a name keeps bound what was bound, and binds the name.
pub proof fn rebound_keeps(
    frame: Seq<(Seq<char>, Poly)>,
    name: Seq<char>,
    p: Poly,
    n: Seq<char>,
)
    ensures
        in_frame(rebound(frame, name, p), name) == Some(p),
        in_frame(frame, n) is Some ==> in_frame(rebound(frame, name, p), n) is Some,
{
    let other = if n != name {
        n
    } else {
        name.push('_')
    };
    assert(other != name) by {
        if n == name {
            assert(other.len() == name.len() + 1);
        }
    }
    replaced_lookup(frame, name, p, other);
    assert(frame.push((name, p)).drop_last() =~= frame);
}

} // verus!
