use vstd::prelude::*;

verus! {

/// Index into a module's top-level function declarations, in source order.
#[derive(Clone, Copy, Debug, PartialEq, Eq, Hash, Structural)]
pub struct DeclId(pub usize);

/// A directed call graph over the top-level functions of one module.
pub struct CallGraph {
    /// Number of nodes: the number of top-level function declarations.
    pub n: usize,
    /// `adj[i]` lists the declarations that declaration `i` calls by name.
    pub adj: Vec<Vec<DeclId>>,
}

impl CallGraph {
    /// Every node has an adjacency list, every edge stays inside the graph,
    /// and the nodes can be numbered by a `u32`.
    pub open spec fn wf(self) -> bool {
        &&& self.n <= self.adj@.len()
        &&& self.n <= u32::MAX
        &&& forall|i: int, k: int|
            0 <= i < self.n && 0 <= k < self.adj@[i]@.len() ==> (#[trigger] self.adj@[i]@[k]).0
                < self.n
    }

    /// Declaration `x` calls declaration `y`.
    pub open spec fn edge(self, x: int, y: int) -> bool {
        &&& 0 <= x < self.n
        &&& exists|k: int| 0 <= k < self.adj@[x]@.len() && (#[trigger] self.adj@[x]@[k]).0 == y
    }

    /// `y` can be reached from `x` along exactly `k` calls.
    pub open spec fn reach_in(self, x: int, y: int, k: nat) -> bool
        decreases k,
    {
        if k == 0 {
            x == y
        } else {
            exists|z: int| #[trigger] self.edge(x, z) && self.reach_in(z, y, (k - 1) as nat)
        }
    }

    /// `y` can be reached from `x` along zero or more calls.
    pub open spec fn reach(self, x: int, y: int) -> bool {
        exists|k: nat| self.reach_in(x, y, k)
    }
}

proof fn reach_refl(g: CallGraph, x: int)
    ensures
        g.reach(x, x),
{
    assert(g.reach_in(x, x, 0));
}

proof fn reach_in_trans(g: CallGraph, x: int, y: int, z: int, a: nat, b: nat)
    requires
        g.reach_in(x, y, a),
        g.reach_in(y, z, b),
    ensures
        g.reach_in(x, z, a + b),
    decreases a,
{
    if a > 0 {
        let m = choose|m: int| #[trigger] g.edge(x, m) && g.reach_in(m, y, (a - 1) as nat);
        reach_in_trans(g, m, y, z, (a - 1) as nat, b);
        assert((a + b - 1) as nat == (a - 1) as nat + b);
        assert(g.edge(x, m) && g.reach_in(m, z, (a + b - 1) as nat));
    }
}

proof fn reach_trans(g: CallGraph, x: int, y: int, z: int)
    requires
        g.reach(x, y),
        g.reach(y, z),
    ensures
        g.reach(x, z),
{
    let a = choose|k: nat| g.reach_in(x, y, k);
    let b = choose|k: nat| g.reach_in(y, z, k);
    reach_in_trans(g, x, y, z, a, b);
    assert(g.reach_in(x, z, a + b));
}

proof fn reach_edge(g: CallGraph, x: int, y: int)
    requires
        g.edge(x, y),
    ensures
        g.reach(x, y),
{
    assert(g.reach_in(y, y, 0));
    assert(g.edge(x, y) && g.reach_in(y, y, (1 - 1) as nat));
    assert(g.reach_in(x, y, 1));
}

/// A set that no edge leaves holds everything that can be reached from it.
proof fn reach_in_closed(g: CallGraph, c: spec_fn(int) -> bool, x: int, y: int, k: nat)
    requires
        c(x),
        forall|a: int, b: int| c(a) && #[trigger] g.edge(a, b) ==> c(b),
        g.reach_in(x, y, k),
    ensures
        c(y),
    decreases k,
{
    if k > 0 {
        let m = choose|m: int| #[trigger] g.edge(x, m) && g.reach_in(m, y, (k - 1) as nat);
        reach_in_closed(g, c, m, y, (k - 1) as nat);
    }
}

proof fn reach_closed(g: CallGraph, c: spec_fn(int) -> bool, x: int, y: int)
    requires
        c(x),
        forall|a: int, b: int| c(a) && #[trigger] g.edge(a, b) ==> c(b),
        g.reach(x, y),
    ensures
        c(y),
{
    let k = choose|k: nat| g.reach_in(x, y, k);
    reach_in_closed(g, c, x, y, k);
}

/// Declaration `x` is listed in component `i`.
pub open spec fn in_component(sccs: Seq<Seq<DeclId>>, i: int, x: int) -> bool {
    &&& 0 <= i < sccs.len()
    &&& exists|j: int| 0 <= j < sccs[i].len() && (#[trigger] sccs[i][j]).0 == x
}

/// No declaration is listed twice, in one component or in two.
pub open spec fn listed_once(sccs: Seq<Seq<DeclId>>) -> bool {
    forall|i: int, j: int, k: int, l: int|
        #![trigger sccs[i][j], sccs[k][l]]
        0 <= i < sccs.len() && 0 <= j < sccs[i].len() && 0 <= k < sccs.len() && 0 <= l
            < sccs[k].len() && sccs[i][j].0 == sccs[k][l].0 ==> i == k && j == l
}

/// Each component is one class of mutual reachability.
pub open spec fn are_classes(g: CallGraph, sccs: Seq<Seq<DeclId>>) -> bool {
    forall|i: int, x: int, y: int|
        #![trigger in_component(sccs, i, x), g.reach(x, y)]
        in_component(sccs, i, x) ==> (in_component(sccs, i, y) <==> g.reach(x, y) && g.reach(y, x))
}

/// A call never leads to a later component.
pub open spec fn callees_first(g: CallGraph, sccs: Seq<Seq<DeclId>>) -> bool {
    forall|i: int, x: int, y: int|
        #![trigger in_component(sccs, i, x), g.edge(x, y)]
        in_component(sccs, i, x) && g.edge(x, y) ==> exists|k: int|
            k <= i && #[trigger] in_component(sccs, k, y)
}

/// Declaration `x` is listed in some component.
pub open spec fn listed(sccs: Seq<Seq<DeclId>>, x: int) -> bool {
    exists|i: int| in_component(sccs, i, x)
}

/// The components of `g`, callees before callers.
pub open spec fn are_sccs(g: CallGraph, sccs: Seq<Seq<DeclId>>) -> bool {
    &&& forall|x: int| 0 <= x < g.n <==> #[trigger] listed(sccs, x)
    &&& forall|i: int| 0 <= i < sccs.len() ==> (#[trigger] sccs[i]).len() > 0
    &&& listed_once(sccs)
    &&& are_classes(g, sccs)
    &&& callees_first(g, sccs)
}

/// The state of the depth-first search.
struct Search {
    index: Seq<Option<u32>>,
    low: Seq<u32>,
    stack: Seq<DeclId>,
    on: Seq<bool>,
    work: Seq<(usize, usize)>,
    /// Where on `stack` each open node of `work` stands.
    base: Seq<int>,
    /// The visited nodes in the order of their discovery.
    order: Seq<int>,
    /// The components that are complete.
    done: Seq<Seq<DeclId>>,
}

impl Search {
    spec fn visited(self, v: int) -> bool {
        self.index[v] is Some
    }

    spec fn idx(self, v: int) -> int {
        self.index[v]->0 as int
    }

    spec fn node(self, k: int) -> int {
        self.stack[k].0 as int
    }

    spec fn open_node(self, i: int) -> int {
        self.work[i].0 as int
    }

    /// The band of the open node `i` ends here on the stack.
    spec fn band_end(self, i: int) -> int {
        if i + 1 < self.base.len() {
            self.base[i + 1]
        } else {
            self.stack.len() as int
        }
    }

    spec fn in_band(self, i: int, k: int) -> bool {
        0 <= i < self.base.len() && self.base[i] <= k < self.band_end(i)
    }

    /// How many of the open node's calls have been followed to their end.
    spec fn followed(self, i: int) -> int {
        if i + 1 < self.work.len() {
            self.work[i].1 - 1
        } else {
            self.work[i].1 as int
        }
    }

    spec fn shape(self, g: CallGraph) -> bool {
        &&& self.index.len() == g.n
        &&& self.low.len() == g.n
        &&& self.on.len() == g.n
        &&& self.base.len() == self.work.len()
        &&& forall|k: int|
            0 <= k < self.order.len() ==> 0 <= #[trigger] self.order[k] < g.n
                && self.index[self.order[k]] == Some(k as u32)
        &&& self.order.len() <= g.n
        &&& forall|v: int|
            0 <= v < g.n && #[trigger] self.visited(v) ==> self.idx(v) < self.order.len()
                && self.order[self.idx(v)] == v
    }

    spec fn stack_ok(self, g: CallGraph) -> bool {
        &&& forall|k: int|
            0 <= k < self.stack.len() ==> 0 <= #[trigger] self.node(k) < g.n && self.visited(
                self.node(k),
            ) && self.on[self.node(k)]
        &&& forall|a: int, b: int|
            0 <= a < b < self.stack.len() ==> self.idx(#[trigger] self.node(a)) < self.idx(
                #[trigger] self.node(b),
            )
        &&& forall|v: int| 0 <= v < g.n && self.on[v] ==> #[trigger] self.held(v)
    }

    /// `v` stands on the stack.
    spec fn held(self, v: int) -> bool {
        exists|k: int| 0 <= k < self.stack.len() && #[trigger] self.node(k) == v
    }

    /// The low link of the node at `k` names a node at or below it that it reaches.
    spec fn low_at(self, g: CallGraph, k: int) -> bool {
        &&& self.low[self.node(k)] <= self.idx(self.node(k))
        &&& exists|m: int|
            0 <= m <= k && self.idx(#[trigger] self.node(m)) == self.low[self.node(k)] && g.reach(
                self.node(k),
                self.node(m),
            )
    }

    spec fn done_ok(self, g: CallGraph) -> bool {
        &&& forall|i: int, x: int| #[trigger]
            in_component(self.done, i, x) ==> 0 <= x < g.n && self.visited(x) && !self.on[x]
        &&& forall|v: int|
            0 <= v < g.n && #[trigger] self.visited(v) && !self.on[v] ==> listed(self.done, v)
        &&& forall|i: int| 0 <= i < self.done.len() ==> (#[trigger] self.done[i]).len() > 0
        &&& listed_once(self.done)
        &&& are_classes(g, self.done)
        &&& callees_first(g, self.done)
    }

    spec fn work_ok(self, g: CallGraph) -> bool {
        &&& forall|i: int|
            0 <= i < self.base.len() ==> 0 <= #[trigger] self.base[i] < self.stack.len()
                && self.node(self.base[i]) == self.open_node(i) && self.work[i].1
                <= g.adj@[self.open_node(i)]@.len()
        &&& forall|i: int, j: int|
            0 <= i < j < self.base.len() ==> #[trigger] self.base[i] < #[trigger] self.base[j]
        &&& self.base.len() > 0 ==> self.base[0] == 0
        &&& self.base.len() == 0 ==> self.stack.len() == 0
        &&& forall|i: int| 0 <= i < self.base.len() - 1 ==> #[trigger] self.called_next(g, i)
    }

    /// The next open node is the one that the open node `i` called last.
    spec fn called_next(self, g: CallGraph, i: int) -> bool {
        &&& self.work[i].1 >= 1
        &&& g.adj@[self.open_node(i)]@[self.work[i].1 - 1].0 == self.open_node(i + 1)
    }

    spec fn low_ok(self, g: CallGraph) -> bool {
        forall|k: int| 0 <= k < self.stack.len() ==> #[trigger] self.low_at(g, k)
    }

    spec fn bands_ok(self, g: CallGraph) -> bool {
        forall|i: int, k: int| #[trigger]
            self.in_band(i, k) ==> g.reach(self.open_node(i), self.node(k)) && g.reach(
                self.node(k),
                self.open_node(i),
            )
    }

    /// A followed call to `y` is accounted for by the open node `i`.
    spec fn accounted(self, i: int, y: int) -> bool {
        self.visited(y) && (self.on[y] ==> self.idx(y) >= self.low[self.open_node(i)])
    }

    spec fn calls_ok(self, g: CallGraph) -> bool {
        &&& forall|i: int, k: int, y: int|
            #![trigger self.in_band(i, k), g.edge(self.node(k), y)]
            self.in_band(i, k) && k != self.base[i] && g.edge(self.node(k), y) ==> self.accounted(
                i,
                y,
            )
        &&& forall|i: int, e: int|
            #![trigger g.adj@[self.open_node(i)]@[e]]
            0 <= i < self.base.len() && 0 <= e < self.followed(i) ==> self.accounted(
                i,
                g.adj@[self.open_node(i)]@[e].0 as int,
            )
    }

    spec fn inv(self, g: CallGraph) -> bool {
        &&& g.wf()
        &&& self.shape(g)
        &&& self.stack_ok(g)
        &&& self.done_ok(g)
        &&& self.work_ok(g)
        &&& self.low_ok(g)
        &&& self.bands_ok(g)
        &&& self.calls_ok(g)
    }

    /// The state after discovering `w` from the open node on top, or with no
    /// node open at all.
    spec fn visit(self, w: int) -> Search {
        let i = self.order.len() as u32;
        Search {
            index: self.index.update(w, Some(i)),
            low: self.low.update(w, i),
            stack: self.stack.push(DeclId(w as usize)),
            on: self.on.update(w, true),
            work: self.work.push((w as usize, 0)),
            base: self.base.push(self.stack.len() as int),
            order: self.order.push(w),
            done: self.done,
        }
    }

    /// The state after the open node on top has taken up its next call.
    spec fn step(self) -> Search {
        let t = self.work.len() - 1;
        Search { work: self.work.update(t, (self.work[t].0, (self.work[t].1 + 1) as usize)), ..self }
    }
}

/// A sequence of distinct numbers below `n` has at most `n` elements.
proof fn distinct_below(s: Seq<int>, n: nat)
    requires
        s.no_duplicates(),
        forall|k: int| 0 <= k < s.len() ==> 0 <= #[trigger] s[k] < n,
    ensures
        s.len() <= n,
{
    s.unique_seq_to_set();
    let r = vstd::set_lib::set_int_range(0, n as int);
    vstd::set_lib::lemma_int_range(0, n as int);
    assert(s.to_set().subset_of(r));
    vstd::set_lib::lemma_len_subset(s.to_set(), r);
}

proof fn lemma_room(g: CallGraph, s: Search, w: int)
    requires
        s.inv(g),
        0 <= w < g.n,
        !s.visited(w),
    ensures
        s.order.len() < g.n,
{
    let o = s.order.push(w);
    assert forall|a: int, b: int| 0 <= a < o.len() && 0 <= b < o.len() && a != b implies o[a]
        != o[b] by {
        if a < s.order.len() {
            assert(s.index[s.order[a]] == Some(a as u32));
        }
        if b < s.order.len() {
            assert(s.index[s.order[b]] == Some(b as u32));
        }
    }
    assert(o.no_duplicates());
    assert forall|k: int| 0 <= k < o.len() implies 0 <= #[trigger] o[k] < g.n by {
        if k < s.order.len() {
            assert(o[k] == s.order[k]);
        }
    }
    distinct_below(o, g.n as nat);
}

/// `w` is a node that can be discovered next.
spec fn fresh_call(g: CallGraph, s: Search, w: int) -> bool {
    &&& s.inv(g)
    &&& 0 <= w < g.n
    &&& !s.visited(w)
    &&& s.work.len() > 0 ==> {
        let t = s.work.len() - 1;
        s.work[t].1 < g.adj@[s.open_node(t)]@.len() && g.adj@[s.open_node(t)]@[s.work[t].1 as int].0
            == w
    }
}

spec fn discover(s: Search, w: int) -> Search {
    if s.work.len() > 0 {
        s.step().visit(w)
    } else {
        s.visit(w)
    }
}

proof fn lemma_visit_basics(g: CallGraph, s: Search, w: int)
    requires
        fresh_call(g, s, w),
    ensures
        s.order.len() < g.n,
        !s.on[w],
        discover(s, w).node(s.stack.len() as int) == w,
        forall|k: int| 0 <= k < s.stack.len() ==> discover(s, w).node(k) == s.node(k),
        forall|k: int|
            0 <= k < s.stack.len() ==> #[trigger] s.node(k) != w && 0 <= s.node(k) < g.n,
        forall|v: int|
            0 <= v < g.n && v != w ==> discover(s, w).visited(v) == s.visited(v) && discover(
                s,
                w,
            ).idx(v) == s.idx(v),
        discover(s, w).shape(g),
{
    lemma_room(g, s, w);
    if s.on[w] {
        assert(s.held(w));
    }
    let r = discover(s, w);
    assert(r.order =~= s.order.push(w));
    assert forall|k: int| 0 <= k < r.order.len() implies 0 <= #[trigger] r.order[k] < g.n
        && r.index[r.order[k]] == Some(k as u32) by {
        if k < s.order.len() {
            assert(r.order[k] == s.order[k]);
        }
    }
    assert forall|v: int| 0 <= v < g.n && #[trigger] r.visited(v) implies r.idx(v) < r.order.len()
        && r.order[r.idx(v)] == v by {
        if v != w {
            assert(s.visited(v));
            assert(r.order[s.idx(v)] == s.order[s.idx(v)]);
        }
    }
}

proof fn lemma_visit_stack(g: CallGraph, s: Search, w: int)
    requires
        fresh_call(g, s, w),
    ensures
        discover(s, w).stack_ok(g),
        discover(s, w).done_ok(g),
{
    lemma_visit_basics(g, s, w);
    let r = discover(s, w);
    let top = s.stack.len() as int;
    assert forall|v: int| 0 <= v < g.n && r.on[v] implies #[trigger] r.held(v) by {
        if v == w {
            assert(r.node(top) == v);
        } else {
            assert(s.held(v));
            let k = choose|k: int| 0 <= k < s.stack.len() && #[trigger] s.node(k) == v;
            assert(r.node(k) == v);
        }
    }
    assert(r.stack_ok(g)) by {
        assert forall|k: int| 0 <= k < r.stack.len() implies 0 <= #[trigger] r.node(k) < g.n
            && r.visited(r.node(k)) && r.on[r.node(k)] by {
            if k < top {
                assert(r.node(k) == s.node(k));
            }
        }
        assert forall|a: int, b: int| 0 <= a < b < r.stack.len() implies r.idx(
            #[trigger] r.node(a),
        ) < r.idx(#[trigger] r.node(b)) by {
            assert(r.node(a) == s.node(a));
            assert(s.visited(s.node(a)));
            if b < top {
                assert(r.node(b) == s.node(b));
            }
        }
    }
    assert(r.done_ok(g)) by {
        assert forall|i: int, x: int| #[trigger] in_component(r.done, i, x) implies 0 <= x < g.n
            && r.visited(x) && !r.on[x] by {
            assert(in_component(s.done, i, x));
        }
        assert forall|v: int| 0 <= v < g.n && #[trigger] r.visited(v) && !r.on[v] implies listed(
            r.done,
            v,
        ) by {
            assert(s.visited(v));
        }
    }
}

proof fn lemma_visit_work(g: CallGraph, s: Search, w: int)
    requires
        fresh_call(g, s, w),
    ensures
        discover(s, w).work_ok(g),
        forall|i: int, k: int|
            discover(s, w).in_band(i, k) && k != s.stack.len() ==> s.in_band(i, k) && discover(
                s,
                w,
            ).open_node(i) == s.open_node(i),
        forall|i: int|
            discover(s, w).in_band(i, s.stack.len() as int) ==> i == s.work.len(),
{
    lemma_visit_basics(g, s, w);
    let r = discover(s, w);
    let top = s.stack.len() as int;
    let t = s.work.len() as int;
    assert forall|i: int| 0 <= i < t implies r.base[i] == s.base[i] && r.open_node(i)
        == s.open_node(i) && (i < t - 1 ==> r.work[i] == s.work[i]) by {}
    assert forall|i: int| 0 <= i < r.base.len() implies 0 <= #[trigger] r.base[i] < r.stack.len()
        && r.node(r.base[i]) == r.open_node(i) && r.work[i].1 <= g.adj@[r.open_node(i)]@.len() by {
        if i < t {
            assert(r.base[i] == s.base[i]);
            assert(r.node(s.base[i]) == s.node(s.base[i]));
        }
    }
    assert forall|i: int, j: int| 0 <= i < j < r.base.len() implies #[trigger] r.base[i]
        < #[trigger] r.base[j] by {
        assert(r.base[i] == s.base[i]);
        if j < t {
            assert(r.base[j] == s.base[j]);
        }
    }
    if t > 0 {
        assert(r.base[0] == s.base[0]);
    }
    assert forall|i: int| 0 <= i < r.base.len() - 1 implies #[trigger] r.called_next(g, i) by {
        if i < t - 1 {
            assert(s.called_next(g, i));
            assert(s.open_node(i + 1) == r.open_node(i + 1));
        } else {
            assert(g.adj@[s.open_node(i)].len() == g.adj@[s.open_node(i)]@.len());
            assert(r.work[i].1 == s.work[i].1 + 1);
        }
    }
    assert forall|i: int, k: int| r.in_band(i, k) && k != top implies s.in_band(i, k)
        && r.open_node(i) == s.open_node(i) by {
        if i < t {
            assert(r.base[i] == s.base[i]);
            if i + 1 < t {
                assert(r.base[i + 1] == s.base[i + 1]);
            }
        }
    }
    assert forall|i: int| r.in_band(i, top) implies i == t by {
        if i < t {
            if i + 1 < t {
                assert(r.base[i + 1] == s.base[i + 1]);
            }
        }
    }
}

proof fn lemma_visit_low(g: CallGraph, s: Search, w: int)
    requires
        fresh_call(g, s, w),
    ensures
        discover(s, w).low_ok(g),
        discover(s, w).bands_ok(g),
{
    lemma_visit_basics(g, s, w);
    lemma_visit_work(g, s, w);
    let r = discover(s, w);
    let top = s.stack.len() as int;
    reach_refl(g, w);
    assert forall|k: int| 0 <= k < r.stack.len() implies #[trigger] r.low_at(g, k) by {
        if k < top {
            assert(r.node(k) == s.node(k));
            assert(s.low_at(g, k));
            let m = choose|m: int|
                0 <= m <= k && s.idx(#[trigger] s.node(m)) == s.low[s.node(k)] && g.reach(
                    s.node(k),
                    s.node(m),
                );
            assert(r.node(m) == s.node(m));
        } else {
            assert(r.idx(r.node(top)) == r.low[r.node(k)]);
        }
    }
    assert(r.bands_ok(g)) by {
        assert forall|i: int, k: int| #[trigger] r.in_band(i, k) implies g.reach(
            r.open_node(i),
            r.node(k),
        ) && g.reach(r.node(k), r.open_node(i)) by {
            if k == top {
            } else {
                assert(s.in_band(i, k));
                assert(0 <= s.base[i]);
                assert(r.node(k) == s.node(k));
            }
        }
    }
}

proof fn lemma_visit_calls(g: CallGraph, s: Search, w: int)
    requires
        fresh_call(g, s, w),
    ensures
        discover(s, w).calls_ok(g),
{
    lemma_visit_basics(g, s, w);
    lemma_visit_work(g, s, w);
    let r = discover(s, w);
    let top = s.stack.len() as int;
    let t = s.work.len() as int;
    assert forall|i: int, y: int|
        0 <= i < t && #[trigger] s.accounted(i, y) && 0 <= y < g.n implies r.accounted(i, y) by {
        assert(s.base[i] >= 0);
        assert(r.open_node(i) == s.open_node(i));
        assert(s.node(s.base[i]) != w);
    }
    assert forall|i: int, k: int, y: int|
        #![trigger r.in_band(i, k), g.edge(r.node(k), y)]
        r.in_band(i, k) && k != r.base[i] && g.edge(r.node(k), y) implies r.accounted(i, y) by {
        if k == top {
            assert(i == t);
        } else {
            assert(s.in_band(i, k));
            assert(r.base[i] == s.base[i]);
            assert(s.base[i] >= 0);
            assert(r.node(k) == s.node(k));
            assert(g.edge(s.node(k), y));
            assert(s.accounted(i, y));
            assert(0 <= y < g.n);
        }
    }
    assert forall|i: int, e: int|
        #![trigger g.adj@[r.open_node(i)]@[e]]
        0 <= i < r.base.len() && 0 <= e < r.followed(i) implies r.accounted(
        i,
        g.adj@[r.open_node(i)]@[e].0 as int,
    ) by {
        if i < t {
            assert(r.base[i] == s.base[i]);
            if i == t - 1 {
                assert(g.adj@[s.open_node(i)].len() == g.adj@[s.open_node(i)]@.len());
                assert(r.work[i].1 == s.work[i].1 + 1);
            }
            assert(r.followed(i) == s.followed(i));
            assert(r.open_node(i) == s.open_node(i));
            let y = g.adj@[s.open_node(i)]@[e].0 as int;
            assert(s.node(s.base[i]) != w);
            assert(0 <= s.open_node(i) < g.n);
            assert(s.accounted(i, y));
        }
    }
}

/// Discovering a node keeps the invariant.
proof fn lemma_visit(g: CallGraph, s: Search, w: int)
    requires
        fresh_call(g, s, w),
    ensures
        discover(s, w).inv(g),
        s.order.len() < g.n,
{
    lemma_visit_basics(g, s, w);
    lemma_visit_stack(g, s, w);
    lemma_visit_work(g, s, w);
    lemma_visit_low(g, s, w);
    lemma_visit_calls(g, s, w);
}

/// The state after the open node on top has followed its next call, to the
/// node `w` that was visited before.
spec fn follow(s: Search, w: int) -> Search {
    let v = s.open_node(s.work.len() - 1);
    let r = s.step();
    if s.on[w] && s.low[w] < s.low[v] {
        Search { low: s.low.update(v, s.low[w]), ..r }
    } else {
        r
    }
}

spec fn known_call(g: CallGraph, s: Search, w: int) -> bool {
    &&& s.inv(g)
    &&& 0 <= w < g.n
    &&& s.visited(w)
    &&& s.work.len() > 0
    &&& s.work.last().1 < g.adj@[s.open_node(s.work.len() - 1)]@.len()
    &&& g.adj@[s.open_node(s.work.len() - 1)]@[s.work.last().1 as int].0 == w
}

proof fn lemma_stack_pos(g: CallGraph, s: Search, a: int, b: int)
    requires
        s.stack_ok(g),
        0 <= a < s.stack.len(),
        0 <= b < s.stack.len(),
    ensures
        s.idx(s.node(a)) < s.idx(s.node(b)) <==> a < b,
        s.idx(s.node(a)) == s.idx(s.node(b)) <==> a == b,
{
    if a < b {
        assert(s.idx(s.node(a)) < s.idx(s.node(b)));
    } else if b < a {
        assert(s.idx(s.node(b)) < s.idx(s.node(a)));
    }
}

proof fn lemma_follow_frame(g: CallGraph, s: Search, w: int)
    requires
        known_call(g, s, w),
    ensures
        follow(s, w).shape(g),
        follow(s, w).stack_ok(g),
        follow(s, w).done_ok(g),
        follow(s, w).work_ok(g),
        follow(s, w).bands_ok(g),
        follow(s, w).work.last().1 == s.work.last().1 + 1,
        forall|i: int| 0 <= i < s.work.len() ==> follow(s, w).open_node(i) == s.open_node(i),
        forall|i: int, k: int| follow(s, w).in_band(i, k) == s.in_band(i, k),
{
    let r = follow(s, w);
    let t = s.work.len() - 1;
    let v = s.open_node(t);
    assert(0 <= s.base[t]);
    assert(0 <= s.node(s.base[t]) < g.n);
    assert(g.adj@[v].len() == g.adj@[v]@.len());
    assert(r.work.last().1 == s.work.last().1 + 1);
    assert forall|i: int| 0 <= i < s.work.len() implies r.open_node(i) == s.open_node(i) by {}
    assert forall|k: int| r.node(k) == s.node(k) by {}
    assert(r.shape(g)) by {
        assert forall|x: int| 0 <= x < g.n && #[trigger] r.visited(x) implies r.idx(x)
            < r.order.len() && r.order[r.idx(x)] == x by {
            assert(s.visited(x));
        }
    }
    assert(r.stack_ok(g)) by {
        assert forall|x: int| 0 <= x < g.n && r.on[x] implies #[trigger] r.held(x) by {
            assert(s.held(x));
            let k = choose|k: int| 0 <= k < s.stack.len() && #[trigger] s.node(k) == x;
            assert(r.node(k) == x);
        }
        assert forall|k: int| 0 <= k < r.stack.len() implies 0 <= #[trigger] r.node(k) < g.n
            && r.visited(r.node(k)) && r.on[r.node(k)] by {
            assert(r.node(k) == s.node(k));
        }
        assert forall|a: int, b: int| 0 <= a < b < r.stack.len() implies r.idx(
            #[trigger] r.node(a),
        ) < r.idx(#[trigger] r.node(b)) by {
            assert(r.node(a) == s.node(a));
            assert(r.node(b) == s.node(b));
        }
    }
    assert(r.done_ok(g)) by {
        assert forall|x: int| 0 <= x < g.n && #[trigger] r.visited(x) && !r.on[x] implies listed(
            r.done,
            x,
        ) by {
            assert(s.visited(x));
        }
    }
    assert(r.work_ok(g)) by {
        assert forall|i: int| 0 <= i < r.base.len() implies 0 <= #[trigger] r.base[i]
            < r.stack.len() && r.node(r.base[i]) == r.open_node(i) && r.work[i].1
            <= g.adj@[r.open_node(i)]@.len() by {
            assert(0 <= s.base[i]);
            assert(r.open_node(i) == s.open_node(i));
        }
        assert forall|i: int| 0 <= i < r.base.len() - 1 implies #[trigger] r.called_next(g, i) by {
            assert(s.called_next(g, i));
            assert(r.open_node(i + 1) == s.open_node(i + 1));
        }
    }
    assert forall|i: int, k: int| r.in_band(i, k) == s.in_band(i, k) by {}
    assert(r.bands_ok(g)) by {
        assert forall|i: int, k: int| #[trigger] r.in_band(i, k) implies g.reach(
            r.open_node(i),
            r.node(k),
        ) && g.reach(r.node(k), r.open_node(i)) by {
            assert(s.in_band(i, k));
        }
    }
}

proof fn lemma_follow(g: CallGraph, s: Search, w: int)
    requires
        known_call(g, s, w),
    ensures
        follow(s, w).inv(g),
{
    lemma_follow_frame(g, s, w);
    let r = follow(s, w);
    let t = s.work.len() - 1;
    let v = s.open_node(t);
    assert(0 <= s.base[t]);
    assert(s.node(s.base[t]) == v);
    assert(g.edge(v, w)) by {
        assert(g.adj@[v]@[s.work.last().1 as int].0 == w);
    }
    assert(r.low_ok(g)) by {
        assert forall|k: int| 0 <= k < r.stack.len() implies #[trigger] r.low_at(g, k) by {
            assert(s.low_at(g, k));
            assert(r.node(k) == s.node(k));
            if k == s.base[t] && s.on[w] && s.low[w] < s.low[v] {
                assert(s.held(w));
                let kw = choose|kw: int| 0 <= kw < s.stack.len() && #[trigger] s.node(kw) == w;
                assert(s.low_at(g, kw));
                let m = choose|m: int|
                    0 <= m <= kw && s.idx(#[trigger] s.node(m)) == s.low[s.node(kw)] && g.reach(
                        s.node(kw),
                        s.node(m),
                    );
                reach_edge(g, v, w);
                reach_trans(g, v, w, s.node(m));
                lemma_stack_pos(g, s, m, k);
                assert(r.node(m) == s.node(m));
            } else {
                lemma_stack_pos(g, s, k, s.base[t]);
                let m = choose|m: int|
                    0 <= m <= k && s.idx(#[trigger] s.node(m)) == s.low[s.node(k)] && g.reach(
                        s.node(k),
                        s.node(m),
                    );
                assert(r.node(m) == s.node(m));
            }
        }
    }
    assert(r.calls_ok(g)) by {
        assert forall|i: int, y: int|
            0 <= i < s.work.len() && #[trigger] s.accounted(i, y) implies r.accounted(i, y) by {
            assert(r.open_node(i) == s.open_node(i));
            assert(0 <= s.base[i]);
            assert(0 <= s.node(s.base[i]) < g.n);
        }
        assert forall|i: int, k: int, y: int|
            #![trigger r.in_band(i, k), g.edge(r.node(k), y)]
            r.in_band(i, k) && k != r.base[i] && g.edge(r.node(k), y) implies r.accounted(i, y) by {
            assert(s.in_band(i, k));
            assert(g.edge(s.node(k), y));
            assert(s.accounted(i, y));
        }
        assert forall|i: int, e: int|
            #![trigger g.adj@[r.open_node(i)]@[e]]
            0 <= i < r.base.len() && 0 <= e < r.followed(i) implies r.accounted(
            i,
            g.adj@[r.open_node(i)]@[e].0 as int,
        ) by {
            assert(r.open_node(i) == s.open_node(i));
            let y = g.adj@[s.open_node(i)]@[e].0 as int;
            if i == t && e == s.work[t].1 {
                if s.on[w] {
                    assert(s.held(w));
                    let kw = choose|kw: int| 0 <= kw < s.stack.len() && #[trigger] s.node(kw) == w;
                    assert(s.low_at(g, kw));
                }
            } else {
                assert(e < s.followed(i));
                assert(s.accounted(i, y));
            }
        }
    }
}

spec fn finished(g: CallGraph, s: Search) -> bool {
    &&& s.inv(g)
    &&& s.work.len() > 0
    &&& s.work.last().1 == g.adj@[s.open_node(s.work.len() - 1)]@.len()
}

/// The state after the open node on top is finished and has handed its low
/// link to the node that called it.
spec fn retire(s: Search) -> Search {
    let t = s.work.len() - 1;
    let v = s.open_node(t);
    let p = s.open_node(t - 1);
    Search {
        work: s.work.drop_last(),
        base: s.base.drop_last(),
        low: if t > 0 && s.low[v] < s.low[p] {
            s.low.update(p, s.low[v])
        } else {
            s.low
        },
        ..s
    }
}

/// An open node that is alone is the root of its component.
proof fn lemma_last_is_root(g: CallGraph, s: Search)
    requires
        s.inv(g),
        s.work.len() > 0,
        s.low[s.open_node(s.work.len() - 1)] != s.idx(s.open_node(s.work.len() - 1)),
    ensures
        s.work.len() > 1,
{
    if s.work.len() == 1 {
        assert(s.base[0] == 0);
        assert(s.low_at(g, 0));
    }
}

/// Each open node reaches every later one.
proof fn lemma_chain(g: CallGraph, s: Search, i: int, j: int)
    requires
        s.inv(g),
        0 <= i <= j < s.work.len(),
    ensures
        g.reach(s.open_node(i), s.open_node(j)),
    decreases j - i,
{
    if i == j {
        reach_refl(g, s.open_node(i));
    } else {
        assert(0 <= s.base[i]);
        assert(0 <= s.node(s.base[i]) < g.n);
        assert(s.called_next(g, i));
        assert(g.edge(s.open_node(i), s.open_node(i + 1)));
        reach_edge(g, s.open_node(i), s.open_node(i + 1));
        lemma_chain(g, s, i + 1, j);
        reach_trans(g, s.open_node(i), s.open_node(i + 1), s.open_node(j));
    }
}

/// Every stack position belongs to the band of some open node.
proof fn lemma_find_band(g: CallGraph, s: Search, k: int, i: int) -> (r: int)
    requires
        s.inv(g),
        0 <= i < s.base.len(),
        s.base[i] <= k < s.stack.len(),
    ensures
        i <= r,
        s.in_band(r, k),
    decreases s.base.len() - i,
{
    if k < s.band_end(i) {
        i
    } else {
        lemma_find_band(g, s, k, i + 1)
    }
}

proof fn lemma_retire_frame(g: CallGraph, s: Search)
    requires
        finished(g, s),
        s.low[s.open_node(s.work.len() - 1)] != s.idx(s.open_node(s.work.len() - 1)),
    ensures
        retire(s).shape(g),
        retire(s).stack_ok(g),
        retire(s).done_ok(g),
        retire(s).work_ok(g),
        forall|i: int, k: int|
            #![trigger retire(s).in_band(i, k)]
            retire(s).in_band(i, k) && k < s.base[s.work.len() - 1] ==> s.in_band(i, k),
        forall|i: int, k: int|
            #![trigger retire(s).in_band(i, k)]
            retire(s).in_band(i, k) && k >= s.base[s.work.len() - 1] ==> i == s.work.len() - 2
                && s.in_band(s.work.len() - 1, k),
{
    lemma_last_is_root(g, s);
    let r = retire(s);
    let t = s.work.len() - 1;
    assert(0 <= s.base[t - 1]);
    assert(0 <= s.node(s.base[t - 1]) < g.n);
    assert forall|k: int| r.node(k) == s.node(k) by {}
    assert(r.shape(g)) by {
        assert forall|x: int| 0 <= x < g.n && #[trigger] r.visited(x) implies r.idx(x)
            < r.order.len() && r.order[r.idx(x)] == x by {
            assert(s.visited(x));
        }
    }
    assert(r.stack_ok(g)) by {
        assert forall|x: int| 0 <= x < g.n && r.on[x] implies #[trigger] r.held(x) by {
            assert(s.held(x));
            let k = choose|k: int| 0 <= k < s.stack.len() && #[trigger] s.node(k) == x;
            assert(r.node(k) == x);
        }
        assert forall|k: int| 0 <= k < r.stack.len() implies 0 <= #[trigger] r.node(k) < g.n
            && r.visited(r.node(k)) && r.on[r.node(k)] by {
            assert(r.node(k) == s.node(k));
        }
        assert forall|a: int, b: int| 0 <= a < b < r.stack.len() implies r.idx(
            #[trigger] r.node(a),
        ) < r.idx(#[trigger] r.node(b)) by {
            assert(r.node(a) == s.node(a));
            assert(r.node(b) == s.node(b));
        }
    }
    assert(r.done_ok(g)) by {
        assert forall|x: int| 0 <= x < g.n && #[trigger] r.visited(x) && !r.on[x] implies listed(
            r.done,
            x,
        ) by {
            assert(s.visited(x));
        }
    }
    assert(r.work_ok(g)) by {
        assert forall|i: int| 0 <= i < r.base.len() implies 0 <= #[trigger] r.base[i]
            < r.stack.len() && r.node(r.base[i]) == r.open_node(i) && r.work[i].1
            <= g.adj@[r.open_node(i)]@.len() by {
            assert(0 <= s.base[i]);
            assert(r.open_node(i) == s.open_node(i));
        }
        assert forall|i: int| 0 <= i < r.base.len() - 1 implies #[trigger] r.called_next(g, i) by {
            assert(s.called_next(g, i));
            assert(r.open_node(i + 1) == s.open_node(i + 1));
        }
        assert forall|i: int, j: int| 0 <= i < j < r.base.len() implies #[trigger] r.base[i]
            < #[trigger] r.base[j] by {
            assert(s.base[i] < s.base[j]);
        }
    }
    assert forall|i: int, k: int| #[trigger] r.in_band(i, k) && k < s.base[t] implies s.in_band(
        i,
        k,
    ) by {
        assert(r.base[i] == s.base[i]);
    }
    assert forall|i: int, k: int| #[trigger] r.in_band(i, k) && k >= s.base[t] implies i == t - 1
        && s.in_band(t, k) by {
        if i < t - 1 {
            assert(r.base[i + 1] == s.base[i + 1]);
            assert(s.base[i + 1] < s.base[t]);
        }
    }
}

/// Finishing a node that is not the root of its component.
proof fn lemma_retire(g: CallGraph, s: Search)
    requires
        finished(g, s),
        s.low[s.open_node(s.work.len() - 1)] != s.idx(s.open_node(s.work.len() - 1)),
    ensures
        retire(s).inv(g),
{
    lemma_retire_frame(g, s);
    lemma_last_is_root(g, s);
    let r = retire(s);
    let t = s.work.len() - 1;
    let v = s.open_node(t);
    let p = s.open_node(t - 1);
    assert(0 <= s.base[t]);
    assert(s.base[t - 1] < s.base[t]);
    assert(s.node(s.base[t]) == v && s.node(s.base[t - 1]) == p);
    lemma_chain(g, s, t - 1, t);
    assert(s.low_at(g, s.base[t]));
    let mv = choose|m: int|
        0 <= m <= s.base[t] && s.idx(#[trigger] s.node(m)) == s.low[s.node(s.base[t])] && g.reach(
            s.node(s.base[t]),
            s.node(m),
        );
    assert(mv < s.base[t]) by {
        lemma_stack_pos(g, s, mv, s.base[t]);
    }
    assert(g.reach(v, p)) by {
        let j = lemma_find_band(g, s, mv, 0);
        assert(j < t) by {
            if j == t {
                assert(s.in_band(t, mv));
            }
        }
        assert(g.reach(s.node(mv), s.open_node(j)));
        lemma_chain(g, s, j, t - 1);
        reach_trans(g, v, s.node(mv), s.open_node(j));
        reach_trans(g, v, s.open_node(j), p);
    }
    assert(r.low_ok(g)) by {
        assert forall|k: int| 0 <= k < r.stack.len() implies #[trigger] r.low_at(g, k) by {
            assert(s.low_at(g, k));
            assert(r.node(k) == s.node(k));
            if k == s.base[t - 1] && s.low[v] < s.low[p] {
                reach_trans(g, p, v, s.node(mv));
                lemma_stack_pos(g, s, mv, k);
                assert(r.node(mv) == s.node(mv));
            } else {
                lemma_stack_pos(g, s, k, s.base[t - 1]);
                let m = choose|m: int|
                    0 <= m <= k && s.idx(#[trigger] s.node(m)) == s.low[s.node(k)] && g.reach(
                        s.node(k),
                        s.node(m),
                    );
                assert(r.node(m) == s.node(m));
            }
        }
    }
    assert(r.bands_ok(g)) by {
        assert forall|i: int, k: int| #[trigger] r.in_band(i, k) implies g.reach(
            r.open_node(i),
            r.node(k),
        ) && g.reach(r.node(k), r.open_node(i)) by {
            assert(r.open_node(i) == s.open_node(i));
            assert(r.node(k) == s.node(k));
            if k >= s.base[t] {
                assert(s.in_band(t, k));
                reach_trans(g, p, v, s.node(k));
                reach_trans(g, s.node(k), v, p);
            } else {
                assert(s.in_band(i, k));
            }
        }
    }
    assert(r.calls_ok(g)) by {
        assert forall|i: int, y: int|
            0 <= i < t && #[trigger] s.accounted(i, y) implies r.accounted(i, y) by {
            assert(r.open_node(i) == s.open_node(i));
            assert(0 <= s.base[i]);
            assert(0 <= s.node(s.base[i]) < g.n);
        }
        assert forall|y: int| #[trigger] s.accounted(t, y) implies r.accounted(t - 1, y) by {
            assert(r.open_node(t - 1) == s.open_node(t - 1));
        }
        assert forall|i: int, k: int, y: int|
            #![trigger r.in_band(i, k), g.edge(r.node(k), y)]
            r.in_band(i, k) && k != r.base[i] && g.edge(r.node(k), y) implies r.accounted(i, y) by {
            assert(r.node(k) == s.node(k));
            assert(g.edge(s.node(k), y));
            if k > s.base[t] {
                assert(s.in_band(t, k));
                assert(s.accounted(t, y));
            } else if k == s.base[t] {
                let e = choose|e: int|
                    0 <= e < g.adj@[v]@.len() && (#[trigger] g.adj@[v]@[e]).0 == y;
                assert(g.adj@[s.open_node(t)]@[e].0 == y);
                assert(s.accounted(t, y));
            } else {
                assert(s.in_band(i, k));
                assert(r.base[i] == s.base[i]);
                assert(s.accounted(i, y));
            }
        }
        assert forall|i: int, e: int|
            #![trigger g.adj@[r.open_node(i)]@[e]]
            0 <= i < r.base.len() && 0 <= e < r.followed(i) implies r.accounted(
            i,
            g.adj@[r.open_node(i)]@[e].0 as int,
        ) by {
            assert(r.open_node(i) == s.open_node(i));
            let y = g.adj@[s.open_node(i)]@[e].0 as int;
            if e < s.followed(i) {
                assert(s.accounted(i, y));
            } else {
                assert(i == t - 1);
                assert(s.called_next(g, i));
                assert(s.low_at(g, s.base[t]));
                assert(r.open_node(t - 1) == p);
                assert(r.visited(v));
            }
        }
    }
}

/// The part of the stack from the open node on top, last pushed first.
spec fn popped(s: Search) -> Seq<DeclId> {
    let b = s.base.last();
    Seq::new((s.stack.len() - b) as nat, |j: int| s.stack[s.stack.len() - 1 - j])
}

/// The state after the open node on top has closed its component.
spec fn close(s: Search) -> Search {
    let b = s.base.last();
    let v = s.open_node(s.work.len() - 1);
    Search {
        work: s.work.drop_last(),
        base: s.base.drop_last(),
        stack: s.stack.take(b),
        on: Seq::new(s.on.len(), |x: int| s.on[x] && s.idx(x) < s.idx(v)),
        done: s.done.push(popped(s)),
        ..s
    }
}

spec fn at_root(g: CallGraph, s: Search) -> bool {
    &&& finished(g, s)
    &&& s.low[s.open_node(s.work.len() - 1)] == s.idx(s.open_node(s.work.len() - 1))
}

proof fn lemma_close_basics(g: CallGraph, s: Search)
    requires
        at_root(g, s),
    ensures
        0 <= s.base.last() < s.stack.len(),
        s.node(s.base.last()) == s.open_node(s.work.len() - 1),
        forall|k: int|
            0 <= k < s.stack.len() ==> (close(s).on[#[trigger] s.node(k)] <==> k < s.base.last()),
        forall|k: int| 0 <= k < s.base.last() ==> close(s).node(k) == s.node(k),
        forall|x: int| 0 <= x < g.n && close(s).on[x] ==> s.on[x],
        forall|i: int, x: int| #[trigger]
            in_component(close(s).done, i, x) ==> in_component(s.done, i, x) || (i == s.done.len()
                && exists|k: int| s.base.last() <= k < s.stack.len() && #[trigger] s.node(k) == x),
        forall|i: int, x: int| #[trigger]
            in_component(s.done, i, x) ==> in_component(close(s).done, i, x),
        forall|k: int|
            s.base.last() <= k < s.stack.len() ==> in_component(
                close(s).done,
                s.done.len() as int,
                #[trigger] s.node(k),
            ),
{
    let t = s.work.len() - 1;
    let b = s.base.last();
    let r = close(s);
    assert(0 <= s.base[t]);
    assert forall|k: int| 0 <= k < s.stack.len() implies (r.on[#[trigger] s.node(k)] <==> k < b) by {
        lemma_stack_pos(g, s, k, b);
    }
    assert forall|i: int, x: int| #[trigger] in_component(r.done, i, x) implies in_component(
        s.done,
        i,
        x,
    ) || (i == s.done.len() && exists|k: int| b <= k < s.stack.len() && #[trigger] s.node(k) == x) by {
        let j = choose|j: int| 0 <= j < r.done[i].len() && (#[trigger] r.done[i][j]).0 == x;
        if i < s.done.len() {
            assert(s.done[i][j].0 == x);
        } else {
            assert(s.node(s.stack.len() - 1 - j) == x);
        }
    }
    assert forall|i: int, x: int| #[trigger] in_component(s.done, i, x) implies in_component(
        r.done,
        i,
        x,
    ) by {
        let j = choose|j: int| 0 <= j < s.done[i].len() && (#[trigger] s.done[i][j]).0 == x;
        assert(r.done[i][j].0 == x);
    }
    assert forall|k: int| b <= k < s.stack.len() implies in_component(
        r.done,
        s.done.len() as int,
        #[trigger] s.node(k),
    ) by {
        let j = s.stack.len() - 1 - k;
        assert(r.done[s.done.len() as int][j].0 == s.node(k));
    }
}

/// No call leads from the closed part of the stack to the rest of it.
proof fn lemma_close_calls(g: CallGraph, s: Search, k: int, y: int)
    requires
        at_root(g, s),
        s.base.last() <= k < s.stack.len(),
        g.edge(s.node(k), y),
    ensures
        0 <= y < g.n,
        (exists|m: int| s.base.last() <= m < s.stack.len() && #[trigger] s.node(m) == y) || listed(
            s.done,
            y,
        ),
{
    let t = s.work.len() - 1;
    let b = s.base[t];
    let v = s.open_node(t);
    assert(s.node(b) == v);
    assert(s.in_band(t, k));
    if k == b {
        let e = choose|e: int| 0 <= e < g.adj@[v]@.len() && (#[trigger] g.adj@[v]@[e]).0 == y;
        assert(g.adj@[s.open_node(t)]@[e].0 == y);
    }
    assert(s.accounted(t, y));
    if s.on[y] {
        assert(s.held(y));
        let m = choose|m: int| 0 <= m < s.stack.len() && #[trigger] s.node(m) == y;
        lemma_stack_pos(g, s, m, b);
    } else {
        assert(s.visited(y));
    }
}

proof fn lemma_close_done(g: CallGraph, s: Search)
    requires
        at_root(g, s),
    ensures
        close(s).done_ok(g),
{
    lemma_close_basics(g, s);
    let r = close(s);
    let t = s.work.len() - 1;
    let b = s.base.last();
    let v = s.open_node(t);
    let d = s.done.len() as int;
    assert forall|i: int, x: int| #[trigger] in_component(r.done, i, x) implies 0 <= x < g.n
        && r.visited(x) && !r.on[x] by {
        if in_component(s.done, i, x) {
        } else {
            let k = choose|k: int| b <= k < s.stack.len() && #[trigger] s.node(k) == x;
            assert(s.visited(s.node(k)));
        }
    }
    assert forall|x: int| 0 <= x < g.n && #[trigger] r.visited(x) && !r.on[x] implies listed(
        r.done,
        x,
    ) by {
        assert(s.visited(x));
        if s.on[x] {
            assert(s.held(x));
            let k = choose|k: int| 0 <= k < s.stack.len() && #[trigger] s.node(k) == x;
            assert(in_component(r.done, d, s.node(k)));
        } else {
            let i = choose|i: int| in_component(s.done, i, x);
            assert(in_component(r.done, i, x));
        }
    }
    assert forall|i: int| 0 <= i < r.done.len() implies (#[trigger] r.done[i]).len() > 0 by {
        if i < d {
            assert(r.done[i] == s.done[i]);
        }
    }
    assert(listed_once(r.done)) by {
        assert forall|i: int, j: int, k: int, l: int|
            #![trigger r.done[i][j], r.done[k][l]]
            0 <= i < r.done.len() && 0 <= j < r.done[i].len() && 0 <= k < r.done.len() && 0 <= l
                < r.done[k].len() && r.done[i][j].0 == r.done[k][l].0 implies i == k && j == l by {
            let x = r.done[i][j].0 as int;
            if i < d && k < d {
                assert(s.done[i][j].0 == s.done[k][l].0);
            } else if i == d && k == d {
                lemma_stack_pos(g, s, s.stack.len() - 1 - j, s.stack.len() - 1 - l);
                assert(s.node(s.stack.len() - 1 - j) == x);
                assert(s.node(s.stack.len() - 1 - l) == x);
            } else if i < d {
                assert(s.done[i][j].0 == x);
                assert(in_component(s.done, i, x));
                assert(s.node(s.stack.len() - 1 - l) == x);
            } else {
                assert(s.done[k][l].0 == x);
                assert(in_component(s.done, k, x));
                assert(s.node(s.stack.len() - 1 - j) == x);
            }
        }
    }
    lemma_close_order(g, s);
    lemma_close_classes(g, s);
}

proof fn lemma_close_order(g: CallGraph, s: Search)
    requires
        at_root(g, s),
    ensures
        callees_first(g, close(s).done),
{
    lemma_close_basics(g, s);
    let r = close(s);
    let b = s.base.last();
    let d = s.done.len() as int;
    assert forall|i: int, x: int, y: int|
        #![trigger in_component(r.done, i, x), g.edge(x, y)]
        in_component(r.done, i, x) && g.edge(x, y) implies exists|k: int|
        k <= i && #[trigger] in_component(r.done, k, y) by {
        if in_component(s.done, i, x) {
            let k = choose|k: int| k <= i && #[trigger] in_component(s.done, k, y);
            assert(in_component(r.done, k, y));
        } else {
            let k = choose|k: int| b <= k < s.stack.len() && #[trigger] s.node(k) == x;
            lemma_close_calls(g, s, k, y);
            if exists|m: int| b <= m < s.stack.len() && #[trigger] s.node(m) == y {
                assert(in_component(r.done, d, y));
            } else {
                let m = choose|m: int| in_component(s.done, m, y);
                assert(in_component(r.done, m, y));
            }
        }
    }
}

/// What the complete components reach, they hold.
proof fn lemma_done_closed(g: CallGraph, s: Search, x: int, y: int)
    requires
        s.inv(g),
        listed(s.done, x),
        g.reach(x, y),
    ensures
        listed(s.done, y),
{
    let c = |z: int| listed(s.done, z);
    assert forall|a: int, e: int| c(a) && #[trigger] g.edge(a, e) implies c(e) by {
        let i = choose|i: int| in_component(s.done, i, a);
        assert(in_component(s.done, i, a));
        let k = choose|k: int| k <= i && #[trigger] in_component(s.done, k, e);
        assert(in_component(s.done, k, e));
    }
    reach_closed(g, c, x, y);
}

proof fn lemma_close_classes(g: CallGraph, s: Search)
    requires
        at_root(g, s),
    ensures
        are_classes(g, close(s).done),
{
    lemma_close_basics(g, s);
    let r = close(s);
    let t = s.work.len() - 1;
    let b = s.base.last();
    let v = s.open_node(t);
    let d = s.done.len() as int;
    let c = |z: int|
        listed(s.done, z) || exists|m: int| b <= m < s.stack.len() && #[trigger] s.node(m) == z;
    assert forall|a: int, e: int| c(a) && #[trigger] g.edge(a, e) implies c(e) by {
        if listed(s.done, a) {
            reach_edge(g, a, e);
            lemma_done_closed(g, s, a, e);
        } else {
            let m = choose|m: int| b <= m < s.stack.len() && #[trigger] s.node(m) == a;
            lemma_close_calls(g, s, m, e);
        }
    }
    assert forall|i: int, x: int, y: int|
        #![trigger in_component(r.done, i, x), g.reach(x, y)]
        in_component(r.done, i, x) implies (in_component(r.done, i, y) <==> g.reach(x, y)
        && g.reach(y, x)) by {
        if i < d {
            assert(in_component(s.done, i, x));
            assert(in_component(r.done, i, y) <==> in_component(s.done, i, y));
        } else {
            let kx = choose|k: int| b <= k < s.stack.len() && #[trigger] s.node(k) == x;
            assert(s.in_band(t, kx));
            if in_component(r.done, i, y) {
                let ky = choose|k: int| b <= k < s.stack.len() && #[trigger] s.node(k) == y;
                assert(s.in_band(t, ky));
                reach_trans(g, x, v, y);
                reach_trans(g, y, v, x);
            }
            if g.reach(x, y) && g.reach(y, x) {
                assert(c(x));
                reach_closed(g, c, x, y);
                if listed(s.done, y) {
                    lemma_done_closed(g, s, y, x);
                    let m = choose|m: int| in_component(s.done, m, x);
                    assert(in_component(s.done, m, x));
                    assert(s.on[s.node(kx)]);
                    assert(false);
                }
                let ky = choose|k: int| b <= k < s.stack.len() && #[trigger] s.node(k) == y;
                assert(in_component(r.done, d, s.node(ky)));
            }
        }
    }
}

proof fn lemma_close_frame(g: CallGraph, s: Search)
    requires
        at_root(g, s),
    ensures
        close(s).shape(g),
        close(s).stack_ok(g),
        close(s).work_ok(g),
        forall|i: int, k: int| #[trigger]
            close(s).in_band(i, k) ==> s.in_band(i, k) && k < s.base.last(),
{
    lemma_close_basics(g, s);
    let r = close(s);
    let t = s.work.len() - 1;
    let b = s.base.last();
    assert forall|k: int| 0 <= k < b implies r.node(k) == s.node(k) by {}
    assert(r.shape(g)) by {
        assert forall|x: int| 0 <= x < g.n && #[trigger] r.visited(x) implies r.idx(x)
            < r.order.len() && r.order[r.idx(x)] == x by {
            assert(s.visited(x));
        }
    }
    assert(r.stack_ok(g)) by {
        assert forall|x: int| 0 <= x < g.n && r.on[x] implies #[trigger] r.held(x) by {
            assert(s.held(x));
            let k = choose|k: int| 0 <= k < s.stack.len() && #[trigger] s.node(k) == x;
            assert(k < b);
            assert(r.node(k) == x);
        }
        assert forall|k: int| 0 <= k < r.stack.len() implies 0 <= #[trigger] r.node(k) < g.n
            && r.visited(r.node(k)) && r.on[r.node(k)] by {
            assert(r.node(k) == s.node(k));
        }
        assert forall|p: int, q: int| 0 <= p < q < r.stack.len() implies r.idx(
            #[trigger] r.node(p),
        ) < r.idx(#[trigger] r.node(q)) by {
            assert(r.node(p) == s.node(p));
            assert(r.node(q) == s.node(q));
        }
    }
    assert(r.work_ok(g)) by {
        assert forall|i: int| 0 <= i < r.base.len() implies 0 <= #[trigger] r.base[i]
            < r.stack.len() && r.node(r.base[i]) == r.open_node(i) && r.work[i].1
            <= g.adj@[r.open_node(i)]@.len() by {
            assert(s.base[i] < s.base[t]);
            assert(r.node(s.base[i]) == s.node(s.base[i]));
            assert(r.open_node(i) == s.open_node(i));
        }
        assert forall|i: int| 0 <= i < r.base.len() - 1 implies #[trigger] r.called_next(g, i) by {
            assert(s.called_next(g, i));
            assert(r.open_node(i + 1) == s.open_node(i + 1));
        }
        assert forall|i: int, j: int| 0 <= i < j < r.base.len() implies #[trigger] r.base[i]
            < #[trigger] r.base[j] by {
            assert(s.base[i] < s.base[j]);
        }
        if r.base.len() > 0 {
            assert(r.base[0] == s.base[0]);
        }
    }
    assert forall|i: int, k: int| #[trigger] r.in_band(i, k) implies s.in_band(i, k) && k < b by {
        assert(r.base[i] == s.base[i]);
        if i + 1 < r.base.len() {
            assert(r.base[i + 1] == s.base[i + 1]);
            assert(s.base[i + 1] < s.base[t]);
        } else {
            assert(s.base[i + 1] == b);
        }
    }
}

/// Finishing the root of a component.
proof fn lemma_close(g: CallGraph, s: Search)
    requires
        at_root(g, s),
    ensures
        close(s).inv(g),
{
    lemma_close_basics(g, s);
    lemma_close_frame(g, s);
    lemma_close_done(g, s);
    let r = close(s);
    let t = s.work.len() - 1;
    let b = s.base.last();
    let v = s.open_node(t);
    assert(r.low_ok(g)) by {
        assert forall|k: int| 0 <= k < r.stack.len() implies #[trigger] r.low_at(g, k) by {
            assert(s.low_at(g, k));
            assert(r.node(k) == s.node(k));
            let m = choose|m: int|
                0 <= m <= k && s.idx(#[trigger] s.node(m)) == s.low[s.node(k)] && g.reach(
                    s.node(k),
                    s.node(m),
                );
            assert(r.node(m) == s.node(m));
        }
    }
    assert(r.bands_ok(g)) by {
        assert forall|i: int, k: int| #[trigger] r.in_band(i, k) implies g.reach(
            r.open_node(i),
            r.node(k),
        ) && g.reach(r.node(k), r.open_node(i)) by {
            assert(s.in_band(i, k));
            assert(0 <= s.base[i]);
            assert(r.open_node(i) == s.open_node(i));
            assert(r.node(k) == s.node(k));
        }
    }
    assert(r.calls_ok(g)) by {
        assert forall|i: int, y: int|
            0 <= i < t && 0 <= y < g.n && #[trigger] s.accounted(i, y) implies r.accounted(i, y) by {
            assert(r.open_node(i) == s.open_node(i));
            assert(r.visited(y));
        }
        assert forall|i: int, k: int, y: int|
            #![trigger r.in_band(i, k), g.edge(r.node(k), y)]
            r.in_band(i, k) && k != r.base[i] && g.edge(r.node(k), y) implies r.accounted(i, y) by {
            assert(s.in_band(i, k));
            assert(0 <= s.base[i]);
            assert(r.node(k) == s.node(k));
            assert(g.edge(s.node(k), y));
            assert(r.base[i] == s.base[i]);
            assert(s.accounted(i, y));
        }
        assert forall|i: int, e: int|
            #![trigger g.adj@[r.open_node(i)]@[e]]
            0 <= i < r.base.len() && 0 <= e < r.followed(i) implies r.accounted(
            i,
            g.adj@[r.open_node(i)]@[e].0 as int,
        ) by {
            assert(r.open_node(i) == s.open_node(i));
            assert(0 <= s.base[i]);
            assert(0 <= s.node(s.base[i]) < g.n);
            let y = g.adj@[s.open_node(i)]@[e].0 as int;
            if e < s.followed(i) {
                assert(s.accounted(i, y));
            } else {
                assert(i == t - 1);
                assert(s.called_next(g, i));
                assert(y == v);
                assert(s.visited(s.node(b)));
                assert(!r.on[s.node(b)]);
            }
        }
    }
}

/// How much the open nodes have left to do.
spec fn left(g: CallGraph, work: Seq<(usize, usize)>) -> int
    decreases work.len(),
{
    if work.len() == 0 {
        0
    } else {
        left(g, work.drop_last()) + g.adj@[work.last().0 as int]@.len() - work.last().1 + 1
    }
}

proof fn lemma_left_nonneg(g: CallGraph, s: Search, k: int)
    requires
        s.inv(g),
        0 <= k <= s.work.len(),
    ensures
        left(g, s.work.take(k)) >= 0,
    decreases k,
{
    if k > 0 {
        lemma_left_nonneg(g, s, k - 1);
        assert(s.work.take(k).drop_last() =~= s.work.take(k - 1));
        assert(0 <= s.base[k - 1]);
        assert(s.work.take(k).last() == s.work[k - 1]);
    }
}

/// The search that has visited nothing.
spec fn idle(n: nat) -> Search {
    Search {
        index: Seq::new(n, |i: int| None),
        low: Seq::new(n, |i: int| 0u32),
        stack: Seq::empty(),
        on: Seq::new(n, |i: int| false),
        work: Seq::empty(),
        base: Seq::empty(),
        order: Seq::empty(),
        done: Seq::empty(),
    }
}

/// The contents of each component.
pub open spec fn contents(sccs: Seq<Vec<DeclId>>) -> Seq<Seq<DeclId>> {
    Seq::new(sccs.len(), |i: int| sccs[i]@)
}

proof fn lemma_all_done(g: CallGraph, s: Search)
    requires
        s.inv(g),
        s.work.len() == 0,
        forall|v: int| 0 <= v < g.n ==> s.visited(v),
    ensures
        are_sccs(g, s.done),
{
    assert forall|x: int| 0 <= x < g.n <==> #[trigger] listed(s.done, x) by {
        if 0 <= x < g.n {
            assert(s.visited(x));
            if s.on[x] {
                assert(s.held(x));
            }
        }
        if listed(s.done, x) {
            let i = choose|i: int| in_component(s.done, i, x);
            assert(in_component(s.done, i, x));
        }
    }
}

/// Computes the strongly connected components of `graph`, callees first.
///
/// Every declaration is listed exactly once, two declarations share a
/// component if and only if each reaches the other, and no call leads from a
/// component to a later one. Inside a component the order is left open.
#[must_use]
pub fn tarjan_sccs(graph: &CallGraph) -> (sccs: Vec<Vec<DeclId>>)
    requires
        graph.wf(),
    ensures
        are_sccs(*graph, contents(sccs@)),
{
    let n = graph.n;
    let mut index_counter: u32 = 0;
    let mut stack: Vec<DeclId> = Vec::new();
    let mut on_stack: Vec<bool> = vec![false; n];
    let mut index: Vec<Option<u32>> = vec![None; n];
    let mut lowlink: Vec<u32> = vec![0; n];
    let mut sccs: Vec<Vec<DeclId>> = Vec::new();
    let ghost mut s = idle(n as nat);
    assert(index@ =~= s.index);
    assert(lowlink@ =~= s.low);
    assert(on_stack@ =~= s.on);
    assert(contents(sccs@) =~= s.done);
    let mut start: usize = 0;
    while start < n
        invariant
            n == graph.n,
            start <= n,
            s.inv(*graph),
            s.index == index@,
            s.low == lowlink@,
            s.stack == stack@,
            s.on == on_stack@,
            s.work.len() == 0,
            s.done == contents(sccs@),
            index_counter == s.order.len(),
            forall|v: int| 0 <= v < start ==> (#[trigger] s.index[v]) is Some,
        decreases n - start,
    {
        if index[start].is_none() {
            let mut work: Vec<(usize, usize)> = Vec::new();
            proof {
                lemma_visit(*graph, s, start as int);
            }
            work.push((start, 0));
            index.set(start, Some(index_counter));
            lowlink.set(start, index_counter);
            index_counter = index_counter + 1;
            stack.push(DeclId(start));
            on_stack.set(start, true);
            let ghost s0 = s;
            proof {
                s = discover(s, start as int);
                assert(s.work =~= work@);
            }
            while work.len() > 0
                invariant
                    n == graph.n,
                    start < n,
                    s.inv(*graph),
                    s.index == index@,
                    s.low == lowlink@,
                    s.stack == stack@,
                    s.on == on_stack@,
                    s.work == work@,
                    s.done == contents(sccs@),
                    index_counter == s.order.len(),
                    forall|v: int| 0 <= v <= start ==> (#[trigger] s.index[v]) is Some,
                decreases n - index_counter, left(*graph, work@),
            {
                let top: usize = work.len() - 1;
                let v: usize = work[top].0;
                let pos: usize = work[top].1;
                proof {
                    assert(0 <= s.base[top as int]);
                    assert(0 <= s.node(s.base[top as int]) < n);
                    assert(s.open_node(top as int) == v);
                }
                let ghost before = s;
                if pos < graph.adj[v].len() {
                    let w: usize = graph.adj[v][pos].0;
                    assert(w < n);
                    work.set(top, (v, pos + 1));
                    if index[w].is_none() {
                        proof {
                            lemma_visit(*graph, s, w as int);
                        }
                        index.set(w, Some(index_counter));
                        lowlink.set(w, index_counter);
                        index_counter = index_counter + 1;
                        stack.push(DeclId(w));
                        on_stack.set(w, true);
                        work.push((w, 0));
                        proof {
                            s = discover(s, w as int);
                            assert(s.work =~= work@);
                        }
                    } else {
                        proof {
                            lemma_follow(*graph, s, w as int);
                        }
                        if on_stack[w] {
                            if lowlink[w] < lowlink[v] {
                                let l: u32 = lowlink[w];
                                lowlink.set(v, l);
                            }
                        }
                        proof {
                            s = follow(s, w as int);
                            assert(s.work =~= work@);
                            assert(s.work.drop_last() =~= before.work.drop_last());
                            lemma_left_nonneg(*graph, s, s.work.len() as int);
                            assert(s.work.take(s.work.len() as int) =~= s.work);
                        }
                    }
                } else {
                    proof {
                        lemma_left_nonneg(*graph, s, top as int);
                        assert(s.work.take(top as int) =~= s.work.drop_last());
                    }
                    work.pop();
                    if work.len() > 0 {
                        let parent: usize = work[work.len() - 1].0;
                        assert(0 <= s.base[top - 1]);
                        assert(0 <= s.node(s.base[top - 1]) < n);
                        if lowlink[v] < lowlink[parent] {
                            let l: u32 = lowlink[v];
                            lowlink.set(parent, l);
                        }
                    }
                    let at: Option<u32> = index[v];
                    assert(s.visited(s.node(s.base[top as int])));
                    let root: bool = match at {
                        Some(i) => lowlink[v] == i,
                        None => false,
                    };
                    assert(lowlink@[v as int] == s.low[v as int]) by {
                        if top > 0 {
                            assert(s.base[top - 1] < s.base[top as int]);
                            lemma_stack_pos(*graph, s, s.base[top - 1], s.base[top as int]);
                        }
                    }
                    if root {
                        proof {
                            lemma_close(*graph, s);
                            lemma_close_basics(*graph, s);
                            assert(s.low == lowlink@) by {
                                if top > 0 {
                                    assert(s.low_at(*graph, s.base[top - 1]));
                                    lemma_stack_pos(
                                        *graph,
                                        s,
                                        s.base[top - 1],
                                        s.base[top as int],
                                    );
                                }
                            }
                        }
                        let mut scc: Vec<DeclId> = Vec::new();
                        let ghost b = s.base.last();
                        let ghost full = s.stack;
                        let mut more: bool = true;
                        while more
                            invariant
                                n == graph.n,
                                at_root(*graph, s),
                                full == s.stack,
                                b == s.base.last(),
                                0 <= b < full.len(),
                                s.node(b) == v,
                                v == s.open_node(s.work.len() - 1),
                                on_stack@.len() == n,
                                stack@.len() <= full.len(),
                                stack@ == full.take(stack@.len() as int),
                                b <= stack@.len(),
                                more ==> b < stack@.len(),
                                !more ==> b == stack@.len(),
                                scc@.len() == full.len() - stack@.len(),
                                forall|j: int|
                                    0 <= j < scc@.len() ==> scc@[j] == full[full.len() - 1 - j],
                                forall|x: int|
                                    0 <= x < n ==> #[trigger] on_stack@[x] == (s.on[x]
                                        && (stack@.len() < full.len() ==> s.idx(x) < s.idx(
                                        s.node(stack@.len() as int),
                                    ))),
                            decreases stack@.len(),
                        {
                            let ghost k = stack@.len() - 1;
                            assert(full[k] == stack@[k]);
                            assert(0 <= s.node(k) < n);
                            let ghost on0 = on_stack@;
                            match stack.pop() {
                                Some(w) => {
                                    on_stack.set(w.0, false);
                                    scc.push(w);
                                    proof {
                                        lemma_stack_pos(*graph, s, k, b);
                                        assert forall|x: int| 0 <= x < n implies #[trigger]
                                        on_stack@[x] == (s.on[x] && s.idx(x) < s.idx(s.node(k))) by {
                                            if s.on[x] {
                                                assert(s.held(x));
                                                let m = choose|m: int|
                                                    0 <= m < s.stack.len() && #[trigger] s.node(m)
                                                        == x;
                                                lemma_stack_pos(*graph, s, m, k);
                                                if k + 1 < full.len() {
                                                    lemma_stack_pos(*graph, s, m, k + 1);
                                                }
                                            }
                                            assert(on0[x] == (s.on[x] && (k + 1 < full.len()
                                                ==> s.idx(x) < s.idx(s.node(k + 1)))));
                                        }
                                    }
                                    if w.0 == v {
                                        more = false;
                                    }
                                },
                                None => {
                                    more = false;
                                },
                            }
                        }
                        assert(scc@ =~= popped(s));
                        sccs.push(scc);
                        proof {
                            s = close(s);
                            assert(s.work =~= work@);
                            assert(s.stack =~= stack@);
                            assert(s.on =~= on_stack@);
                            assert(s.done =~= contents(sccs@));
                        }
                    } else {
                        proof {
                            lemma_retire(*graph, s);
                            s = retire(s);
                            assert(s.work =~= work@);
                        }
                    }
                }
            }
        }
        start = start + 1;
    }
    proof {
        lemma_all_done(*graph, s);
    }
    sccs
}

/// Two graphs with the same nodes and the same calls. The order of the calls
/// and how often they are listed may differ.
pub open spec fn same_calls(g: CallGraph, h: CallGraph) -> bool {
    g.n == h.n && forall|x: int, y: int| #[trigger] g.edge(x, y) <==> #[trigger] h.edge(x, y)
}

/// Two components list the same declarations.
pub open spec fn same_members(c: Seq<DeclId>, d: Seq<DeclId>) -> bool {
    forall|x: int| #[trigger] lists(c, x) <==> #[trigger] lists(d, x)
}

/// One of the components lists the same declarations as `c`.
pub open spec fn has_component(sccs: Seq<Seq<DeclId>>, c: Seq<DeclId>) -> bool {
    exists|j: int| 0 <= j < sccs.len() && same_members(c, #[trigger] sccs[j])
}

/// A component lists declaration `x`.
pub open spec fn lists(c: Seq<DeclId>, x: int) -> bool {
    exists|j: int| 0 <= j < c.len() && (#[trigger] c[j]).0 == x
}

proof fn same_reach_in(g: CallGraph, h: CallGraph, x: int, y: int, k: nat)
    requires
        same_calls(g, h),
        g.reach_in(x, y, k),
    ensures
        h.reach_in(x, y, k),
    decreases k,
{
    if k > 0 {
        let m = choose|m: int| #[trigger] g.edge(x, m) && g.reach_in(m, y, (k - 1) as nat);
        same_reach_in(g, h, m, y, (k - 1) as nat);
        assert(h.edge(x, m));
    }
}

proof fn same_reach(g: CallGraph, h: CallGraph, x: int, y: int)
    requires
        same_calls(g, h),
    ensures
        g.reach(x, y) <==> h.reach(x, y),
{
    if g.reach(x, y) {
        let k = choose|k: nat| g.reach_in(x, y, k);
        same_reach_in(g, h, x, y, k);
    }
    if h.reach(x, y) {
        let k = choose|k: nat| h.reach_in(x, y, k);
        same_reach_in(h, g, x, y, k);
    }
}

/// The component of `b` that has the first declaration of a component of `a`.
spec fn partner(a: Seq<Seq<DeclId>>, b: Seq<Seq<DeclId>>, i: int) -> int {
    choose|j: int| in_component(b, j, a[i][0].0 as int)
}

proof fn partner_has_the_same(
    g: CallGraph,
    h: CallGraph,
    a: Seq<Seq<DeclId>>,
    b: Seq<Seq<DeclId>>,
    i: int,
)
    requires
        same_calls(g, h),
        are_sccs(g, a),
        are_sccs(h, b),
        0 <= i < a.len(),
    ensures
        0 <= partner(a, b, i) < b.len(),
        same_members(a[i], b[partner(a, b, i)]),
{
    let x = a[i][0].0 as int;
    assert(a[i].len() > 0);
    assert(in_component(a, i, x));
    assert(listed(a, x));
    assert(listed(b, x));
    let j = partner(a, b, i);
    assert(in_component(b, j, x));
    assert forall|y: int| #[trigger] lists(a[i], y) <==> #[trigger] lists(b[j], y) by {
        same_reach(g, h, x, y);
        same_reach(g, h, y, x);
        assert(lists(a[i], y) == in_component(a, i, y));
        assert(lists(b[j], y) == in_component(b, j, y));
        assert(in_component(a, i, y) <==> g.reach(x, y) && g.reach(y, x));
        assert(in_component(b, j, y) <==> h.reach(x, y) && h.reach(y, x));
    }
}

/// Different numbers below `n` are at most `n`.
proof fn few_numbers(s: Seq<int>, n: nat)
    requires
        forall|i: int| 0 <= i < s.len() ==> 0 <= #[trigger] s[i] < n,
        forall|i: int, j: int|
            0 <= i < s.len() && 0 <= j < s.len() && i != j ==> #[trigger] s[i] != #[trigger] s[j],
    ensures
        s.len() <= n,
    decreases n,
{
    if n == 0 {
        if s.len() > 0 {
            assert(0 <= s[0] < n);
        }
    } else if exists|p: int| 0 <= p < s.len() && #[trigger] s[p] == n - 1 {
        let p = choose|p: int| 0 <= p < s.len() && #[trigger] s[p] == n - 1;
        let rest = s.remove(p);
        assert forall|i: int| 0 <= i < rest.len() implies 0 <= #[trigger] rest[i] < n - 1 by {
            let k = if i < p {
                i
            } else {
                i + 1
            };
            assert(rest[i] == s[k]);
            assert(s[k] != s[p]);
        }
        assert forall|i: int, j: int|
            0 <= i < rest.len() && 0 <= j < rest.len() && i != j implies #[trigger] rest[i]
            != #[trigger] rest[j] by {
            let a = if i < p {
                i
            } else {
                i + 1
            };
            let b = if j < p {
                j
            } else {
                j + 1
            };
            assert(rest[i] == s[a]);
            assert(rest[j] == s[b]);
        }
        few_numbers(rest, (n - 1) as nat);
    } else {
        few_numbers(s, (n - 1) as nat);
    }
}

proof fn no_more_components(
    g: CallGraph,
    h: CallGraph,
    a: Seq<Seq<DeclId>>,
    b: Seq<Seq<DeclId>>,
)
    requires
        same_calls(g, h),
        are_sccs(g, a),
        are_sccs(h, b),
    ensures
        a.len() <= b.len(),
{
    let s = Seq::new(a.len(), |i: int| partner(a, b, i));
    assert forall|i: int| 0 <= i < s.len() implies 0 <= #[trigger] s[i] < b.len() by {
        partner_has_the_same(g, h, a, b, i);
    }
    assert forall|i: int, j: int|
        0 <= i < s.len() && 0 <= j < s.len() && i != j implies #[trigger] s[i]
        != #[trigger] s[j] by {
        partner_has_the_same(g, h, a, b, i);
        partner_has_the_same(g, h, a, b, j);
        if s[i] == s[j] {
            let x = a[j][0].0 as int;
            assert(a[j].len() > 0);
            assert(lists(a[j], x));
            assert(lists(b[s[j]], x));
            assert(lists(a[i], x));
            let k = choose|k: int| 0 <= k < a[i].len() && (#[trigger] a[i][k]).0 == x;
            assert(a[i][k].0 == a[j][0].0);
        }
    }
    few_numbers(s, b.len());
}

/// Graphs with the same calls have the same components: equally many, and each
/// component of one lists the declarations of one component of the other.
pub proof fn same_calls_same_components(
    g: CallGraph,
    h: CallGraph,
    a: Seq<Seq<DeclId>>,
    b: Seq<Seq<DeclId>>,
)
    requires
        same_calls(g, h),
        are_sccs(g, a),
        are_sccs(h, b),
    ensures
        a.len() == b.len(),
        forall|i: int| 0 <= i < a.len() ==> has_component(b, #[trigger] a[i]),
        forall|j: int| 0 <= j < b.len() ==> has_component(a, #[trigger] b[j]),
{
    no_more_components(g, h, a, b);
    no_more_components(h, g, b, a);
    assert forall|i: int| 0 <= i < a.len() implies has_component(b, #[trigger] a[i]) by {
        partner_has_the_same(g, h, a, b, i);
        assert(same_members(a[i], b[partner(a, b, i)]));
    }
    assert forall|j: int| 0 <= j < b.len() implies has_component(a, #[trigger] b[j]) by {
        partner_has_the_same(h, g, b, a, j);
        assert(same_members(b[j], a[partner(b, a, j)]));
    }
}

} // verus!
