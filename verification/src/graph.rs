//! The dependency graph of the jail set and its topological ordering.
//!
//! Nodes are the indices `0..n` of the jails in the manifest; an edge
//! `(u, v)` records that `u` must start strictly before `v`.  The sort
//! succeeds exactly when the graph has a topological order, and its result
//! is proved to be one.

use vstd::prelude::*;
use vstd::seq_lib::*;
use vstd::set_lib::*;

verus! {

/// A directed graph over the nodes `0..n`.
pub struct DepGraph {
    /// Number of nodes.
    pub n: usize,
    /// Edges `(u, v)`: `u` must come before `v`.
    pub edges: Vec<(usize, usize)>,
}

/// Every edge endpoint lies below `n`.
pub open spec fn edges_wf(n: nat, edges: Seq<(usize, usize)>) -> bool {
    forall|k: int|
        0 <= k < edges.len() ==> (#[trigger] edges[k]).0 < n && edges[k].1 < n
}

/// For every edge and any positions of its endpoints in `o`, the source
/// stands strictly before the target.
pub open spec fn respects_edges(o: Seq<usize>, edges: Seq<(usize, usize)>) -> bool {
    forall|i: int, j: int, k: int|
        #![trigger o[i], o[j], edges[k]]
        0 <= k < edges.len() && 0 <= i < o.len() && 0 <= j < o.len() && o[i] == edges[k].0
            && o[j] == edges[k].1 ==> i < j
}

/// `o` lists each node below `n` exactly once and respects every edge.
pub open spec fn is_topo_order(o: Seq<usize>, n: nat, edges: Seq<(usize, usize)>) -> bool {
    &&& o.len() == n
    &&& forall|i: int| 0 <= i < o.len() ==> (#[trigger] o[i]) < n
    &&& forall|i: int, j: int| 0 <= i < j < o.len() ==> o[i] != o[j]
    &&& respects_edges(o, edges)
}

/// Whether any topological order of the graph exists, i.e. whether the
/// graph is acyclic.
pub open spec fn has_topo_order(n: nat, edges: Seq<(usize, usize)>) -> bool {
    exists|o: Seq<usize>| is_topo_order(o, n, edges)
}

/// The node an edge is walked from: against the arrows (`down` false)
/// or along them (`down` true).
pub open spec fn edge_src(e: (usize, usize), down: bool) -> usize {
    if down {
        e.0
    } else {
        e.1
    }
}

/// The node the same walk reaches.
pub open spec fn edge_dst(e: (usize, usize), down: bool) -> usize {
    if down {
        e.1
    } else {
        e.0
    }
}

/// A set closed under one step of the chosen direction.
pub open spec fn closed_toward(s: Set<usize>, edges: Seq<(usize, usize)>, down: bool) -> bool {
    forall|k: int|
        0 <= k < edges.len() && s.contains(edge_src(#[trigger] edges[k], down)) ==> s.contains(
            edge_dst(edges[k], down))
}

/// A set that holds every edge's source whenever it holds its target:
/// closed under dependencies.
pub open spec fn pred_closed(s: Set<usize>, edges: Seq<(usize, usize)>) -> bool {
    closed_toward(s, edges, false)
}

/// A set that holds every edge's target whenever it holds its source:
/// closed under dependents.
pub open spec fn succ_closed(s: Set<usize>, edges: Seq<(usize, usize)>) -> bool {
    closed_toward(s, edges, true)
}

/// Every node a mark table marks lies in the set.
pub open spec fn subset_of_marked(m: Seq<bool>, s: Set<usize>) -> bool {
    forall|u: usize| u < m.len() && m[u as int] ==> #[trigger] s.contains(u)
}

/// How many entries of a mark table are set.
pub open spec fn count_true(m: Seq<bool>) -> nat
    decreases m.len(),
{
    if m.len() == 0 {
        0
    } else {
        count_true(m.drop_last()) + (if m.last() {
            1nat
        } else {
            0nat
        })
    }
}

/// No more entries are set than there are.
proof fn lemma_count_true_le(m: Seq<bool>)
    ensures
        count_true(m) <= m.len(),
    decreases m.len(),
{
    if m.len() > 0 {
        lemma_count_true_le(m.drop_last());
    }
}

/// Setting a clear entry raises the count by one.
proof fn lemma_count_true_update(m: Seq<bool>, i: int)
    requires
        0 <= i < m.len(),
        !m[i],
    ensures
        count_true(m.update(i, true)) == count_true(m) + 1,
    decreases m.len(),
{
    let u = m.update(i, true);
    if i == m.len() - 1 {
        assert(u.drop_last() =~= m.drop_last());
    } else {
        assert(u.drop_last() =~= m.drop_last().update(i, true));
        assert(u.last() == m.last());
        lemma_count_true_update(m.drop_last(), i);
    }
}

/// A node that still has an unplaced predecessor.
pub open spec fn blocked(w: usize, placed: Seq<bool>, edges: Seq<(usize, usize)>) -> bool {
    exists|k: int|
        0 <= k < edges.len() && (#[trigger] edges[k]).1 == w && !placed[edges[k].0 as int]
}

/// The lowest unplaced node at or above `u` with no unplaced
/// predecessor, if any.
pub open spec fn next_ready_from(
    n: nat,
    edges: Seq<(usize, usize)>,
    placed: Seq<bool>,
    u: nat,
) -> Option<usize>
    decreases n - u,
{
    if u >= n {
        None
    } else if !placed[u as int] && !blocked(u as usize, placed, edges) {
        Some(u as usize)
    } else {
        next_ready_from(n, edges, placed, u + 1)
    }
}

/// The order built by repeatedly placing the lowest ready node, for at
/// most `fuel` steps.
pub open spec fn spec_topo_build(
    n: nat,
    edges: Seq<(usize, usize)>,
    placed: Seq<bool>,
    fuel: nat,
) -> Seq<usize>
    decreases fuel,
{
    if fuel == 0 {
        Seq::empty()
    } else {
        match next_ready_from(n, edges, placed, 0) {
            Some(u) => seq![u] + spec_topo_build(
                n, edges, placed.update(u as int, true), (fuel - 1) as nat),
            None => Seq::empty(),
        }
    }
}

/// The one order the sort produces when it succeeds: lowest-index ready
/// node first, starting from nothing placed.
pub open spec fn spec_topo_order(n: nat, edges: Seq<(usize, usize)>) -> Seq<usize> {
    spec_topo_build(n, edges, Seq::new(n, |i: int| false), n)
}

/// When everything from `s` up to `u` is placed or blocked and `u`
/// itself is ready, the scan from `s` picks `u`.
proof fn lemma_next_ready_at(
    n: nat,
    edges: Seq<(usize, usize)>,
    placed: Seq<bool>,
    u: usize,
    s: nat,
)
    requires
        s <= u < n,
        !placed[u as int],
        !blocked(u, placed, edges),
        forall|w: usize|
            s <= w < u ==> placed[w as int] || blocked(w, placed, edges),
    ensures
        next_ready_from(n, edges, placed, s) == Some(u),
    decreases u - s,
{
    if s < u {
        lemma_next_ready_at(n, edges, placed, u, s + 1);
    }
}

/// A duplicate-free sequence of fewer than `n` values below `n` misses
/// some value below `n`.
proof fn lemma_missing_node(o: Seq<usize>, n: nat)
    requires
        n <= usize::MAX,
        o.len() < n,
        forall|i: int| 0 <= i < o.len() ==> (#[trigger] o[i]) < n,
        forall|i: int, j: int| 0 <= i < j < o.len() ==> o[i] != o[j],
    ensures
        exists|u: usize| u < n && !o.contains(u),
{
    if !(exists|u: usize| u < n && !o.contains(u)) {
        let oi = o.map_values(|u: usize| u as int);
        assert(oi.no_duplicates()) by {
            assert forall|i: int, j: int|
                0 <= i < oi.len() && 0 <= j < oi.len() && i != j implies oi[i] != oi[j] by {
                if i < j {
                    assert(o[i] != o[j]);
                } else {
                    assert(o[j] != o[i]);
                }
            }
        }
        oi.unique_seq_to_set();
        lemma_int_range(0, n as int);
        assert(set_int_range(0, n as int).subset_of(oi.to_set())) by {
            assert forall|v: int| set_int_range(0, n as int).contains(v)
                implies oi.to_set().contains(v) by {
                let u = v as usize;
                assert(o.contains(u));
                let i = choose|i: int| 0 <= i < o.len() && o[i] == u;
                assert(oi[i] == v);
                assert(oi.contains(v));
            }
        }
        lemma_len_subset(set_int_range(0, n as int), oi.to_set());
        assert(false);
    }
}

/// A duplicate-free sequence of `n` values below `n` covers every value
/// below `n`.
pub proof fn lemma_full_coverage(o: Seq<usize>, n: nat)
    requires
        n <= usize::MAX,
        o.len() == n,
        forall|i: int| 0 <= i < o.len() ==> (#[trigger] o[i]) < n,
        forall|i: int, j: int| 0 <= i < j < o.len() ==> o[i] != o[j],
    ensures
        forall|u: usize| u < n ==> o.contains(u),
{
    if n > 0 {
        assert forall|u: usize| u < n implies o.contains(u) by {
            if !o.contains(u) {
                let oi = o.map_values(|w: usize| w as int);
                assert(oi.no_duplicates()) by {
                    assert forall|i: int, j: int|
                        0 <= i < oi.len() && 0 <= j < oi.len() && i != j
                        implies oi[i] != oi[j] by {
                        if i < j {
                            assert(o[i] != o[j]);
                        } else {
                            assert(o[j] != o[i]);
                        }
                    }
                }
                oi.unique_seq_to_set();
                lemma_int_range(0, n as int);
                let small = set_int_range(0, n as int).remove(u as int);
                assert(oi.to_set().subset_of(small)) by {
                    assert forall|v: int| oi.to_set().contains(v) implies small.contains(v) by {
                        let i = choose|i: int| 0 <= i < oi.len() && oi[i] == v;
                        assert(o[i] < n);
                        if v == u as int {
                            assert(o[i] == u);
                            assert(o.contains(u));
                        }
                    }
                }
                lemma_len_subset(oi.to_set(), small);
                assert(false);
            }
        }
    }
}

/// Among the positions up to `j` whose nodes are unplaced, there is an
/// earliest one.
proof fn lemma_first_unplaced(o: Seq<usize>, placed: Seq<bool>, n: nat, j: int) -> (j0: int)
    requires
        0 <= j < o.len(),
        placed.len() == n,
        forall|i: int| 0 <= i < o.len() ==> (#[trigger] o[i]) < n,
        !placed[o[j] as int],
    ensures
        0 <= j0 <= j,
        !placed[o[j0] as int],
        forall|i: int| 0 <= i < j0 ==> placed[#[trigger] o[i] as int],
    decreases j,
{
    if exists|i: int| 0 <= i < j && !placed[#[trigger] o[i] as int] {
        let i = choose|i: int| 0 <= i < j && !placed[#[trigger] o[i] as int];
        lemma_first_unplaced(o, placed, n, i)
    } else {
        j
    }
}

/// When every unplaced node has an unplaced predecessor and some node is
/// unplaced, no sequence is a topological order.
proof fn lemma_stuck_no_order(
    o: Seq<usize>,
    placed: Seq<bool>,
    edges: Seq<(usize, usize)>,
    n: nat,
)
    requires
        n <= usize::MAX,
        placed.len() == n,
        edges_wf(n, edges),
        exists|u: usize| u < n && !placed[u as int],
        forall|w: usize| w < n && !placed[w as int] ==> blocked(w, placed, edges),
    ensures
        !is_topo_order(o, n, edges),
{
    if is_topo_order(o, n, edges) {
        let u0 = choose|u: usize| u < n && !placed[u as int];
        lemma_full_coverage(o, n);
        assert(o.contains(u0));
        let j0 = choose|j: int| 0 <= j < o.len() && o[j] == u0;
        let jm = lemma_first_unplaced(o, placed, n, j0);
        let w = o[jm];
        assert(blocked(w, placed, edges));
        let k = choose|k: int|
            0 <= k < edges.len() && (#[trigger] edges[k]).1 == w && !placed[edges[k].0 as int];
        let a = edges[k].0;
        assert(a < n);
        assert(o.contains(a));
        let i = choose|i: int| 0 <= i < o.len() && o[i] == a;
        assert(i < jm);
        assert(placed[o[i] as int]);
    }
}

impl DepGraph {
    /// The graph is well formed: every edge endpoint is a node.
    pub open spec fn wf(self) -> bool {
        edges_wf(self.n as nat, self.edges@)
    }

    /// An empty graph over `n` nodes.
    pub fn new(n: usize) -> (g: DepGraph)
        ensures
            g.wf(),
            g.n == n,
            g.edges@.len() == 0,
    {
        DepGraph { n, edges: Vec::new() }
    }

    /// Add the edge `(u, v)`: `u` must come before `v`.
    pub fn add_edge(&mut self, u: usize, v: usize)
        requires
            old(self).wf(),
            u < old(self).n,
            v < old(self).n,
        ensures
            final(self).wf(),
            final(self).n == old(self).n,
            final(self).edges@ == old(self).edges@.push((u, v)),
    {
        self.edges.push((u, v));
    }

    /// Mark every node that reaches `t` against the edges (`down`
    /// false: `t` and its ancestors) or along them (`down` true: `t`
    /// and its descendants).  The marked set holds `t`, is closed one
    /// step in the chosen direction, and is the least such set: it lies
    /// inside every closed set that holds `t`.
    pub fn mark_reach(&self, t: usize, down: bool) -> (m: Vec<bool>)
        requires
            self.wf(),
            t < self.n,
        ensures
            m@.len() == self.n,
            m@[t as int],
            forall|k: int|
                0 <= k < self.edges@.len() && m@[edge_src(#[trigger] self.edges@[k], down)
                    as int] ==> m@[edge_dst(self.edges@[k], down) as int],
            forall|s: Set<usize>|
                #![trigger closed_toward(s, self.edges@, down)]
                closed_toward(s, self.edges@, down) && s.contains(t) ==> subset_of_marked(
                    m@, s),
    {
        let n = self.n;
        let mut marked: Vec<bool> = Vec::new();
        let mut i: usize = 0;
        while i < n
            invariant
                i <= n,
                marked@.len() == i,
                count_true(marked@) == 0,
                forall|w: int| 0 <= w < i ==> !marked@[w],
            decreases n - i,
        {
            let ghost pre = marked@;
            marked.push(false);
            proof {
                assert(marked@.drop_last() =~= pre);
            }
            i = i + 1;
        }
        proof {
            lemma_count_true_update(marked@, t as int);
        }
        let ghost base = marked@;
        marked.set(t, true);
        proof {
            assert(marked@ =~= base.update(t as int, true));
        }
        let mut num: usize = 1;
        let mut changed = true;
        while changed
            invariant
                n == self.n,
                self.wf(),
                t < n,
                marked@.len() == n,
                marked@[t as int],
                num == count_true(marked@),
                num <= n,
                forall|s: Set<usize>|
                    #![trigger closed_toward(s, self.edges@, down)]
                    closed_toward(s, self.edges@, down) && s.contains(t)
                        ==> subset_of_marked(marked@, s),
                !changed ==> forall|k2: int|
                    0 <= k2 < self.edges@.len() && marked@[edge_src(
                        #[trigger] self.edges@[k2], down) as int] ==> marked@[edge_dst(
                        self.edges@[k2], down) as int],
            decreases 2 * (n - num) + (if changed {
                1int
            } else {
                0int
            }),
        {
            let ghost num0 = num;
            changed = false;
            let mut k: usize = 0;
            while k < self.edges.len()
                invariant
                    n == self.n,
                    self.wf(),
                    t < n,
                    marked@.len() == n,
                    marked@[t as int],
                    num == count_true(marked@),
                    num <= n,
                    k <= self.edges@.len(),
                    num0 <= num,
                    changed ==> num0 < num,
                    forall|s: Set<usize>|
                        #![trigger closed_toward(s, self.edges@, down)]
                        closed_toward(s, self.edges@, down) && s.contains(t)
                            ==> subset_of_marked(marked@, s),
                    !changed ==> forall|k2: int|
                        0 <= k2 < k && marked@[edge_src(#[trigger] self.edges@[k2], down)
                            as int] ==> marked@[edge_dst(self.edges@[k2], down) as int],
                decreases self.edges@.len() - k,
            {
                let e = self.edges[k];
                let src = if down {
                    e.0
                } else {
                    e.1
                };
                let dst = if down {
                    e.1
                } else {
                    e.0
                };
                if marked[src] && !marked[dst] {
                    let ghost pre = marked@;
                    proof {
                        lemma_count_true_update(pre, dst as int);
                        lemma_count_true_le(pre.update(dst as int, true));
                    }
                    marked.set(dst, true);
                    num = num + 1;
                    changed = true;
                    proof {
                        assert(marked@ =~= pre.update(dst as int, true));
                        assert forall|s: Set<usize>|
                            closed_toward(s, self.edges@, down) && s.contains(t)
                            implies subset_of_marked(marked@, s) by {
                            assert(subset_of_marked(pre, s));
                            assert forall|u: usize|
                                u < marked@.len() && marked@[u as int] implies s.contains(
                                u) by {
                                if u == dst {
                                    assert(pre[src as int]);
                                    assert(s.contains(src));
                                    assert(src == edge_src(self.edges@[k as int], down));
                                    assert(s.contains(edge_dst(self.edges@[k as int], down)));
                                } else {
                                    assert(pre[u as int]);
                                }
                            }
                        }
                    }
                }
                k = k + 1;
            }
        }
        marked
    }

    /// Whether node `u` has no unplaced predecessor.
    fn no_unplaced_pred(&self, placed: &Vec<bool>, u: usize) -> (r: bool)
        requires
            self.wf(),
            placed@.len() == self.n,
            u < self.n,
        ensures
            r <==> !blocked(u, placed@, self.edges@),
    {
        let mut k: usize = 0;
        while k < self.edges.len()
            invariant
                self.wf(),
                placed@.len() == self.n,
                k <= self.edges@.len(),
                forall|k2: int|
                    0 <= k2 < k ==> !((#[trigger] self.edges@[k2]).1 == u
                        && !placed@[self.edges@[k2].0 as int]),
            decreases self.edges@.len() - k,
        {
            let e = self.edges[k];
            if e.1 == u && !placed[e.0] {
                return false;
            }
            k = k + 1;
        }
        true
    }

    /// A topological order of the graph, lowest-index node first among
    /// the ready ones.  Succeeds if and only if the graph is acyclic,
    /// and then returns the one order `spec_topo_order` names; on
    /// failure the returned node is one that could never be scheduled.
    pub fn topo_sort(&self) -> (r: Result<Vec<usize>, usize>)
        requires
            self.wf(),
        ensures
            match r {
                Ok(o) => is_topo_order(o@, self.n as nat, self.edges@),
                Err(c) => !has_topo_order(self.n as nat, self.edges@) && c < self.n,
            },
            r is Ok <==> has_topo_order(self.n as nat, self.edges@),
            r matches Ok(o) ==> o@ == spec_topo_order(self.n as nat, self.edges@),
    {
        let n = self.n;
        let mut placed: Vec<bool> = Vec::new();
        let mut i: usize = 0;
        while i < n
            invariant
                i <= n,
                placed@.len() == i,
                forall|w: int| 0 <= w < i ==> !placed@[w],
            decreases n - i,
        {
            placed.push(false);
            i = i + 1;
        }
        proof {
            assert(placed@ =~= Seq::new(n as nat, |i: int| false));
        }
        let mut order: Vec<usize> = Vec::new();
        let mut rounds: usize = 0;
        while rounds < n
            invariant
                n == self.n,
                self.wf(),
                placed@.len() == n,
                order@.len() == rounds,
                rounds <= n,
                spec_topo_order(n as nat, self.edges@) == order@ + spec_topo_build(
                    n as nat, self.edges@, placed@, (n - rounds) as nat),
                forall|i2: int| 0 <= i2 < order@.len() ==> (#[trigger] order@[i2]) < n,
                forall|i2: int, j2: int|
                    0 <= i2 < j2 < order@.len() ==> order@[i2] != order@[j2],
                forall|u: usize| u < n ==> (placed@[u as int] <==> order@.contains(u)),
                forall|k: int|
                    0 <= k < self.edges@.len() && placed@[(
                    #[trigger] self.edges@[k]).1 as int] ==> placed@[self.edges@[k].0 as int],
                respects_edges(order@, self.edges@),
            decreases n - rounds,
        {
            let mut u: usize = 0;
            let mut found = false;
            while u < n && !found
                invariant
                    n == self.n,
                    self.wf(),
                    placed@.len() == n,
                    u <= n,
                    forall|w: usize|
                        w < u ==> (placed@[w as int] || blocked(w, placed@, self.edges@)),
                    found ==> u < n && !placed@[u as int] && !blocked(u, placed@, self.edges@),
                decreases n - u + (if found { 0int } else { 1int }),
            {
                if !placed[u] && self.no_unplaced_pred(&placed, u) {
                    found = true;
                } else {
                    u = u + 1;
                }
            }
            if !found {
                proof {
                    lemma_missing_node(order@, n as nat);
                    let ghost u0 = choose|w: usize| w < n && !order@.contains(w);
                    assert(!placed@[u0 as int]);
                    assert(exists|u: usize| u < n && !placed@[u as int]);
                    assert forall|o: Seq<usize>| !is_topo_order(o, n as nat, self.edges@) by {
                        lemma_stuck_no_order(o, placed@, self.edges@, n as nat);
                    }
                    assert(!has_topo_order(n as nat, self.edges@));
                }
                let mut w: usize = 0;
                while w < n
                    invariant
                        n == self.n,
                        placed@.len() == n,
                        w <= n,
                        !has_topo_order(self.n as nat, self.edges@),
                        forall|w2: usize| w2 < w ==> placed@[w2 as int],
                        exists|w2: usize| w2 < n && !placed@[w2 as int],
                    decreases n - w,
                {
                    if !placed[w] {
                        return Err(w);
                    }
                    w = w + 1;
                }
                proof {
                    let ghost w2 = choose|w2: usize| w2 < n && !placed@[w2 as int];
                    assert(placed@[w2 as int]);
                }
                return Err(0);
            }
            let ghost old_placed = placed@;
            let ghost old_order = order@;
            proof {
                lemma_next_ready_at(n as nat, self.edges@, placed@, u, 0);
            }
            placed.set(u, true);
            order.push(u);
            proof {
                assert(placed@ =~= old_placed.update(u as int, true));
                let ghost fuel = (n - rounds) as nat;
                assert(spec_topo_build(n as nat, self.edges@, old_placed, fuel) == seq![u]
                    + spec_topo_build(n as nat, self.edges@, placed@, (fuel - 1) as nat));
                assert(order@ =~= old_order + seq![u]);
                assert((old_order + (seq![u] + spec_topo_build(
                    n as nat, self.edges@, placed@, (fuel - 1) as nat))) =~= (order@
                    + spec_topo_build(n as nat, self.edges@, placed@, (fuel - 1) as nat)));
                assert(!old_order.contains(u));
                assert forall|v: usize| v < n implies (placed@[v as int] <==> order@.contains(
                    v)) by {
                    if v == u {
                        assert(order@[old_order.len() as int] == u);
                        assert(order@.contains(u));
                    } else {
                        if order@.contains(v) {
                            let i2 = choose|i2: int| 0 <= i2 < order@.len() && order@[i2] == v;
                            assert(i2 < old_order.len());
                            assert(old_order[i2] == v);
                            assert(old_order.contains(v));
                        } else {
                            if old_order.contains(v) {
                                let i2 = choose|i2: int|
                                    0 <= i2 < old_order.len() && old_order[i2] == v;
                                assert(order@[i2] == v);
                            }
                        }
                    }
                }
                assert forall|i2: int, j2: int, k: int|
                    #![trigger order@[i2], order@[j2], self.edges@[k]]
                    0 <= k < self.edges@.len() && 0 <= i2 < order@.len() && 0 <= j2
                        < order@.len() && order@[i2] == self.edges@[k].0 && order@[j2]
                        == self.edges@[k].1 implies i2 < j2 by {
                    let e = self.edges@[k];
                    if j2 == old_order.len() {
                        assert(e.1 == u);
                        assert(!blocked(u, old_placed, self.edges@));
                        assert(old_placed[e.0 as int]);
                        assert(old_order.contains(e.0));
                        if i2 == old_order.len() {
                            assert(e.0 == u);
                            assert(!old_placed[u as int]);
                        }
                    } else {
                        assert(old_order[j2] == e.1);
                        assert(old_order.contains(e.1));
                        assert(old_placed[e.1 as int]);
                        assert(old_placed[e.0 as int]);
                        if i2 == old_order.len() {
                            assert(e.0 == u);
                            assert(!old_placed[u as int]);
                        } else {
                            assert(old_order[i2] == e.0);
                        }
                    }
                }
            }
            rounds = rounds + 1;
        }
        proof {
            assert(is_topo_order(order@, n as nat, self.edges@));
            assert(spec_topo_build(n as nat, self.edges@, placed@, 0) =~= Seq::<usize>::empty());
            assert(order@ + Seq::<usize>::empty() =~= order@);
        }
        Ok(order)
    }
}

/// In any order that respects the edges and any plan that is a prefix of
/// it, the plan contains every predecessor of each of its members: a
/// dependency is always scheduled, and scheduled first.
pub proof fn lemma_prefix_closed(o: Seq<usize>, edges: Seq<(usize, usize)>, m: int)
    requires
        respects_edges(o, edges),
        forall|i: int, j: int| 0 <= i < j < o.len() ==> o[i] != o[j],
        0 <= m <= o.len(),
    ensures
        forall|k: int|
            0 <= k < edges.len() && o.take(m).contains((#[trigger] edges[k]).1)
                && o.contains(edges[k].0) ==> o.take(m).contains(edges[k].0),
{
    assert forall|k: int|
        0 <= k < edges.len() && o.take(m).contains((#[trigger] edges[k]).1)
            && o.contains(edges[k].0) implies o.take(m).contains(edges[k].0) by {
        let e = edges[k];
        let j = choose|j: int| 0 <= j < m && o.take(m)[j] == e.1;
        let i = choose|i: int| 0 <= i < o.len() && o[i] == e.0;
        assert(o[j] == e.1);
        assert(i < j);
        assert(o.take(m)[i] == e.0);
    }
}

} // verus!
