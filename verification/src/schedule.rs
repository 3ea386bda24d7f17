//! The canonical schedule: a topological order of the resolved dependency
//! graph, ties broken by declaration position.  A program whose graph has
//! a cycle has no such order; the computation detects the cycle instead.

use vstd::prelude::*;
use vstd::seq_lib::*;
use vstd::set_lib::*;

verus! {

/// The resolved graph is well formed: one dependency list per node, every
/// entry an index of a node.
pub open spec fn graph_wf(n: int, g: Seq<Seq<usize>>) -> bool {
    &&& g.len() == n
    &&& forall|i: int, j: int| 0 <= i < n && 0 <= j < g[i].len() ==> (#[trigger] g[i][j]) < n
}

/// All dependencies of `v` lie in `done`.
pub open spec fn ready_in(g: Seq<Seq<usize>>, done: Seq<usize>, v: usize) -> bool {
    forall|d: int| 0 <= d < g[v as int].len() ==> done.contains(#[trigger] g[v as int][d])
}

/// Every node of the order comes after all of its dependencies.
pub open spec fn deps_before(g: Seq<Seq<usize>>, order: Seq<usize>) -> bool {
    forall|k: int| 0 <= k < order.len() ==> ready_in(g, order.subrange(0, k), #[trigger] order[k])
}

/// At every step the order takes the ready node of least index: the tie
/// break that makes the schedule canonical.
pub open spec fn min_ready(g: Seq<Seq<usize>>, order: Seq<usize>) -> bool {
    forall|k: int, v: usize|
        0 <= k < order.len() && v < g.len() && !(#[trigger] order.subrange(0, k).contains(v))
            && ready_in(g, order.subrange(0, k), v) ==> order[k] <= v
}

/// The canonical schedule of the graph: a permutation of the node
/// indices that respects the dependencies and breaks ties by least index.
pub open spec fn is_schedule(n: int, g: Seq<Seq<usize>>, order: Seq<usize>) -> bool {
    &&& order.len() == n
    &&& forall|k: int| 0 <= k < n ==> (#[trigger] order[k]) < n
    &&& order.no_duplicates()
    &&& deps_before(g, order)
    &&& min_ready(g, order)
}

/// A nonempty set of nodes each of which has a dependency inside the
/// set.  A graph has such a set exactly when it has a dependency cycle.
pub open spec fn cyclic_core(n: int, g: Seq<Seq<usize>>, s: Set<usize>) -> bool {
    &&& exists|v: usize| s.contains(v)
    &&& forall|v: usize| s.contains(v) ==> v < n
    &&& forall|v: usize| #[trigger]
        s.contains(v) ==> exists|d: int|
            0 <= d < g[v as int].len() && s.contains(#[trigger] g[v as int][d])
}

/// The graph has a dependency cycle.
pub open spec fn has_cycle(n: int, g: Seq<Seq<usize>>) -> bool {
    exists|s: Set<usize>| cyclic_core(n, g, s)
}

/// All dependencies of `v` are marked placed.
pub open spec fn deps_placed(g: Seq<Seq<usize>>, placed: Seq<bool>, v: usize) -> bool {
    forall|d: int| 0 <= d < g[v as int].len() ==> placed[(#[trigger] g[v as int][d]) as int]
}

/// An order over values below `n` without duplicates is no longer than
/// `n`; if it also holds every value below `n`, it is exactly `n` long.
proof fn lemma_order_card(n: int, order: Seq<usize>)
    requires
        0 <= n <= usize::MAX,
        order.no_duplicates(),
        forall|k: int| 0 <= k < order.len() ==> (#[trigger] order[k]) < n,
    ensures
        order.len() <= n,
        (forall|v: usize| v < n ==> order.contains(v)) ==> order.len() == n,
{
    broadcast use vstd::seq_lib::group_seq_properties;
    broadcast use vstd::set_lib::group_set_properties;

    let f = |u: usize| u as int;
    let oi = order.map_values(f);
    assert(vstd::relations::injective(f)) by {
        assert forall|x: usize, y: usize| #[trigger] f(x) == #[trigger] f(y) implies x == y by {}
    }
    order.lemma_no_duplicates_injective(f);
    oi.unique_seq_to_set();
    let s = oi.to_set();
    let range = set_int_range(0, n);
    lemma_int_range(0, n);
    assert(s.subset_of(range)) by {
        assert forall|x: int| s.contains(x) implies range.contains(x) by {
            let k = choose|k: int| 0 <= k < oi.len() && oi[k] == x;
            assert(oi[k] == f(order[k]));
        }
    }
    lemma_len_subset(s, range);
    if forall|v: usize| v < n ==> order.contains(v) {
        assert(range.subset_of(s)) by {
            assert forall|x: int| range.contains(x) implies s.contains(x) by {
                let u = x as usize;
                assert(u as int == x);
                assert(order.contains(u));
                let k = choose|k: int| 0 <= k < order.len() && order[k] == u;
                assert(oi[k] == f(order[k]));
                assert(oi.contains(oi[k]));
            }
        }
        lemma_len_subset(range, s);
    }
}

/// A full canonical order holds every node index.
pub proof fn lemma_schedule_complete(n: int, g: Seq<Seq<usize>>, order: Seq<usize>)
    requires
        is_schedule(n, g, order),
    ensures
        forall|v: usize| v < n ==> order.contains(v),
{
    broadcast use vstd::seq_lib::group_seq_properties;
    broadcast use vstd::set_lib::group_set_properties;

    assert forall|v: usize| v < n implies order.contains(v) by {
        if !order.contains(v) {
            let f = |u: usize| u as int;
            let oi = order.map_values(f);
            assert(vstd::relations::injective(f)) by {
                assert forall|x: usize, y: usize| #[trigger] f(x) == #[trigger] f(y)
                    implies x == y by {}
            }
            order.lemma_no_duplicates_injective(f);
            oi.unique_seq_to_set();
            let s = oi.to_set();
            let range = set_int_range(0, n);
            lemma_int_range(0, n);
            assert(s.subset_of(range.remove(v as int))) by {
                assert forall|x: int| s.contains(x) implies range.remove(v as int).contains(x) by {
                    let k = choose|k: int| 0 <= k < oi.len() && oi[k] == x;
                    assert(oi[k] == f(order[k]));
                    assert(order.contains(order[k]));
                }
            }
            assert(range.remove(v as int).len() == n - 1);
            lemma_len_subset(s, range.remove(v as int));
        }
    }
}

/// No member of a cyclic core stands in a schedule: the node at position
/// `k` is not in the core, because its in-core dependency would have to
/// stand earlier, and so on without end.
proof fn core_not_at(n: int, g: Seq<Seq<usize>>, s: Set<usize>, order: Seq<usize>, k: int)
    requires
        graph_wf(n, g),
        is_schedule(n, g, order),
        cyclic_core(n, g, s),
        0 <= k < n,
    ensures
        !s.contains(order[k]),
    decreases k,
{
    if s.contains(order[k]) {
        let v = order[k];
        let d = choose|d: int| 0 <= d < g[v as int].len() && s.contains(#[trigger] g[v as int][d]);
        let dep = g[v as int][d];
        assert(ready_in(g, order.subrange(0, k), v));
        assert(order.subrange(0, k).contains(dep));
        let k2 = choose|k2: int| 0 <= k2 < k && order.subrange(0, k)[k2] == dep;
        assert(order[k2] == dep);
        core_not_at(n, g, s, order, k2);
    }
}

/// A graph with a canonical schedule has no dependency cycle; with the
/// contract of [`toposort`] this says the cycle check accepts a graph
/// exactly when it is acyclic.
pub proof fn lemma_schedule_excludes_cycle(n: int, g: Seq<Seq<usize>>, order: Seq<usize>)
    requires
        graph_wf(n, g),
        is_schedule(n, g, order),
    ensures
        !has_cycle(n, g),
{
    if has_cycle(n, g) {
        let s = choose|s: Set<usize>| cyclic_core(n, g, s);
        let v = choose|v: usize| s.contains(v);
        lemma_schedule_complete(n, g, order);
        assert(order.contains(v));
        let k = choose|k: int| 0 <= k < order.len() && order[k] == v;
        core_not_at(n, g, s, order, k);
    }
}

/// The first `k` entries of any two canonical schedules agree: at every
/// step both must take the least ready unplaced node.
proof fn schedule_prefix_eq(n: int, g: Seq<Seq<usize>>, o1: Seq<usize>, o2: Seq<usize>, k: int)
    requires
        graph_wf(n, g),
        is_schedule(n, g, o1),
        is_schedule(n, g, o2),
        0 <= k <= n,
    ensures
        o1.subrange(0, k) == o2.subrange(0, k),
    decreases k,
{
    if k == 0 {
        assert(o1.subrange(0, 0) =~= o2.subrange(0, 0));
    } else {
        schedule_prefix_eq(n, g, o1, o2, k - 1);
        let p = o1.subrange(0, k - 1);
        assert(o2.subrange(0, k - 1) == p);
        let v1 = o1[k - 1];
        let v2 = o2[k - 1];
        assert(!p.contains(v1)) by {
            if p.contains(v1) {
                let j = choose|j: int| 0 <= j < k - 1 && p[j] == v1;
                assert(o1[j] == o1[k - 1]);
            }
        }
        assert(!o2.subrange(0, k - 1).contains(v2)) by {
            if o2.subrange(0, k - 1).contains(v2) {
                let j = choose|j: int| 0 <= j < k - 1 && (#[trigger] o2.subrange(0, k - 1)[j])
                    == v2;
                assert(o2[j] == o2[k - 1]);
            }
        }
        assert(ready_in(g, p, v1));
        assert(ready_in(g, o2.subrange(0, k - 1), v2));
        assert(v2 <= v1) by {
            assert(!o2.subrange(0, k - 1).contains(v1) && ready_in(g, o2.subrange(0, k - 1), v1));
        }
        assert(v1 <= v2) by {
            assert(!o1.subrange(0, k - 1).contains(v2) && ready_in(g, p, v2));
        }
        assert(o1.subrange(0, k) =~= o2.subrange(0, k)) by {
            assert forall|j: int| 0 <= j < k implies o1.subrange(0, k)[j] == o2.subrange(0, k)[j]
                by {
                if j < k - 1 {
                    assert(o1.subrange(0, k - 1)[j] == o2.subrange(0, k - 1)[j]);
                }
            }
        }
    }
}

/// A graph has at most one canonical schedule: running the scheduler
/// twice on the same program gives the same order.
pub proof fn lemma_schedule_unique(n: int, g: Seq<Seq<usize>>, o1: Seq<usize>, o2: Seq<usize>)
    requires
        graph_wf(n, g),
        is_schedule(n, g, o1),
        is_schedule(n, g, o2),
    ensures
        o1 == o2,
{
    schedule_prefix_eq(n, g, o1, o2, n);
    assert(o1 =~= o1.subrange(0, n));
    assert(o2 =~= o2.subrange(0, n));
}

/// Which node the first scan of the marks would pick: the least index
/// that is unplaced with all dependencies placed, if one exists.
fn first_ready(g: &Vec<Vec<usize>>, placed: &Vec<bool>) -> (r: Option<usize>)
    requires
        placed@.len() == g@.len(),
        graph_wf(g@.len() as int, g@.map_values(|d: Vec<usize>| d@)),
    ensures
        ({
            let gv = g@.map_values(|d: Vec<usize>| d@);
            match r {
                Some(v) => v < g@.len() && !placed@[v as int] && deps_placed(gv, placed@, v)
                    && forall|w: usize|
                    w < v ==> placed@[w as int] || !deps_placed(gv, placed@, w),
                None => forall|w: usize|
                    w < g@.len() ==> placed@[w as int] || !deps_placed(gv, placed@, w),
            }
        }),
{
    let ghost gv = g@.map_values(|d: Vec<usize>| d@);
    let n = g.len();
    let mut v: usize = 0;
    while v < n
        invariant
            forall|w: usize| w < v ==> placed@[w as int] || !deps_placed(gv, placed@, w),
        decreases n - v,
    {
        if !placed[v] {
            let row = &g[v];
            let nd = row.len();
            let mut d: usize = 0;
            let mut all = true;
            while d < nd
                invariant
                    nd == gv[v as int].len(),
                    row@ == gv[v as int],
                    d <= nd,
                    v < n,
                    all <==> (forall|e: int|
                        0 <= e < d ==> placed@[(#[trigger] gv[v as int][e]) as int]),
                decreases nd - d,
            {
                if !placed[row[d]] {
                    all = false;
                    assert(!placed@[(gv[v as int][d as int]) as int]);
                }
                d = d + 1;
            }
            if all {
                return Some(v);
            }
            assert(!deps_placed(gv, placed@, v));
        }
        v = v + 1;
    }
    None
}

/// Where one node stands during a run.
#[derive(Clone, Copy, PartialEq, Eq, Structural, Debug)]
pub enum NodeStatus {
    /// Not yet started.
    Pending,
    /// Started, not yet complete.
    Running,
    /// Complete.
    Done,
}

/// The scheduler's working state for a driver that runs nodes one by
/// one or concurrently: the resolved graph and each node's status.  A
/// driver asks for the next ready node, starts it, performs its
/// simulated delay, and reports its completion.  The invariant
/// guarantees that a node never starts before all of its dependencies
/// are done.
pub struct Schedule {
    /// The resolved dependency graph.
    pub graph: Vec<Vec<usize>>,
    /// Each node's status, by node index.
    pub status: Vec<NodeStatus>,
}

impl Schedule {
    /// The graph as a sequence of index lists.
    pub open spec fn gview(self) -> Seq<Seq<usize>> {
        self.graph@.map_values(|d: Vec<usize>| d@)
    }

    /// The working state is consistent: one status per node, and no
    /// node has started unless all of its dependencies are done.
    pub open spec fn wf(self) -> bool {
        &&& graph_wf(self.graph@.len() as int, self.gview())
        &&& self.status@.len() == self.graph@.len()
        &&& forall|v: int, d: int|
            0 <= v < self.status@.len() && 0 <= d < self.gview()[v].len() && !((
            #[trigger] self.status@[v]) is Pending) ==> self.status@[(#[trigger] self.gview()[v][
            d]) as int] is Done
    }

    /// A fresh state: every node pending.
    pub fn new(graph: Vec<Vec<usize>>) -> (s: Schedule)
        requires
            graph_wf(graph@.len() as int, graph@.map_values(|d: Vec<usize>| d@)),
        ensures
            s.wf(),
            s.graph@ == graph@,
            forall|v: int| 0 <= v < s.status@.len() ==> (#[trigger] s.status@[v]) is Pending,
    {
        let n = graph.len();
        let mut status: Vec<NodeStatus> = Vec::new();
        let mut i: usize = 0;
        while i < n
            invariant
                i <= n,
                status@.len() == i,
                forall|v: int| 0 <= v < i ==> (#[trigger] status@[v]) is Pending,
            decreases n - i,
        {
            status.push(NodeStatus::Pending);
            i = i + 1;
        }
        Schedule { graph, status }
    }

    /// The pending node of least index whose dependencies are all done,
    /// if any: the next node a driver may start.
    pub fn next_ready(&self) -> (r: Option<usize>)
        requires
            self.wf(),
        ensures
            match r {
                Some(v) => v < self.status@.len() && self.status@[v as int] is Pending && (forall|
                    d: int,
                |
                    0 <= d < self.gview()[v as int].len() ==> self.status@[(#[trigger] self.gview()[
                    v as int][d]) as int] is Done),
                None => forall|w: int|
                    0 <= w < self.status@.len() ==> !((#[trigger] self.status@[w]) is Pending)
                        || exists|d: int|
                        0 <= d < self.gview()[w].len() && !(self.status@[(#[trigger] self.gview()[
                        w][d]) as int] is Done),
            },
    {
        let n = self.graph.len();
        let ghost gv = self.gview();
        let mut v: usize = 0;
        while v < n
            invariant
                n == self.graph@.len(),
                forall|w: int|
                    0 <= w < v ==> !((#[trigger] self.status@[w]) is Pending) || exists|d: int|
                        0 <= d < gv[w].len() && !(self.status@[(#[trigger] gv[w][d]) as int]
                            is Done),
            decreases n - v,
        {
            let pending = match self.status[v] {
                NodeStatus::Pending => true,
                _ => false,
            };
            if pending {
                let row = &self.graph[v];
                let nd = row.len();
                let mut d: usize = 0;
                let mut all = true;
                while d < nd
                    invariant
                        v < n,
                        n == self.graph@.len(),
                        nd == gv[v as int].len(),
                        row@ == gv[v as int],
                        d <= nd,
                        all <==> (forall|e: int|
                            0 <= e < d ==> self.status@[(#[trigger] gv[v as int][e]) as int]
                                is Done),
                    decreases nd - d,
                {
                    let done = match self.status[row[d]] {
                        NodeStatus::Done => true,
                        _ => false,
                    };
                    if !done {
                        all = false;
                        assert(!(self.status@[(gv[v as int][d as int]) as int] is Done));
                    }
                    d = d + 1;
                }
                if all {
                    return Some(v);
                }
                proof {
                    let e = choose|e: int|
                        0 <= e < nd && !(self.status@[(#[trigger] gv[v as int][e]) as int] is Done);
                    assert(0 <= e < gv[v as int].len() && !(self.status@[(gv[v as int][e]) as int]
                        is Done));
                }
            }
            v = v + 1;
        }
        None
    }

    /// Start a pending node whose dependencies are all done.
    pub fn start(&mut self, v: usize)
        requires
            old(self).wf(),
            v < old(self).status@.len(),
            old(self).status@[v as int] is Pending,
            forall|d: int|
                0 <= d < old(self).gview()[v as int].len() ==> old(self).status@[(#[trigger] old(
                self,
                ).gview()[v as int][d]) as int] is Done,
        ensures
            final (self).wf(),
            final (self).graph@ == old(self).graph@,
            final (self).status@ == old(self).status@.update(v as int, NodeStatus::Running),
    {
        self.status.set(v, NodeStatus::Running);
    }

    /// Report a running node complete.
    pub fn complete(&mut self, v: usize)
        requires
            old(self).wf(),
            v < old(self).status@.len(),
            old(self).status@[v as int] is Running,
        ensures
            final (self).wf(),
            final (self).graph@ == old(self).graph@,
            final (self).status@ == old(self).status@.update(v as int, NodeStatus::Done),
    {
        self.status.set(v, NodeStatus::Done);
    }

    /// Whether every node is done.
    pub fn all_done(&self) -> (r: bool)
        requires
            self.wf(),
        ensures
            r == (forall|v: int|
                0 <= v < self.status@.len() ==> (#[trigger] self.status@[v]) is Done),
    {
        let n = self.status.len();
        let mut v: usize = 0;
        while v < n
            invariant
                n == self.status@.len(),
                forall|w: int| 0 <= w < v ==> (#[trigger] self.status@[w]) is Done,
            decreases n - v,
        {
            let done = match self.status[v] {
                NodeStatus::Done => true,
                _ => false,
            };
            if !done {
                return false;
            }
            v = v + 1;
        }
        true
    }
}

/// Compute the canonical schedule of a well-formed graph, or find a node
/// on a dependency cycle.
pub fn toposort(g: &Vec<Vec<usize>>) -> (r: Result<Vec<usize>, usize>)
    requires
        graph_wf(g@.len() as int, g@.map_values(|d: Vec<usize>| d@)),
    ensures
        ({
            let n = g@.len() as int;
            let gv = g@.map_values(|d: Vec<usize>| d@);
            match r {
                Ok(order) => is_schedule(n, gv, order@),
                Err(v) => (v as int) < n && exists|s: Set<usize>|
                    cyclic_core(n, gv, s) && s.contains(v),
            }
        }),
{
    let ghost gv = g@.map_values(|d: Vec<usize>| d@);
    let n = g.len();
    let mut order: Vec<usize> = Vec::new();
    let mut placed: Vec<bool> = Vec::new();
    let mut i: usize = 0;
    while i < n
        invariant
            i <= n,
            placed@.len() == i,
            forall|w: int| 0 <= w < i ==> !placed@[w],
        decreases n - i,
    {
        placed.push(false);
        i = i + 1;
    }
    while order.len() < n
        invariant
            placed@.len() == n,
            order@.len() <= n,
            order@.no_duplicates(),
            forall|k: int| 0 <= k < order@.len() ==> (#[trigger] order@[k]) < n,
            forall|v: usize| v < n ==> (placed@[v as int] <==> order@.contains(v)),
            deps_before(gv, order@),
            min_ready(gv, order@),
        decreases n - order.len(),
    {
        let picked = first_ready(g, &placed);
        match picked {
            Some(v) => {
                let ghost oldorder = order@;
                let ghost oldplaced = placed@;
                proof {
                    assert(!oldorder.contains(v));
                    assert(ready_in(gv, oldorder, v)) by {
                        assert forall|d: int| 0 <= d < gv[v as int].len() implies oldorder.contains(
                            #[trigger] gv[v as int][d],
                        ) by {
                            assert(placed@[(gv[v as int][d]) as int]);
                        }
                    }
                }
                placed.set(v, true);
                order.push(v);
                proof {
                    let neworder = order@;
                    assert(neworder.len() == oldorder.len() + 1);
                    assert forall|k: int| 0 <= k <= oldorder.len() implies neworder.subrange(0, k)
                        == oldorder.subrange(0, k) by {
                        assert(neworder.subrange(0, k) =~= oldorder.subrange(0, k));
                    }
                    assert(neworder.subrange(0, oldorder.len() as int) =~= oldorder);
                    assert(neworder.no_duplicates()) by {
                        assert forall|x: int, y: int|
                            0 <= x < y < neworder.len() implies neworder[x] != neworder[y] by {
                            if y == oldorder.len() {
                                assert(oldorder.contains(oldorder[x]));
                            }
                        }
                    }
                    assert(deps_before(gv, neworder)) by {
                        assert forall|k: int| 0 <= k < neworder.len() implies ready_in(
                            gv,
                            neworder.subrange(0, k),
                            #[trigger] neworder[k],
                        ) by {
                            if k < oldorder.len() {
                                assert(ready_in(gv, oldorder.subrange(0, k), oldorder[k]));
                            } else {
                                assert(neworder[k] == v);
                            }
                        }
                    }
                    assert(min_ready(gv, neworder)) by {
                        assert forall|k: int, w: usize|
                            0 <= k < neworder.len() && w < gv.len() && !(#[trigger] neworder
                                .subrange(0, k)
                                .contains(w)) && ready_in(gv, neworder.subrange(0, k), w)
                            implies neworder[k] <= w by {
                            if k < oldorder.len() {
                                assert(!oldorder.subrange(0, k).contains(w));
                                assert(ready_in(gv, oldorder.subrange(0, k), w));
                            } else {
                                // w is unplaced and ready at the final step, so
                                // the scan could not have passed it by
                                assert(neworder.subrange(0, k) =~= oldorder);
                                assert(!oldorder.contains(w));
                                if w < v {
                                    assert(ready_in(gv, oldorder, w));
                                    assert(deps_placed(gv, oldplaced, w)) by {
                                        assert forall|d: int|
                                            0 <= d < gv[w as int].len() implies oldplaced[(
                                        #[trigger] gv[w as int][d]) as int] by {
                                            assert(oldorder.contains(gv[w as int][d]));
                                        }
                                    }
                                    assert(!oldplaced[w as int]);
                                    assert(false);
                                }
                            }
                        }
                    }
                }
            },
            None => {
                // every unplaced node has an unplaced dependency: the
                // unplaced nodes form a cyclic core
                let ghost s = Set::new(|w: usize| w < n && !placed@[w as int]);
                let mut v: usize = 0;
                while v < n
                    invariant
                        forall|w: int| 0 <= w < v ==> placed@[w],
                    decreases n - v,
                {
                    if !placed[v] {
                        proof {
                            assert(s.contains(v));
                            assert forall|w: usize| #[trigger] s.contains(w) implies exists|d: int|
                                0 <= d < gv[w as int].len() && s.contains(
                                #[trigger] gv[w as int][d],
                            ) by {
                                assert(!placed@[w as int]);
                                assert(!deps_placed(gv, placed@, w));
                                let d = choose|d: int|
                                    0 <= d < gv[w as int].len() && !placed@[(#[trigger] gv[
                                    w as int][d]) as int];
                                assert(s.contains(gv[w as int][d]));
                            }
                            assert(cyclic_core(n as int, gv, s));
                        }
                        return Err(v);
                    }
                    v = v + 1;
                }
                proof {
                    assert(forall|w: usize| w < n ==> placed@[w as int]);
                    assert(forall|w: usize| w < n ==> order@.contains(w));
                    lemma_order_card(n as int, order@);
                    assert(false);
                }
            },
        }
    }
    Ok(order)
}

} // verus!
