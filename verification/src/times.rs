//! Logical completion times.  A node's completion time is its duration
//! plus the latest completion time among its dependencies: the simulated
//! clock at which its event fires when independent delays overlap.  The
//! defining equations have exactly one solution over an acyclic graph.

use vstd::prelude::*;

use crate::program::{MAX_DURATION_MS, MAX_NODES};
use crate::schedule::{deps_before, graph_wf, is_schedule, lemma_schedule_complete, ready_in};

verus! {

/// The latest completion time among the dependencies, zero for none.
pub open spec fn max_dep_time(deps: Seq<usize>, t: Seq<u64>) -> nat
    decreases deps.len(),
{
    if deps.len() == 0 {
        0
    } else {
        let rest = max_dep_time(deps.drop_last(), t);
        let last = t[deps.last() as int] as nat;
        if last > rest {
            last
        } else {
            rest
        }
    }
}

/// `t` solves the defining equations of the completion times.
pub open spec fn times_ok(g: Seq<Seq<usize>>, durs: Seq<u64>, t: Seq<u64>) -> bool {
    &&& t.len() == g.len()
    &&& forall|i: int|
        0 <= i < g.len() ==> (#[trigger] t[i]) as nat == durs[i] as nat + max_dep_time(g[i], t)
}

/// The maximum over the dependencies reads only the entries it names.
proof fn max_dep_time_congruence(deps: Seq<usize>, t1: Seq<u64>, t2: Seq<u64>)
    requires
        forall|d: int| 0 <= d < deps.len() ==> t1[(#[trigger] deps[d]) as int] == t2[deps[d] as int],
    ensures
        max_dep_time(deps, t1) == max_dep_time(deps, t2),
    decreases deps.len(),
{
    if deps.len() > 0 {
        max_dep_time_congruence(deps.drop_last(), t1, t2);
    }
}

/// Two solutions of the equations agree on the first `k` scheduled
/// nodes: the dependencies stand earlier in the schedule, so the
/// maxima agree step by step.
proof fn times_prefix_eq(
    n: int,
    g: Seq<Seq<usize>>,
    durs: Seq<u64>,
    order: Seq<usize>,
    t1: Seq<u64>,
    t2: Seq<u64>,
    k: int,
)
    requires
        graph_wf(n, g),
        is_schedule(n, g, order),
        times_ok(g, durs, t1),
        times_ok(g, durs, t2),
        0 <= k <= n,
    ensures
        forall|j: int| 0 <= j < k ==> t1[(#[trigger] order[j]) as int] == t2[order[j] as int],
    decreases k,
{
    if k > 0 {
        times_prefix_eq(n, g, durs, order, t1, t2, k - 1);
        let v = order[k - 1];
        assert(ready_in(g, order.subrange(0, k - 1), v));
        assert forall|d: int| 0 <= d < g[v as int].len() implies t1[(#[trigger] g[v as int][d])
            as int] == t2[g[v as int][d] as int] by {
            let dep = g[v as int][d];
            assert(order.subrange(0, k - 1).contains(dep));
            let j = choose|j: int|
                0 <= j < k - 1 && (#[trigger] order.subrange(0, k - 1)[j]) == dep;
            assert(order[j] == dep);
        }
        max_dep_time_congruence(g[v as int], t1, t2);
        assert(t1[v as int] as nat == durs[v as int] as nat + max_dep_time(g[v as int], t1));
    }
}

/// The equations pin the completion times: two solutions over the same
/// graph and durations are equal.
pub proof fn lemma_times_unique(
    n: int,
    g: Seq<Seq<usize>>,
    durs: Seq<u64>,
    order: Seq<usize>,
    t1: Seq<u64>,
    t2: Seq<u64>,
)
    requires
        0 <= n <= usize::MAX,
        graph_wf(n, g),
        is_schedule(n, g, order),
        times_ok(g, durs, t1),
        times_ok(g, durs, t2),
    ensures
        t1 == t2,
{
    times_prefix_eq(n, g, durs, order, t1, t2, n);
    lemma_schedule_complete(n, g, order);
    assert forall|i: int| 0 <= i < n implies t1[i] == t2[i] by {
        assert(order.contains(i as usize));
        let j = choose|j: int| 0 <= j < order.len() && order[j] == i as usize;
        assert(t1[(order[j]) as int] == t2[order[j] as int]);
    }
    assert(t1 =~= t2);
}

/// Solve the defining equations along the canonical schedule.  The
/// structural caps keep every time under `MAX_NODES * MAX_DURATION_MS`,
/// so the additions cannot overflow.
pub fn compute_times(g: &Vec<Vec<usize>>, durs: &Vec<u64>, order: &Vec<usize>) -> (t: Vec<u64>)
    requires
        graph_wf(g@.len() as int, g@.map_values(|d: Vec<usize>| d@)),
        durs@.len() == g@.len(),
        g@.len() <= MAX_NODES,
        forall|i: int| 0 <= i < durs@.len() ==> (#[trigger] durs@[i]) <= MAX_DURATION_MS,
        is_schedule(g@.len() as int, g@.map_values(|d: Vec<usize>| d@), order@),
    ensures
        times_ok(g@.map_values(|d: Vec<usize>| d@), durs@, t@),
{
    let ghost gv = g@.map_values(|d: Vec<usize>| d@);
    let n = g.len();
    let mut t: Vec<u64> = Vec::new();
    let mut i: usize = 0;
    while i < n
        invariant
            i <= n,
            t@.len() == i,
        decreases n - i,
    {
        t.push(0);
        i = i + 1;
    }
    let mut k: usize = 0;
    while k < n
        invariant
            t@.len() == n,
            k <= n,
            forall|j: int|
                0 <= j < k ==> (#[trigger] t@[order@[j] as int]) as nat == durs@[order@[j] as int]
                    as nat + max_dep_time(gv[order@[j] as int], t@),
            forall|j: int|
                0 <= j < k ==> (#[trigger] t@[order@[j] as int]) as nat <= (j + 1) * (
                MAX_DURATION_MS as nat),
        decreases n - k,
    {
        let v = order[k];
        let row = &g[v];
        let nd = row.len();
        let mut m: u64 = 0;
        let mut d: usize = 0;
        proof {
            assert(gv[v as int].subrange(0, 0) =~= Seq::<usize>::empty());
        }
        while d < nd
            invariant
                nd == gv[v as int].len(),
                row@ == gv[v as int],
                d <= nd,
                v < n,
                k < n,
                m as nat == max_dep_time(gv[v as int].subrange(0, d as int), t@),
                m as nat <= k * (MAX_DURATION_MS as nat),
            decreases nd - d,
        {
            let dep = row[d];
            proof {
                let pre = gv[v as int].subrange(0, d as int + 1);
                assert(pre.drop_last() =~= gv[v as int].subrange(0, d as int));
                assert(pre.last() == gv[v as int][d as int]);
                // the dependency stands earlier in the schedule, so its
                // time is already solved and bounded
                assert(ready_in(gv, order@.subrange(0, k as int), v));
                assert(order@.subrange(0, k as int).contains(gv[v as int][d as int]));
                let j = choose|j: int|
                    0 <= j < k && (#[trigger] order@.subrange(0, k as int)[j]) == gv[v as int][
                    d as int];
                assert(order@[j] == gv[v as int][d as int]);
                assert((t@[dep as int] as nat) <= (j + 1) * (MAX_DURATION_MS as nat));
                assert((j + 1) * (MAX_DURATION_MS as nat) <= k * (MAX_DURATION_MS as nat))
                    by (nonlinear_arith)
                    requires
                        0 <= j,
                        j + 1 <= k,
                {}
            }
            if t[dep] > m {
                m = t[dep];
            }
            d = d + 1;
        }
        proof {
            assert(gv[v as int].subrange(0, nd as int) =~= gv[v as int]);
            assert(m as nat == max_dep_time(gv[v as int], t@));
            assert(k * (MAX_DURATION_MS as nat) + MAX_DURATION_MS as nat <= MAX_NODES * (
            MAX_DURATION_MS as nat)) by (nonlinear_arith)
                requires
                    k + 1 <= MAX_NODES,
            {}
        }
        let val = durs[v] + m;
        let ghost oldt = t@;
        t.set(v, val);
        proof {
            // entries other than `v` are untouched; the equations of the
            // earlier scheduled nodes name only earlier entries, never `v`
            assert(!order@.subrange(0, k as int).contains(v)) by {
                if order@.subrange(0, k as int).contains(v) {
                    let j = choose|j: int|
                        0 <= j < k && (#[trigger] order@.subrange(0, k as int)[j]) == v;
                    assert(order@[j] == order@[k as int]);
                }
            }
            assert forall|j: int| 0 <= j < k + 1 implies (#[trigger] t@[order@[j] as int]) as nat
                == durs@[order@[j] as int] as nat + max_dep_time(gv[order@[j] as int], t@) by {
                if j < k {
                    let w = order@[j];
                    assert(w != v);
                    assert(t@[w as int] == oldt[w as int]);
                    assert forall|e: int| 0 <= e < gv[w as int].len() implies oldt[(#[trigger] gv[
                    w as int][e]) as int] == t@[gv[w as int][e] as int] by {
                        let dep = gv[w as int][e];
                        assert(ready_in(gv, order@.subrange(0, j), w));
                        assert(order@.subrange(0, j).contains(dep));
                        let x = choose|x: int|
                            0 <= x < j && (#[trigger] order@.subrange(0, j)[x]) == dep;
                        assert(order@[x] == dep);
                        assert(dep != v) by {
                            if dep == v {
                                assert(order@.subrange(0, k as int)[x] == v);
                            }
                        }
                    }
                    max_dep_time_congruence(gv[w as int], oldt, t@);
                } else {
                    assert(order@[j] == v);
                    assert forall|e: int| 0 <= e < gv[v as int].len() implies oldt[(#[trigger] gv[
                    v as int][e]) as int] == t@[gv[v as int][e] as int] by {
                        let dep = gv[v as int][e];
                        assert(order@.subrange(0, k as int).contains(dep));
                        let x = choose|x: int|
                            0 <= x < k && (#[trigger] order@.subrange(0, k as int)[x]) == dep;
                        assert(order@[x] == dep);
                        assert(dep != v);
                    }
                    max_dep_time_congruence(gv[v as int], oldt, t@);
                }
            }
            assert forall|j: int| 0 <= j < k + 1 implies (#[trigger] t@[order@[j] as int]) as nat
                <= (j + 1) * (MAX_DURATION_MS as nat) by {
                if j < k {
                    assert(order@[j] != v);
                    assert(t@[order@[j] as int] == oldt[order@[j] as int]);
                } else {
                    assert(t@[v as int] == val);
                }
            }
        }
        k = k + 1;
    }
    proof {
        lemma_schedule_complete(n as int, gv, order@);
        assert forall|i: int| 0 <= i < n implies (#[trigger] t@[i]) as nat == durs@[i] as nat
            + max_dep_time(gv[i], t@) by {
            assert(order@.contains(i as usize));
            let j = choose|j: int| 0 <= j < order@.len() && order@[j] == i as usize;
            assert(t@[order@[j] as int] as nat == durs@[order@[j] as int] as nat + max_dep_time(
                gv[order@[j] as int],
                t@,
            ));
        }
    }
    t
}

} // verus!
