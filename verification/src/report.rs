//! The reporter: renders one deterministic output line per executed
//! node, in the canonical schedule order, with the node's logical
//! completion time.  Under the fail-fast policy rendering stops right
//! after the first failing node; under the continue policy every node
//! reports.

use vstd::prelude::*;

use crate::numtext::{dec_rep, push_dec_u64};
use crate::program::{NodeView, OpKind, Program};

verus! {

/// The output line of one node: its identifier, its outcome, and its
/// logical completion time.
pub open spec fn render_line(nv: NodeView, t: u64) -> Seq<char> {
    nv.id + (if nv.op is Emit {
        " done at "@
    } else {
        " failed at "@
    }) + dec_rep(t as nat) + "ms\n"@
}

/// The lines of the first `upto` scheduled nodes, concatenated.
pub open spec fn render_output(
    nodes: Seq<NodeView>,
    order: Seq<usize>,
    t: Seq<u64>,
    upto: int,
) -> Seq<char>
    decreases upto,
{
    if upto <= 0 {
        Seq::empty()
    } else {
        render_output(nodes, order, t, upto - 1) + render_line(
            nodes[order[upto - 1] as int],
            t[order[upto - 1] as int],
        )
    }
}

/// The schedule position of the first failing node at or after `k`, or
/// the schedule length if none fails.
pub open spec fn first_fail_from(nodes: Seq<NodeView>, order: Seq<usize>, k: int) -> int
    decreases order.len() - k,
{
    if k < 0 || k >= order.len() {
        order.len() as int
    } else if nodes[order[k] as int].op is Fail {
        k
    } else {
        first_fail_from(nodes, order, k + 1)
    }
}

/// How many scheduled nodes execute: all of them, unless the policy is
/// fail-fast and a node fails, which cuts the run right after it.
pub open spec fn executed_count(
    policy: crate::program::FailurePolicy,
    nodes: Seq<NodeView>,
    order: Seq<usize>,
) -> int {
    let ff = first_fail_from(nodes, order, 0);
    if policy is FailFast && ff < order.len() {
        ff + 1
    } else {
        order.len() as int
    }
}

/// Some declared node's operation fails when it executes.
pub open spec fn some_node_fails(nodes: Seq<NodeView>) -> bool {
    exists|i: int| 0 <= i < nodes.len() && (#[trigger] nodes[i]).op is Fail
}

/// Render the output of a run along the canonical schedule, and hand
/// back the identifier of a failing node if one executed.
pub fn render(p: &Program, order: &Vec<usize>, t: &Vec<u64>) -> (r: (String, Option<String>))
    requires
        order@.len() == p@.nodes.len(),
        t@.len() == p@.nodes.len(),
        forall|k: int| 0 <= k < order@.len() ==> (#[trigger] order@[k]) < p@.nodes.len(),
    ensures
        r.0@ == render_output(p@.nodes, order@, t@, executed_count(p@.policy, p@.nodes, order@)),
        match r.1 {
            Some(id) => exists|i: int|
                0 <= i < p@.nodes.len() && (#[trigger] p@.nodes[i]).op is Fail && p@.nodes[i].id
                    == id@,
            None => forall|k: int|
                0 <= k < order@.len() ==> !((#[trigger] p@.nodes[order@[k] as int]).op is Fail),
        },
{
    let n = order.len();
    let mut out = String::new();
    let mut failed: Option<String> = None;
    let mut k: usize = 0;
    proof {
        assert(Seq::<char>::empty() =~= render_output(p@.nodes, order@, t@, 0));
    }
    while k < n
        invariant
            n == order@.len(),
            k <= n,
            out@ == render_output(p@.nodes, order@, t@, k as int),
            p@.policy is FailFast ==> first_fail_from(p@.nodes, order@, 0) == first_fail_from(
                p@.nodes,
                order@,
                k as int,
            ),
            failed is None ==> forall|j: int|
                0 <= j < k ==> !((#[trigger] p@.nodes[order@[j] as int]).op is Fail),
            match failed {
                Some(id) => exists|i: int|
                    0 <= i < p@.nodes.len() && (#[trigger] p@.nodes[i]).op is Fail && p@.nodes[i].id
                        == id@,
                None => true,
            },
        decreases n - k,
    {
        let v = order[k];
        let ghost out0 = out@;
        out.append(p.nodes[v].id.as_str());
        let is_fail = match p.nodes[v].op {
            OpKind::Emit => false,
            OpKind::Fail => true,
        };
        if is_fail {
            out.append(" failed at ");
        } else {
            out.append(" done at ");
        }
        push_dec_u64(&mut out, t[v]);
        out.append("ms\n");
        proof {
            assert(out@ =~= out0 + render_line(p@.nodes[v as int], t@[v as int]));
            assert(out@ =~= render_output(p@.nodes, order@, t@, k as int + 1));
        }
        if is_fail {
            let id = p.nodes[v].id.clone();
            proof {
                assert(p@.nodes[v as int].op is Fail);
                assert(p@.nodes[v as int].id == id@);
            }
            match p.policy {
                crate::program::FailurePolicy::FailFast => {
                    proof {
                        assert(first_fail_from(p@.nodes, order@, k as int) == k as int);
                        assert(executed_count(p@.policy, p@.nodes, order@) == k as int + 1);
                    }
                    return (out, Some(id));
                },
                crate::program::FailurePolicy::Continue => {
                    if failed.is_none() {
                        failed = Some(id);
                    }
                },
            }
        }
        k = k + 1;
    }
    proof {
        if p@.policy is FailFast {
            assert(first_fail_from(p@.nodes, order@, n as int) == n as int);
            assert(executed_count(p@.policy, p@.nodes, order@) == n as int);
        } else {
            assert(executed_count(p@.policy, p@.nodes, order@) == n as int);
        }
    }
    (out, failed)
}

} // verus!
