//! The whole pipeline: parse, validate, schedule, time, render.  The
//! published output of a valid program is a pure function of its nodes
//! and its failure policy: the run mode plays no part in it, and running
//! the same script twice gives the same text.

use vstd::prelude::*;

use crate::parser::{parse, spec_parse, ParseError};
use crate::program::{NodeView, ProgramView};
use crate::report::{executed_count, render, render_output, some_node_fails};
use crate::schedule::{graph_wf, has_cycle, is_schedule, lemma_schedule_complete,
    lemma_schedule_excludes_cycle, lemma_schedule_unique, toposort};
use crate::times::{compute_times, lemma_times_unique, times_ok};
use crate::validate::{resolve, resolved, ValidationError};

verus! {

/// A fatal fault of a run: the script does not parse, the program does
/// not validate, or a node's operation failed.
#[derive(Debug)]
pub enum SimError {
    /// The script does not parse.
    Parse(ParseError),
    /// The program fails validation.
    Validation(ValidationError),
    /// A node's operation failed during execution.
    NodeExecution {
        /// The identifier of the failing node.
        node: String,
    },
}

/// The declared durations, by declaration position.
pub open spec fn durations(p: ProgramView) -> Seq<u64> {
    p.nodes.map_values(|n: NodeView| n.duration_ms)
}

/// Every resolution of the program's dependency names is acyclic.
pub open spec fn program_acyclic(p: ProgramView) -> bool {
    forall|g: Seq<Seq<usize>>| resolved(p, g) ==> !has_cycle(p.nodes.len() as int, g)
}

/// A program the validator accepts: unique identifiers, declared
/// dependencies, no dependency cycle.
pub open spec fn valid_program(p: ProgramView) -> bool {
    p.ids_unique() && p.deps_declared() && program_acyclic(p)
}

/// `out` is the published output of the program: the rendering, along
/// the canonical schedule, of the logical completion times, cut at the
/// first failure under the fail-fast policy.
pub open spec fn output_for(p: ProgramView, out: Seq<char>) -> bool {
    exists|g: Seq<Seq<usize>>, order: Seq<usize>, t: Seq<u64>|
        {
            &&& #[trigger] resolved(p, g)
            &&& #[trigger] is_schedule(p.nodes.len() as int, g, order)
            &&& #[trigger] times_ok(g, durations(p), t)
            &&& out == render_output(p.nodes, order, t, executed_count(p.policy, p.nodes, order))
        }
}

/// With unique identifiers there is only one way to resolve the
/// dependency names to node indices.
pub proof fn lemma_resolved_unique(p: ProgramView, g1: Seq<Seq<usize>>, g2: Seq<Seq<usize>>)
    requires
        p.ids_unique(),
        resolved(p, g1),
        resolved(p, g2),
    ensures
        g1 == g2,
{
    assert forall|i: int| 0 <= i < g1.len() implies g1[i] == g2[i] by {
        assert forall|j: int| 0 <= j < g1[i].len() implies g1[i][j] == g2[i][j] by {
            let a = g1[i][j];
            let b = g2[i][j];
            assert(p.nodes[a as int].id == p.nodes[i].deps[j]);
            assert(p.nodes[b as int].id == p.nodes[i].deps[j]);
            if a != b {
                assert(p.nodes[a as int].id == p.nodes[b as int].id);
            }
        }
        assert(g1[i] =~= g2[i]);
    }
    assert(g1 =~= g2);
}

/// Running a program twice gives the same output: the canonical
/// schedule and the completion times are unique, so the published text
/// is a function of the program alone.
pub proof fn lemma_output_deterministic(p: ProgramView, o1: Seq<char>, o2: Seq<char>)
    requires
        p.wf(),
        p.ids_unique(),
        output_for(p, o1),
        output_for(p, o2),
    ensures
        o1 == o2,
{
    let (g1, ord1, t1) = choose|g: Seq<Seq<usize>>, order: Seq<usize>, t: Seq<u64>|
        {
            &&& #[trigger] resolved(p, g)
            &&& #[trigger] is_schedule(p.nodes.len() as int, g, order)
            &&& #[trigger] times_ok(g, durations(p), t)
            &&& o1 == render_output(p.nodes, order, t, executed_count(p.policy, p.nodes, order))
        };
    let (g2, ord2, t2) = choose|g: Seq<Seq<usize>>, order: Seq<usize>, t: Seq<u64>|
        {
            &&& #[trigger] resolved(p, g)
            &&& #[trigger] is_schedule(p.nodes.len() as int, g, order)
            &&& #[trigger] times_ok(g, durations(p), t)
            &&& o2 == render_output(p.nodes, order, t, executed_count(p.policy, p.nodes, order))
        };
    let n = p.nodes.len() as int;
    lemma_resolved_unique(p, g1, g2);
    assert(graph_wf(n, g1));
    lemma_schedule_unique(n, g1, ord1, ord2);
    lemma_times_unique(n, g1, durations(p), ord1, t1, t2);
}

/// The published output does not depend on the run mode: two programs
/// with the same nodes and the same failure policy publish the same
/// text, whatever mode each declares.
pub proof fn lemma_output_mode_independent(p1: ProgramView, p2: ProgramView, out: Seq<char>)
    requires
        p1.nodes == p2.nodes,
        p1.policy == p2.policy,
        output_for(p1, out),
    ensures
        output_for(p2, out),
{
    let (g, ord, t) = choose|g: Seq<Seq<usize>>, order: Seq<usize>, t: Seq<u64>|
        {
            &&& #[trigger] resolved(p1, g)
            &&& #[trigger] is_schedule(p1.nodes.len() as int, g, order)
            &&& #[trigger] times_ok(g, durations(p1), t)
            &&& out == render_output(p1.nodes, order, t, executed_count(p1.policy, p1.nodes, order))
        };
    assert(resolved(p2, g));
    assert(durations(p1) == durations(p2));
    assert(is_schedule(p2.nodes.len() as int, g, ord));
    assert(times_ok(g, durations(p2), t));
}

/// Run a whole script: parse it, validate it, and publish the output of
/// its program.  A script that does not parse or validate publishes
/// nothing.  The second component carries the fault, if any; a failing
/// node is a fault of its own kind but still publishes the lines of the
/// nodes that executed.
pub fn run_script(s: &str) -> (r: (String, Option<SimError>))
    ensures
        match spec_parse(s@) {
            Err(e) => r.0@.len() == 0 && match r.1 {
                Some(SimError::Parse(pe)) => pe == e,
                _ => false,
            },
            Ok(pv) => {
                &&& (!pv.ids_unique() ==> r.0@.len() == 0 && match r.1 {
                    Some(SimError::Validation(ValidationError::DuplicateNode { id })) => exists|
                        i: int,
                        j: int,
                    |
                        0 <= i < j < pv.nodes.len() && (#[trigger] pv.nodes[i]).id == id@ && (
                        #[trigger] pv.nodes[j]).id == id@,
                    _ => false,
                })
                &&& (pv.ids_unique() && !pv.deps_declared() ==> r.0@.len() == 0 && match r.1 {
                    Some(
                        SimError::Validation(ValidationError::UnknownDependency { node, dep }),
                    ) => (forall|k: int|
                        0 <= k < pv.nodes.len() ==> (#[trigger] pv.nodes[k]).id != dep@) && exists|
                        i: int,
                        j: int,
                    |
                        0 <= i < pv.nodes.len() && 0 <= j < pv.nodes[i].deps.len() && pv.nodes[
                        i].id == node@ && (#[trigger] pv.nodes[i].deps[j]) == dep@,
                    _ => false,
                })
                &&& (pv.ids_unique() && pv.deps_declared() && !program_acyclic(pv) ==> r.0@.len()
                    == 0 && match r.1 {
                    Some(SimError::Validation(ValidationError::CyclicDependency { node })) => exists|
                        i: int,
                    | 0 <= i < pv.nodes.len() && (#[trigger] pv.nodes[i]).id == node@,
                    _ => false,
                })
                &&& (valid_program(pv) ==> output_for(pv, r.0@) && match r.1 {
                    None => !some_node_fails(pv.nodes),
                    Some(SimError::NodeExecution { node }) => some_node_fails(pv.nodes) && exists|
                        i: int,
                    |
                        0 <= i < pv.nodes.len() && (#[trigger] pv.nodes[i]).op is Fail
                            && pv.nodes[i].id == node@,
                    _ => false,
                })
            },
        },
{
    let p = match parse(s) {
        Ok(p) => p,
        Err(e) => {
            return (String::new(), Some(SimError::Parse(e)));
        },
    };
    let g = match resolve(&p) {
        Ok(g) => g,
        Err(e) => {
            return (String::new(), Some(SimError::Validation(e)));
        },
    };
    let ghost gv = g@.map_values(|d: Vec<usize>| d@);
    let order = match toposort(&g) {
        Ok(order) => order,
        Err(v) => {
            proof {
                assert(resolved(p@, gv));
                assert(has_cycle(p@.nodes.len() as int, gv));
                assert(!program_acyclic(p@));
            }
            let node = p.nodes[v].id.clone();
            return (String::new(), Some(SimError::Validation(
                ValidationError::CyclicDependency { node },
            )));
        },
    };
    proof {
        lemma_schedule_excludes_cycle(p@.nodes.len() as int, gv, order@);
        assert forall|g2: Seq<Seq<usize>>| resolved(p@, g2) implies !has_cycle(
            p@.nodes.len() as int,
            g2,
        ) by {
            lemma_resolved_unique(p@, g2, gv);
        }
        assert(valid_program(p@));
    }
    let n = p.nodes.len();
    let mut durs: Vec<u64> = Vec::new();
    let mut i: usize = 0;
    while i < n
        invariant
            i <= n,
            n == p@.nodes.len(),
            durs@.len() == i,
            forall|j: int| 0 <= j < i ==> (#[trigger] durs@[j]) == p@.nodes[j].duration_ms,
        decreases n - i,
    {
        durs.push(p.nodes[i].duration_ms);
        i = i + 1;
    }
    proof {
        assert(durs@ =~= durations(p@));
    }
    let t = compute_times(&g, &durs, &order);
    let (out, failed) = render(&p, &order, &t);
    proof {
        assert(output_for(p@, out@));
        if failed is None {
            lemma_schedule_complete(n as int, gv, order@);
            assert forall|i2: int| 0 <= i2 < p@.nodes.len() implies !((#[trigger] p@.nodes[i2]).op
                is Fail) by {
                assert(order@.contains(i2 as usize));
                let k = choose|k: int| 0 <= k < order@.len() && order@[k] == i2 as usize;
                assert(!(p@.nodes[order@[k] as int].op is Fail));
            }
        }
    }
    match failed {
        None => (out, None),
        Some(id) => (out, Some(SimError::NodeExecution { node: id })),
    }
}

} // verus!
