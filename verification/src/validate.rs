//! Structural validation of a parsed program: identifiers must be unique,
//! every dependency must name a declared node.  On success the dependency
//! lists are resolved to node indices, on which cycle detection runs
//! afterwards.

use vstd::prelude::*;

use crate::program::{Node, NodeView, Program, ProgramView};
use crate::text::str_eq;

verus! {

/// A structural fault of a program.
#[derive(Debug)]
pub enum ValidationError {
    /// Two nodes share this identifier.
    DuplicateNode {
        /// The identifier declared twice.
        id: String,
    },
    /// A dependency names no declared node.
    UnknownDependency {
        /// The identifier of the referring node.
        node: String,
        /// The identifier the dependency names, declared nowhere.
        dep: String,
    },
    /// A node transitively depends on itself.
    CyclicDependency {
        /// The identifier of a node on a cycle.
        node: String,
    },
}

impl ProgramView {
    /// Every dependency identifier names a declared node.
    pub open spec fn deps_declared(self) -> bool {
        forall|i: int, j: int|
            0 <= i < self.nodes.len() && 0 <= j < self.nodes[i].deps.len() ==> exists|k: int|
                0 <= k < self.nodes.len() && (#[trigger] self.nodes[k]).id == (
                #[trigger] self.nodes[i].deps[j])
    }
}

/// The index lists `g` resolve the dependency names of `p`: entry `j` of
/// `g[i]` is an index of a node carrying the identifier that dependency
/// `j` of node `i` names.
pub open spec fn resolved(p: ProgramView, g: Seq<Seq<usize>>) -> bool {
    &&& g.len() == p.nodes.len()
    &&& forall|i: int| 0 <= i < g.len() ==> (#[trigger] g[i]).len() == p.nodes[i].deps.len()
    &&& forall|i: int, j: int|
        0 <= i < g.len() && 0 <= j < g[i].len() ==> (#[trigger] g[i][j]) < p.nodes.len()
            && p.nodes[g[i][j] as int].id == p.nodes[i].deps[j]
}

/// The index of the first node carrying `name`, or the node count if
/// none does.
fn find_index(nodes: &Vec<Node>, name: &str) -> (r: usize)
    ensures
        r <= nodes@.len(),
        r < nodes@.len() ==> nodes@[r as int]@.id == name@,
        forall|k: int| 0 <= k < r ==> (#[trigger] nodes@[k])@.id != name@,
{
    let n = nodes.len();
    let mut i: usize = 0;
    while i < n
        invariant
            n == nodes@.len(),
            i <= n,
            forall|k: int| 0 <= k < i ==> (#[trigger] nodes@[k])@.id != name@,
        decreases n - i,
    {
        if str_eq(nodes[i].id.as_str(), name) {
            return i;
        }
        i = i + 1;
    }
    n
}

/// Check that identifiers are unique and all dependencies declared, and
/// resolve every dependency list to node indices.
pub fn resolve(p: &Program) -> (r: Result<Vec<Vec<usize>>, ValidationError>)
    ensures
        match r {
            Ok(g) => p@.ids_unique() && p@.deps_declared() && resolved(
                p@,
                g@.map_values(|d: Vec<usize>| d@),
            ),
            Err(e) => match e {
                ValidationError::DuplicateNode { id } => !p@.ids_unique() && exists|i: int, j: int|
                    0 <= i < j < p@.nodes.len() && (#[trigger] p@.nodes[i]).id == id@
                        && (#[trigger] p@.nodes[j]).id == id@,
                ValidationError::UnknownDependency { node, dep } => p@.ids_unique()
                    && !p@.deps_declared() && exists|i: int, j: int|
                    0 <= i < p@.nodes.len() && 0 <= j < p@.nodes[i].deps.len()
                        && p@.nodes[i].id == node@ && (#[trigger] p@.nodes[i].deps[j]) == dep@ && (
                    forall|k: int|
                        0 <= k < p@.nodes.len() ==> (#[trigger] p@.nodes[k]).id != dep@),
                ValidationError::CyclicDependency { .. } => false,
            },
        },
{
    let n = p.nodes.len();
    let mut i: usize = 0;
    while i < n
        invariant
            n == p.nodes@.len(),
            i <= n,
            forall|x: int, y: int|
                0 <= x < y < i ==> (#[trigger] p@.nodes[x]).id != (#[trigger] p@.nodes[y]).id,
        decreases n - i,
    {
        let mut j: usize = 0;
        while j < i
            invariant
                n == p.nodes@.len(),
                j <= i < n,
                forall|y: int| 0 <= y < j ==> (#[trigger] p@.nodes[y]).id != p@.nodes[i as int].id,
            decreases i - j,
        {
            if str_eq(p.nodes[j].id.as_str(), p.nodes[i].id.as_str()) {
                proof {
                    let x = j as int;
                    let y = i as int;
                    assert(p@.nodes[x].id == p@.nodes[y].id);
                    assert(!p@.ids_unique());
                }
                return Err(ValidationError::DuplicateNode { id: p.nodes[i].id.clone() });
            }
            j = j + 1;
        }
        i = i + 1;
    }
    assert(p@.ids_unique());
    let mut g: Vec<Vec<usize>> = Vec::new();
    let mut i: usize = 0;
    while i < n
        invariant
            n == p.nodes@.len(),
            i <= n,
            p@.ids_unique(),
            g@.len() == i,
            forall|x: int| 0 <= x < i ==> (#[trigger] g@[x])@.len() == p@.nodes[x].deps.len(),
            forall|x: int, y: int|
                0 <= x < i && 0 <= y < g@[x]@.len() ==> (#[trigger] g@[x]@[y]) < n
                    && p@.nodes[g@[x]@[y] as int].id == p@.nodes[x].deps[y],
        decreases n - i,
    {
        let nd = p.nodes[i].deps.len();
        let mut row: Vec<usize> = Vec::new();
        let mut j: usize = 0;
        while j < nd
            invariant
                n == p.nodes@.len(),
                i < n,
                nd == p@.nodes[i as int].deps.len(),
                nd == p.nodes@[i as int].deps@.len(),
                j <= nd,
                row@.len() == j,
                forall|y: int|
                    0 <= y < j ==> (#[trigger] row@[y]) < n
                        && p@.nodes[row@[y] as int].id == p@.nodes[i as int].deps[y],
            decreases nd - j,
        {
            let name = p.nodes[i].deps[j].as_str();
            assert(name@ == p@.nodes[i as int].deps[j as int]);
            let k = find_index(&p.nodes, name);
            if k == n {
                let node_id = p.nodes[i].id.clone();
                let dep_id = p.nodes[i].deps[j].clone();
                proof {
                    let x = i as int;
                    let y = j as int;
                    assert(p@.nodes[x].deps[y] == name@);
                    assert(dep_id@ == name@);
                    assert(node_id@ == p@.nodes[x].id);
                    assert(forall|w: int|
                        0 <= w < p@.nodes.len() ==> (#[trigger] p@.nodes[w]).id != name@);
                    assert(!p@.deps_declared());
                    assert(0 <= x < p@.nodes.len() && 0 <= y < p@.nodes[x].deps.len()
                        && p@.nodes[x].id == node_id@ && p@.nodes[x].deps[y] == dep_id@ && (
                    forall|w: int|
                        0 <= w < p@.nodes.len() ==> (#[trigger] p@.nodes[w]).id != dep_id@));
                }
                return Err(ValidationError::UnknownDependency { node: node_id, dep: dep_id });
            }
            row.push(k);
            j = j + 1;
        }
        g.push(row);
        i = i + 1;
    }
    proof {
        let gv = g@.map_values(|d: Vec<usize>| d@);
        assert forall|x: int| 0 <= x < gv.len() implies (#[trigger] gv[x]).len()
            == p@.nodes[x].deps.len() by {
            assert(gv[x] == g@[x]@);
        }
        assert forall|x: int, y: int| 0 <= x < gv.len() && 0 <= y < gv[x].len() implies (
        #[trigger] gv[x][y]) < p@.nodes.len() && p@.nodes[gv[x][y] as int].id
            == p@.nodes[x].deps[y] by {
            assert(gv[x] == g@[x]@);
        }
        assert(resolved(p@, gv));
        assert forall|x: int, y: int|
            0 <= x < p@.nodes.len() && 0 <= y < p@.nodes[x].deps.len() implies exists|k: int|
            0 <= k < p@.nodes.len() && (#[trigger] p@.nodes[k]).id == (
        #[trigger] p@.nodes[x].deps[y]) by {
            assert(gv[x] == g@[x]@);
            let w = gv[x][y] as int;
            assert(0 <= w < p@.nodes.len() && p@.nodes[w].id == p@.nodes[x].deps[y]);
        }
    }
    Ok(g)
}

} // verus!
