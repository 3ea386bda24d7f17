//! The in-memory description of a parsed script: nodes, their attributes,
//! and the global directives.

use vstd::prelude::*;

verus! {

/// Upper bound on the number of nodes a program may declare.
pub const MAX_NODES: usize = 100000;

/// Upper bound on a node's declared duration, in milliseconds.
pub const MAX_DURATION_MS: u64 = 1000000;

/// How the nodes of a program are driven at run time.  The published
/// output is the same in every mode; the mode decides only whether the
/// simulated delays of independent nodes may overlap in wall-clock time.
#[derive(Clone, Copy, PartialEq, Eq, Structural, Debug)]
pub enum RunMode {
    /// One node at a time, delays accumulating serially.
    Sequential,
    /// A pool of worker threads; independent delays overlap.
    Threaded,
    /// A single-thread cooperative loop; independent delays overlap.
    Async,
}

/// What happens to the rest of the run once a node's operation fails.
#[derive(Clone, Copy, PartialEq, Eq, Structural, Debug)]
pub enum FailurePolicy {
    /// Abort: no node after the failing one (in the canonical order) runs.
    FailFast,
    /// Report the failure and keep executing the remaining nodes.
    Continue,
}

/// The operation a node performs when it executes.  The set is closed:
/// the executor dispatches on it with a single match.
#[derive(Clone, Copy, PartialEq, Eq, Structural, Debug)]
pub enum OpKind {
    /// Complete normally and report a completion line.
    Emit,
    /// Fail deliberately and report a failure line.
    Fail,
}

/// A unit of declared work: a unique identifier, a simulated duration,
/// an operation, and the identifiers of the nodes it depends on.
pub struct Node {
    /// The node's identifier, unique within a program.
    pub id: String,
    /// Simulated delay before the node's completion event fires.
    pub duration_ms: u64,
    /// The operation the node performs.
    pub op: OpKind,
    /// Identifiers of the nodes that must complete before this one starts.
    pub deps: Vec<String>,
}

/// The mathematical value of a [`Node`].
pub struct NodeView {
    /// The identifier as a sequence of characters.
    pub id: Seq<char>,
    /// Simulated delay in milliseconds.
    pub duration_ms: u64,
    /// The operation the node performs.
    pub op: OpKind,
    /// The dependency identifiers, in declaration order.
    pub deps: Seq<Seq<char>>,
}

impl View for Node {
    type V = NodeView;

    open spec fn view(&self) -> NodeView {
        NodeView {
            id: self.id@,
            duration_ms: self.duration_ms,
            op: self.op,
            deps: self.deps@.map_values(|d: String| d@),
        }
    }
}

/// The full parsed script: the nodes in declaration order plus the
/// global directives.
pub struct Program {
    /// The execution mode the script asks for.
    pub mode: RunMode,
    /// The failure policy the script asks for.
    pub policy: FailurePolicy,
    /// The declared nodes, in declaration order.
    pub nodes: Vec<Node>,
}

/// The mathematical value of a [`Program`].
pub struct ProgramView {
    /// The execution mode the script asks for.
    pub mode: RunMode,
    /// The failure policy the script asks for.
    pub policy: FailurePolicy,
    /// The declared nodes, in declaration order.
    pub nodes: Seq<NodeView>,
}

impl View for Program {
    type V = ProgramView;

    open spec fn view(&self) -> ProgramView {
        ProgramView { mode: self.mode, policy: self.policy, nodes: self.nodes@.map_values(|n: Node| n@) }
    }
}

impl ProgramView {
    /// The declared identifiers, in declaration order.
    pub open spec fn ids(self) -> Seq<Seq<char>> {
        self.nodes.map_values(|n: NodeView| n.id)
    }

    /// Every identifier is declared at most once.
    pub open spec fn ids_unique(self) -> bool {
        forall|i: int, j: int|
            0 <= i < j < self.nodes.len() ==> self.nodes[i].id != self.nodes[j].id
    }

    /// Structural bounds that the parser guarantees: the program is small
    /// enough that no logical completion time can overflow, and no node
    /// lists the same dependency twice.
    pub open spec fn wf(self) -> bool {
        &&& self.nodes.len() <= MAX_NODES
        &&& forall|i: int|
            0 <= i < self.nodes.len() ==> (#[trigger] self.nodes[i]).duration_ms <= MAX_DURATION_MS
        &&& forall|i: int, j: int, k: int|
            0 <= i < self.nodes.len() && 0 <= j < k < self.nodes[i].deps.len()
                ==> self.nodes[i].deps[j] != self.nodes[i].deps[k]
    }
}

} // verus!
