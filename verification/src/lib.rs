//! A deterministic logic/event simulator driven by a line-oriented script.
//!
//! A script declares named nodes, each with a simulated duration and a list
//! of dependencies, plus global directives choosing the execution mode and
//! the failure policy.  The library parses the script, validates the
//! dependency graph (unique identifiers, declared dependencies, no cycles),
//! schedules the nodes in a canonical dependency-respecting order, computes
//! each node's logical completion time, and renders one output line per
//! executed node.  The rendered output is a pure function of the program:
//! it does not depend on the execution mode, so sequential, threaded and
//! asynchronous drivers all publish identical text.

#![verifier::loop_isolation(false)]

pub mod coins;
pub mod network_state;
pub mod numtext;
pub mod parser;
pub mod primes;
pub mod program;
pub mod report;
pub mod schedule;
pub mod sim;
pub mod text;
pub mod times;
pub mod tx;
pub mod validate;
