use network_logic_simulator::parser::{parse, ParseError};
use network_logic_simulator::program::{FailurePolicy, RunMode};
use network_logic_simulator::schedule::{toposort, NodeStatus, Schedule};
use network_logic_simulator::sim::{run_script, SimError};
use network_logic_simulator::times::compute_times;
use network_logic_simulator::validate::{resolve, ValidationError};

fn run_ok(script: &str) -> String {
    let (out, err) = run_script(script);
    assert!(err.is_none());
    out
}

fn run_rejected(script: &str) -> SimError {
    let (out, err) = run_script(script);
    assert_eq!(out, "", "a rejected script publishes nothing");
    err.expect("the script is invalid")
}

#[test]
fn three_independent_nodes_all_modes() {
    let body = "node a 0\nnode b 0\nnode c 0\n";
    let expected = "a done at 0ms\nb done at 0ms\nc done at 0ms\n";
    let sequential = run_ok(&format!("mode sequential\n{}", body));
    let threaded = run_ok(&format!("mode threaded\n{}", body));
    let asynchronous = run_ok(&format!("mode async\n{}", body));
    assert_eq!(sequential, expected);
    assert_eq!(threaded, expected);
    assert_eq!(asynchronous, expected);
    for id in ["a", "b", "c"] {
        let line = format!("{} done at 0ms\n", id);
        assert_eq!(sequential.matches(&line).count(), 1, "each node reports exactly once");
    }
}

#[test]
fn diamond_reports_dependencies_first() {
    let body = "node a 1\nnode b 1 a\nnode c 1 a\nnode d 1 b c\n";
    let expected = "a done at 1ms\nb done at 2ms\nc done at 2ms\nd done at 3ms\n";
    for head in ["mode sequential\n", "mode threaded\n", "mode async\n", ""] {
        let out = run_ok(&format!("{}{}", head, body));
        assert_eq!(out, expected);
        let a = out.find("a done").unwrap();
        let b = out.find("b done").unwrap();
        let c = out.find("c done").unwrap();
        let d = out.find("d done").unwrap();
        assert!(a < b && a < c && b < d && c < d);
    }
}

#[test]
fn running_twice_is_identical() {
    let script = "mode threaded\nnode a 2\nnode b 3 a\nnode c 5\n";
    let (out1, err1) = run_script(script);
    let (out2, err2) = run_script(script);
    assert_eq!(out1, out2);
    assert!(err1.is_none() && err2.is_none());
}

#[test]
fn overlapping_delays_use_the_longest_path() {
    // b and c both wait for a; their delays overlap, so d completes at
    // the longest path, not at the sum of all durations
    let out = run_ok("node a 10\nnode b 20 a\nnode c 5 a\nnode d 1 b c\n");
    assert_eq!(out, "a done at 10ms\nb done at 30ms\nc done at 15ms\nd done at 31ms\n");
}

#[test]
fn declaration_order_breaks_ties() {
    let out = run_ok("node z 1\nnode m 1\nnode a 1\n");
    assert_eq!(out, "z done at 1ms\nm done at 1ms\na done at 1ms\n");

    let out = run_ok("node z 1\nnode a 1 z\nnode m 1\n");
    assert_eq!(out, "z done at 1ms\na done at 2ms\nm done at 1ms\n");
}

#[test]
fn dependencies_may_be_declared_after_their_dependents() {
    let out = run_ok("node b 1 a\nnode a 1\n");
    assert_eq!(out, "a done at 1ms\nb done at 2ms\n");
}

#[test]
fn cycle_is_rejected_before_any_output() {
    let err = run_rejected("node a 1 b\nnode b 1 a\n");
    match err {
        SimError::Validation(ValidationError::CyclicDependency { node }) => {
            assert!(node == "a" || node == "b");
        }
        _ => panic!("expected a cyclic dependency error"),
    }
}

#[test]
fn self_dependency_is_a_cycle() {
    let err = run_rejected("node a 1 a\n");
    match err {
        SimError::Validation(ValidationError::CyclicDependency { node }) => {
            assert_eq!(node, "a");
        }
        _ => panic!("expected a cyclic dependency error"),
    }
}

#[test]
fn unknown_dependency_names_the_identifier() {
    let err = run_rejected("node a 1 ghost_node\n");
    match err {
        SimError::Validation(ValidationError::UnknownDependency { node, dep }) => {
            assert_eq!(node, "a");
            assert_eq!(dep, "ghost_node");
        }
        _ => panic!("expected an unknown dependency error"),
    }
}

#[test]
fn duplicate_node_is_rejected() {
    let err = run_rejected("node a 1\nnode a 2\n");
    match err {
        SimError::Validation(ValidationError::DuplicateNode { id }) => {
            assert_eq!(id, "a");
        }
        _ => panic!("expected a duplicate node error"),
    }
}

#[test]
fn malformed_input_publishes_nothing() {
    let err = run_rejected("node a pig\n");
    assert!(matches!(err, SimError::Parse(ParseError::MalformedNode { line: 1 })));

    let err = run_rejected("node a 1\nnode b\n");
    assert!(matches!(err, SimError::Parse(ParseError::MalformedNode { line: 2 })));

    let err = run_rejected("launch a 1\n");
    assert!(matches!(err, SimError::Parse(ParseError::UnknownDirective { line: 1 })));

    let err = run_rejected("mode warp\n");
    assert!(matches!(err, SimError::Parse(ParseError::UnknownDirective { line: 1 })));

    let err = run_rejected("node a 1\nnode b 1 a a\n");
    assert!(matches!(err, SimError::Parse(ParseError::MalformedDependency { line: 2 })));

    let err = run_rejected("mode async\nmode sequential\n");
    assert!(matches!(err, SimError::Parse(ParseError::DuplicateDirective { line: 2 })));

    let err = run_rejected("node a 10000000\n");
    assert!(matches!(err, SimError::Parse(ParseError::MalformedNode { line: 1 })));
}

#[test]
fn duration_cap_is_inclusive() {
    let out = run_ok("node a 1000000\n");
    assert_eq!(out, "a done at 1000000ms\n");
}

#[test]
fn comments_blanks_and_crlf_are_tolerated() {
    let out = run_ok("# a comment\r\n\r\n   \t\r\nnode a 5\r\n# done\r\n");
    assert_eq!(out, "a done at 5ms\n");
}

#[test]
fn fail_fast_cuts_after_the_failing_node() {
    let (out, err) = run_script("node a 1\nfail b 1 a\nnode c 1\n");
    assert_eq!(out, "a done at 1ms\nb failed at 2ms\n");
    match err.expect("the run fails") {
        SimError::NodeExecution { node } => assert_eq!(node, "b"),
        _ => panic!("expected a node execution error"),
    }
}

#[test]
fn continue_policy_reports_every_node() {
    let (out, err) = run_script("policy continue\nnode a 1\nfail b 1 a\nnode c 1\n");
    assert_eq!(out, "a done at 1ms\nb failed at 2ms\nc done at 1ms\n");
    match err.expect("the run fails") {
        SimError::NodeExecution { node } => assert_eq!(node, "b"),
        _ => panic!("expected a node execution error"),
    }
}

#[test]
fn parsed_directives_land_in_the_program() {
    let p = parse("mode threaded\npolicy continue\nnode a 3 \nnode b 4 a\n").unwrap();
    assert_eq!(p.mode, RunMode::Threaded);
    assert_eq!(p.policy, FailurePolicy::Continue);
    assert_eq!(p.nodes.len(), 2);
    assert_eq!(p.nodes[0].id, "a");
    assert_eq!(p.nodes[0].duration_ms, 3);
    assert_eq!(p.nodes[1].deps.len(), 1);
    assert_eq!(p.nodes[1].deps[0], "a");

    let p = parse("node only 9\n").unwrap();
    assert_eq!(p.mode, RunMode::Sequential);
    assert_eq!(p.policy, FailurePolicy::FailFast);
}

#[test]
fn toposort_orders_the_diamond() {
    let p = parse("node a 1\nnode b 1 a\nnode c 1 a\nnode d 1 b c\n").unwrap();
    let g = resolve(&p).unwrap();
    let order = toposort(&g).unwrap();
    assert_eq!(order, vec![0, 1, 2, 3]);
    let durs: Vec<u64> = p.nodes.iter().map(|n| n.duration_ms).collect();
    let t = compute_times(&g, &durs, &order);
    assert_eq!(t, vec![1, 2, 2, 3]);
}

#[test]
fn schedule_machine_respects_dependencies() {
    let p = parse("node a 1\nnode b 1 a\nnode c 1 a\nnode d 1 b c\n").unwrap();
    let g = resolve(&p).unwrap();
    let mut machine = Schedule::new(g);
    assert!(!machine.all_done());

    assert_eq!(machine.next_ready(), Some(0));
    machine.start(0);
    // nothing else is ready while a runs
    assert_eq!(machine.next_ready(), None);
    machine.complete(0);

    assert_eq!(machine.next_ready(), Some(1));
    machine.start(1);
    // b and c are independent: c may start while b runs
    assert_eq!(machine.next_ready(), Some(2));
    machine.start(2);
    assert_eq!(machine.next_ready(), None);
    machine.complete(2);
    assert_eq!(machine.next_ready(), None);
    machine.complete(1);

    assert_eq!(machine.next_ready(), Some(3));
    machine.start(3);
    machine.complete(3);
    assert!(machine.all_done());
    assert_eq!(machine.status[0], NodeStatus::Done);
}

#[test]
fn empty_script_runs_and_publishes_nothing() {
    let (out, err) = run_script("");
    assert_eq!(out, "");
    assert!(err.is_none());
}
