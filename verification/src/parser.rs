//! The script parser.
//!
//! The script is line oriented.  A line is blank, a comment (first token
//! starts with `#`), a directive, or a node declaration:
//!
//! ```text
//! mode (sequential | threaded | async)
//! policy (failfast | continue)
//! node <id> <duration_ms> <dep> ...
//! fail <id> <duration_ms> <dep> ...
//! ```
//!
//! Tokens are separated by spaces or tabs; a trailing carriage return is
//! dropped from each line.  Identifiers are nonempty words of ASCII
//! letters, digits and underscores.  Durations are decimal numbers of at
//! most seven digits, at most [`MAX_DURATION_MS`].  A `fail` declaration
//! is a node whose operation fails when it executes.  The parser reports
//! the first offending line.

use vstd::prelude::*;

use crate::numtext::{all_digits, dec_value, is_digit_char, parse_small_dec};
use crate::program::{FailurePolicy, Node, NodeView, OpKind, Program, ProgramView, RunMode,
    MAX_DURATION_MS, MAX_NODES};
use crate::text::str_eq;

verus! {

/// A reason the parser refuses a script, with the 1-based offending line.
#[derive(Clone, Copy, PartialEq, Eq, Structural, Debug)]
pub enum ParseError {
    /// The line's first token is no known directive or declaration, or a
    /// directive's argument is not one of its known values.
    UnknownDirective { line: usize },
    /// A node declaration is malformed: a missing or ill-formed
    /// identifier, or a missing, ill-formed or too large duration.
    MalformedNode { line: usize },
    /// A dependency list is malformed: an ill-formed identifier or a
    /// repeated entry.
    MalformedDependency { line: usize },
    /// A `mode` or `policy` directive appears twice.
    DuplicateDirective { line: usize },
    /// The script declares more nodes than a program may hold.
    ProgramTooLarge { line: usize },
}

/// Token separators.
pub open spec fn is_space(c: char) -> bool {
    c == ' ' || c == '\t'
}

/// The position of the first line break at or after `i`, or the end.
pub open spec fn line_end(s: Seq<char>, i: int) -> int
    decreases s.len() - i,
{
    if i < 0 {
        0
    } else if i >= s.len() || s[i] == '\n' {
        i
    } else {
        line_end(s, i + 1)
    }
}

/// A line without its trailing carriage return, if it has one.
pub open spec fn strip_cr(line: Seq<char>) -> Seq<char> {
    if line.len() > 0 && line.last() == '\r' {
        line.drop_last()
    } else {
        line
    }
}

/// The lines of `s` from position `i` on, `i` being a line start.
pub open spec fn lines_from(s: Seq<char>, i: int) -> Seq<Seq<char>>
    decreases s.len() - i, 1int,
{
    if i < 0 || i >= s.len() {
        Seq::empty()
    } else {
        seq![strip_cr(s.subrange(i, line_end(s, i)))] + lines_rest(s, i)
    }
}

/// The lines of `s` after the line running at position `i`.
pub open spec fn lines_rest(s: Seq<char>, i: int) -> Seq<Seq<char>>
    decreases s.len() - i, 0int,
{
    if i < 0 || i >= s.len() {
        Seq::empty()
    } else if s[i] == '\n' {
        lines_from(s, i + 1)
    } else {
        lines_rest(s, i + 1)
    }
}

/// The lines of the whole script.
pub open spec fn script_lines(s: Seq<char>) -> Seq<Seq<char>> {
    lines_from(s, 0)
}

/// The position right after the token starting at `i`, `s[i]` being no
/// separator.
pub open spec fn token_end(s: Seq<char>, i: int) -> int
    decreases s.len() - i,
{
    if i < 0 {
        0
    } else if i >= s.len() || is_space(s[i]) {
        i
    } else {
        token_end(s, i + 1)
    }
}

/// The tokens of `s` from position `i` on, `i` being outside any token.
pub open spec fn tokens_from(s: Seq<char>, i: int) -> Seq<Seq<char>>
    decreases s.len() - i, 0int,
{
    if i < 0 || i >= s.len() {
        Seq::empty()
    } else if is_space(s[i]) {
        tokens_from(s, i + 1)
    } else {
        seq![s.subrange(i, token_end(s, i))] + tokens_rest(s, i + 1)
    }
}

/// The tokens of `s` after the token running at position `i`.
pub open spec fn tokens_rest(s: Seq<char>, i: int) -> Seq<Seq<char>>
    decreases s.len() - i, 1int,
{
    if i < 0 || i >= s.len() {
        Seq::empty()
    } else if is_space(s[i]) {
        tokens_from(s, i)
    } else {
        tokens_rest(s, i + 1)
    }
}

/// The tokens of a whole line.
pub open spec fn line_tokens(line: Seq<char>) -> Seq<Seq<char>> {
    tokens_from(line, 0)
}

/// A character allowed in an identifier.
pub open spec fn is_ident_char(c: char) -> bool {
    is_digit_char(c) || (65 <= c as u32 <= 90) || (97 <= c as u32 <= 122) || c == '_'
}

/// A well-formed identifier: nonempty, of identifier characters only.
pub open spec fn is_ident(t: Seq<char>) -> bool {
    t.len() >= 1 && forall|i: int| 0 <= i < t.len() ==> is_ident_char(#[trigger] t[i])
}

/// A well-formed duration token: a decimal number within the cap.
pub open spec fn is_duration(t: Seq<char>) -> bool {
    all_digits(t) && 1 <= t.len() <= 7 && dec_value(t) <= MAX_DURATION_MS
}

/// What one line of the script means.
pub enum LineKind {
    /// Blank line or comment: no effect.
    Blank,
    /// A `mode` directive.
    ModeLine(RunMode),
    /// A `policy` directive.
    PolicyLine(FailurePolicy),
    /// A node declaration.
    Decl(NodeView),
    /// An offending line; the function of a line number gives the error.
    Bad(ErrKind),
}

/// The parse error kinds a single line can carry.
#[derive(Clone, Copy, PartialEq, Eq, Structural, Debug)]
pub enum ErrKind {
    /// See [`ParseError::UnknownDirective`].
    UnknownDirective,
    /// See [`ParseError::MalformedNode`].
    MalformedNode,
    /// See [`ParseError::MalformedDependency`].
    MalformedDependency,
}

/// The error kind at a given 1-based line.
pub open spec fn err_at(kind: ErrKind, line: int) -> ParseError {
    match kind {
        ErrKind::UnknownDirective => ParseError::UnknownDirective { line: line as usize },
        ErrKind::MalformedNode => ParseError::MalformedNode { line: line as usize },
        ErrKind::MalformedDependency => ParseError::MalformedDependency { line: line as usize },
    }
}

/// The dependency tokens of a declaration line: everything after the
/// keyword, the identifier and the duration.
pub open spec fn dep_tokens(toks: Seq<Seq<char>>) -> Seq<Seq<char>> {
    toks.subrange(3, toks.len() as int)
}

/// All dependency tokens are identifiers and none repeats.
pub open spec fn deps_ok(deps: Seq<Seq<char>>) -> bool {
    &&& forall|i: int| 0 <= i < deps.len() ==> is_ident(#[trigger] deps[i])
    &&& forall|i: int, j: int| 0 <= i < j < deps.len() ==> deps[i] != deps[j]
}

/// The meaning of a declaration line with keyword already matched.
pub open spec fn classify_decl(toks: Seq<Seq<char>>, op: OpKind) -> LineKind {
    if toks.len() < 3 || !is_ident(toks[1]) || !is_duration(toks[2]) {
        LineKind::Bad(ErrKind::MalformedNode)
    } else if !deps_ok(dep_tokens(toks)) {
        LineKind::Bad(ErrKind::MalformedDependency)
    } else {
        LineKind::Decl(NodeView {
            id: toks[1],
            duration_ms: dec_value(toks[2]) as u64,
            op: op,
            deps: dep_tokens(toks),
        })
    }
}

/// The meaning of one line.
pub open spec fn classify_line(line: Seq<char>) -> LineKind {
    let toks = line_tokens(line);
    if toks.len() == 0 {
        LineKind::Blank
    } else if toks[0].len() > 0 && toks[0][0] == '#' {
        LineKind::Blank
    } else if toks[0] == "mode"@ {
        if toks.len() == 2 && toks[1] == "sequential"@ {
            LineKind::ModeLine(RunMode::Sequential)
        } else if toks.len() == 2 && toks[1] == "threaded"@ {
            LineKind::ModeLine(RunMode::Threaded)
        } else if toks.len() == 2 && toks[1] == "async"@ {
            LineKind::ModeLine(RunMode::Async)
        } else {
            LineKind::Bad(ErrKind::UnknownDirective)
        }
    } else if toks[0] == "policy"@ {
        if toks.len() == 2 && toks[1] == "failfast"@ {
            LineKind::PolicyLine(FailurePolicy::FailFast)
        } else if toks.len() == 2 && toks[1] == "continue"@ {
            LineKind::PolicyLine(FailurePolicy::Continue)
        } else {
            LineKind::Bad(ErrKind::UnknownDirective)
        }
    } else if toks[0] == "node"@ {
        classify_decl(toks, OpKind::Emit)
    } else if toks[0] == "fail"@ {
        classify_decl(toks, OpKind::Fail)
    } else {
        LineKind::Bad(ErrKind::UnknownDirective)
    }
}

/// The state the parser threads through the lines.
pub struct BuildState {
    /// The mode directive seen so far, if any.
    pub mode: Option<RunMode>,
    /// The policy directive seen so far, if any.
    pub policy: Option<FailurePolicy>,
    /// The nodes declared so far, in declaration order.
    pub nodes: Seq<NodeView>,
}

/// The meaning of the lines from `k` on, starting from state `st`.
pub open spec fn spec_parse_from(lines: Seq<Seq<char>>, k: int, st: BuildState) -> Result<
    BuildState,
    ParseError,
>
    decreases lines.len() - k,
{
    if k < 0 || k >= lines.len() {
        Ok(st)
    } else {
        match classify_line(lines[k]) {
            LineKind::Blank => spec_parse_from(lines, k + 1, st),
            LineKind::ModeLine(m) => if st.mode is Some {
                Err(ParseError::DuplicateDirective { line: (k + 1) as usize })
            } else {
                spec_parse_from(lines, k + 1, BuildState { mode: Some(m), ..st })
            },
            LineKind::PolicyLine(p) => if st.policy is Some {
                Err(ParseError::DuplicateDirective { line: (k + 1) as usize })
            } else {
                spec_parse_from(lines, k + 1, BuildState { policy: Some(p), ..st })
            },
            LineKind::Decl(nv) => if st.nodes.len() >= MAX_NODES {
                Err(ParseError::ProgramTooLarge { line: (k + 1) as usize })
            } else {
                spec_parse_from(lines, k + 1, BuildState { nodes: st.nodes.push(nv), ..st })
            },
            LineKind::Bad(kind) => Err(err_at(kind, k + 1)),
        }
    }
}

/// The program a final build state denotes: directives fall back to
/// their defaults where the script named none.
pub open spec fn program_of_state(st: BuildState) -> ProgramView {
    ProgramView {
        mode: if st.mode is Some {
            st.mode->0
        } else {
            RunMode::Sequential
        },
        policy: if st.policy is Some {
            st.policy->0
        } else {
            FailurePolicy::FailFast
        },
        nodes: st.nodes,
    }
}

/// The fresh state the parser starts from.
pub open spec fn init_state() -> BuildState {
    BuildState { mode: None, policy: None, nodes: Seq::empty() }
}

/// What the whole script means: a program, or the first error.
pub open spec fn spec_parse(s: Seq<char>) -> Result<ProgramView, ParseError> {
    match spec_parse_from(script_lines(s), 0, init_state()) {
        Ok(st) => Ok(program_of_state(st)),
        Err(e) => Err(e),
    }
}

/// Split a script into its lines, dropping each line's trailing
/// carriage return.
pub fn split_lines(s: &str) -> (r: Vec<String>)
    ensures
        r@.map_values(|l: String| l@) == script_lines(s@),
{
    let n = s.unicode_len();
    let mut out: Vec<String> = Vec::new();
    let mut i: usize = 0;
    while i < n
        invariant
            n == s@.len(),
            i <= n,
            out@.map_values(|l: String| l@) + lines_from(s@, i as int) == script_lines(s@),
        decreases n - i,
    {
        let ghost i0 = i as int;
        let mut j: usize = i;
        while j < n && s.get_char(j) != '\n'
            invariant
                n == s@.len(),
                i <= j <= n,
                line_end(s@, i as int) == line_end(s@, j as int),
                lines_rest(s@, i as int) == lines_rest(s@, j as int),
            decreases n - j,
        {
            j = j + 1;
        }
        assert(line_end(s@, i0) == j as int);
        let raw = s.substring_char(i, j);
        let line: &str = if j > i && raw.get_char(j - i - 1) == '\r' {
            raw.substring_char(0, j - i - 1)
        } else {
            raw
        };
        proof {
            assert(raw@.len() == j - i0);
            if j > i && raw@.last() == '\r' {
                assert(line@ =~= strip_cr(raw@));
            } else {
                assert(line@ =~= strip_cr(raw@));
            }
        }
        out.push(line.to_owned());
        proof {
            if j < n {
                assert(lines_rest(s@, j as int) == lines_from(s@, j as int + 1));
            } else {
                assert(lines_rest(s@, j as int) == Seq::<Seq<char>>::empty());
            }
            assert(out@.map_values(|l: String| l@) =~= out@.map_values(|l: String| l@));
        }
        let ghost outv = out@.map_values(|l: String| l@);
        if j < n {
            i = j + 1;
        } else {
            i = n;
        }
        proof {
            assert(outv + lines_from(s@, i as int) =~= script_lines(s@));
        }
    }
    out
}

/// Whether a character separates tokens.
fn is_space_char(c: char) -> (r: bool)
    ensures
        r == is_space(c),
{
    c == ' ' || c == '\t'
}

/// Split a line into its tokens.
pub fn tokenize(line: &str) -> (r: Vec<String>)
    ensures
        r@.map_values(|t: String| t@) == line_tokens(line@),
{
    let n = line.unicode_len();
    let mut out: Vec<String> = Vec::new();
    let mut i: usize = 0;
    while i < n
        invariant
            n == line@.len(),
            i <= n,
            out@.map_values(|t: String| t@) + tokens_from(line@, i as int) == line_tokens(line@),
        decreases n - i,
    {
        let c = line.get_char(i);
        if is_space_char(c) {
            i = i + 1;
        } else {
            let ghost i0 = i as int;
            let mut j: usize = i + 1;
            while j < n && !is_space_char(line.get_char(j))
                invariant
                    n == line@.len(),
                    i < j <= n,
                    token_end(line@, i as int) == token_end(line@, j as int),
                    tokens_rest(line@, i as int + 1) == tokens_rest(line@, j as int),
                decreases n - j,
            {
                j = j + 1;
            }
            assert(token_end(line@, i0) == j as int);
            let tok = line.substring_char(i, j);
            out.push(tok.to_owned());
            proof {
                if j < n {
                    assert(tokens_rest(line@, j as int) == tokens_from(line@, j as int));
                } else {
                    assert(tokens_rest(line@, j as int) == Seq::<Seq<char>>::empty());
                    assert(tokens_from(line@, j as int) == Seq::<Seq<char>>::empty());
                }
            }
            let ghost outv = out@.map_values(|t: String| t@);
            i = j;
            proof {
                assert(outv + tokens_from(line@, i as int) =~= line_tokens(line@));
            }
        }
    }
    out
}

/// Whether a token is a well-formed identifier.
pub fn check_ident(t: &str) -> (r: bool)
    ensures
        r == is_ident(t@),
{
    let n = t.unicode_len();
    if n == 0 {
        return false;
    }
    let mut i: usize = 0;
    while i < n
        invariant
            n == t@.len(),
            i <= n,
            forall|j: int| 0 <= j < i ==> is_ident_char(#[trigger] t@[j]),
        decreases n - i,
    {
        let u = t.get_char(i) as u32;
        let ok = (48 <= u && u <= 57) || (65 <= u && u <= 90) || (97 <= u && u <= 122) || u == 95;
        if !ok {
            assert(!is_ident_char(t@[i as int]));
            return false;
        }
        i = i + 1;
    }
    true
}

/// The executable value of one classified line.
pub enum LineItem {
    /// Blank line or comment.
    Blank,
    /// A `mode` directive.
    ModeLine(RunMode),
    /// A `policy` directive.
    PolicyLine(FailurePolicy),
    /// A node declaration.
    Decl(Node),
    /// An offending line.
    Bad(ErrKind),
}

/// Whether the dependency tokens are well formed: all identifiers, no
/// repeats.
fn check_deps(deps: &Vec<String>) -> (r: bool)
    ensures
        r == deps_ok(deps@.map_values(|t: String| t@)),
{
    let n = deps.len();
    let mut i: usize = 0;
    while i < n
        invariant
            n == deps@.len(),
            i <= n,
            forall|j: int| 0 <= j < i ==> is_ident(#[trigger] deps@[j]@),
        decreases n - i,
    {
        if !check_ident(deps[i].as_str()) {
            assert(deps@.map_values(|t: String| t@)[i as int] == deps@[i as int]@);
            return false;
        }
        i = i + 1;
    }
    let mut a: usize = 0;
    while a < n
        invariant
            n == deps@.len(),
            a <= n,
            forall|x: int, y: int| 0 <= x < y < n && x < a ==> deps@[x]@ != deps@[y]@,
        decreases n - a,
    {
        let mut b: usize = a + 1;
        while b < n
            invariant
                n == deps@.len(),
                a < b <= n,
                forall|y: int| a < y < b ==> deps@[a as int]@ != (#[trigger] deps@[y]@),
            decreases n - b,
        {
            if str_eq(deps[a].as_str(), deps[b].as_str()) {
                assert(deps@.map_values(|t: String| t@)[a as int] == deps@[a as int]@);
                assert(deps@.map_values(|t: String| t@)[b as int] == deps@[b as int]@);
                return false;
            }
            b = b + 1;
        }
        a = a + 1;
    }
    true
}

/// Classify a declaration line whose keyword is already matched.
fn classify_decl_exec(toks: &Vec<String>, op: OpKind) -> (r: LineItem)
    ensures
        match r {
            LineItem::Decl(n) => classify_decl(toks@.map_values(|t: String| t@), op)
                == LineKind::Decl(n@),
            LineItem::Bad(k) => classify_decl(toks@.map_values(|t: String| t@), op)
                == LineKind::Bad(k),
            _ => false,
        },
{
    let ghost tv = toks@.map_values(|t: String| t@);
    if toks.len() < 3 || !check_ident(toks[1].as_str()) {
        return LineItem::Bad(ErrKind::MalformedNode);
    }
    let dur = match parse_small_dec(toks[2].as_str()) {
        Some(v) => v,
        None => {
            return LineItem::Bad(ErrKind::MalformedNode);
        },
    };
    if dur > MAX_DURATION_MS {
        return LineItem::Bad(ErrKind::MalformedNode);
    }
    assert(is_duration(tv[2]));
    let mut deps: Vec<String> = Vec::new();
    let mut k: usize = 3;
    while k < toks.len()
        invariant
            3 <= k <= toks@.len(),
            tv == toks@.map_values(|t: String| t@),
            deps@.map_values(|t: String| t@) == tv.subrange(3, k as int),
        decreases toks@.len() - k,
    {
        let ghost olddeps = deps@;
        deps.push(toks[k].clone());
        proof {
            let dv = deps@.map_values(|t: String| t@);
            let sv = tv.subrange(3, k as int + 1);
            assert(deps@.len() == olddeps.len() + 1);
            assert(tv.len() == toks@.len());
            assert(dv.len() == deps@.len());
            assert(olddeps.map_values(|t: String| t@).len() == olddeps.len());
            assert(olddeps.len() == k - 3);
            assert(sv.len() == k as int + 1 - 3);
            assert forall|x: int| 0 <= x < dv.len() implies dv[x] == sv[x] by {
                assert(dv[x] == deps@[x]@);
                assert(sv[x] == tv[3 + x]);
                if x < olddeps.len() {
                    assert(deps@[x] == olddeps[x]);
                    assert(olddeps.map_values(|t: String| t@)[x] == olddeps[x]@);
                    assert(olddeps.map_values(|t: String| t@)[x] == tv.subrange(3, k as int)[x]);
                    assert(tv.subrange(3, k as int)[x] == tv[3 + x]);
                } else {
                    assert(deps@[x] == toks@[k as int]);
                    assert(tv[k as int] == toks@[k as int]@);
                }
            }
            assert(dv =~= sv);
        }
        k = k + 1;
    }
    proof {
        assert(tv.subrange(3, tv.len() as int) =~= dep_tokens(tv));
    }
    if !check_deps(&deps) {
        return LineItem::Bad(ErrKind::MalformedDependency);
    }
    let node = Node { id: toks[1].clone(), duration_ms: dur, op: op, deps: deps };
    LineItem::Decl(node)
}

/// Classify one line of the script.
pub fn classify(line: &str) -> (r: LineItem)
    ensures
        match r {
            LineItem::Blank => classify_line(line@) is Blank,
            LineItem::ModeLine(m) => classify_line(line@) == LineKind::ModeLine(m),
            LineItem::PolicyLine(p) => classify_line(line@) == LineKind::PolicyLine(p),
            LineItem::Decl(n) => classify_line(line@) == LineKind::Decl(n@),
            LineItem::Bad(k) => classify_line(line@) == LineKind::Bad(k),
        },
{
    let toks = tokenize(line);
    let ghost tv = toks@.map_values(|t: String| t@);
    if toks.len() == 0 {
        return LineItem::Blank;
    }
    let first = toks[0].as_str();
    if first.unicode_len() > 0 && first.get_char(0) == '#' {
        return LineItem::Blank;
    }
    if str_eq(first, "mode") {
        if toks.len() == 2 && str_eq(toks[1].as_str(), "sequential") {
            return LineItem::ModeLine(RunMode::Sequential);
        }
        if toks.len() == 2 && str_eq(toks[1].as_str(), "threaded") {
            return LineItem::ModeLine(RunMode::Threaded);
        }
        if toks.len() == 2 && str_eq(toks[1].as_str(), "async") {
            return LineItem::ModeLine(RunMode::Async);
        }
        return LineItem::Bad(ErrKind::UnknownDirective);
    }
    if str_eq(first, "policy") {
        if toks.len() == 2 && str_eq(toks[1].as_str(), "failfast") {
            return LineItem::PolicyLine(FailurePolicy::FailFast);
        }
        if toks.len() == 2 && str_eq(toks[1].as_str(), "continue") {
            return LineItem::PolicyLine(FailurePolicy::Continue);
        }
        return LineItem::Bad(ErrKind::UnknownDirective);
    }
    if str_eq(first, "node") {
        return classify_decl_exec(&toks, OpKind::Emit);
    }
    if str_eq(first, "fail") {
        return classify_decl_exec(&toks, OpKind::Fail);
    }
    LineItem::Bad(ErrKind::UnknownDirective)
}

/// Parse a whole script into a program, or report the first offending
/// line.  The result is exactly what [`spec_parse`] gives, and a parsed
/// program is structurally well formed.
pub fn parse(s: &str) -> (r: Result<Program, ParseError>)
    ensures
        match r {
            Ok(p) => spec_parse(s@) == Ok::<ProgramView, ParseError>(p@) && p@.wf(),
            Err(e) => spec_parse(s@) == Err::<ProgramView, ParseError>(e),
        },
{
    let lines = split_lines(s);
    let ghost linesv = lines@.map_values(|l: String| l@);
    let n = lines.len();
    let mut mode: Option<RunMode> = None;
    let mut policy: Option<FailurePolicy> = None;
    let mut nodes: Vec<Node> = Vec::new();
    let mut k: usize = 0;
    proof {
        assert(nodes@.map_values(|nd: Node| nd@) =~= Seq::<NodeView>::empty());
        assert(BuildState { mode: mode, policy: policy, nodes: nodes@.map_values(|nd: Node| nd@) }
            == init_state());
    }
    while k < n
        invariant
            n == lines@.len(),
            k <= n,
            linesv == lines@.map_values(|l: String| l@),
            linesv == script_lines(s@),
            nodes@.len() <= MAX_NODES,
            forall|i: int|
                0 <= i < nodes@.len() ==> (#[trigger] nodes@[i])@.duration_ms <= MAX_DURATION_MS,
            forall|i: int, x: int, y: int|
                0 <= i < nodes@.len() && 0 <= x < y < nodes@[i]@.deps.len()
                    ==> nodes@[i]@.deps[x] != nodes@[i]@.deps[y],
            spec_parse_from(linesv, 0, init_state()) == spec_parse_from(
                linesv,
                k as int,
                BuildState {
                    mode: mode,
                    policy: policy,
                    nodes: nodes@.map_values(|nd: Node| nd@),
                },
            ),
        decreases n - k,
    {
        let item = classify(lines[k].as_str());
        match item {
            LineItem::Blank => {
            },
            LineItem::ModeLine(m) => {
                if mode.is_some() {
                    return Err(ParseError::DuplicateDirective { line: k + 1 });
                }
                mode = Some(m);
            },
            LineItem::PolicyLine(p) => {
                if policy.is_some() {
                    return Err(ParseError::DuplicateDirective { line: k + 1 });
                }
                policy = Some(p);
            },
            LineItem::Decl(node) => {
                if nodes.len() >= MAX_NODES {
                    return Err(ParseError::ProgramTooLarge { line: k + 1 });
                }
                let ghost oldnodes = nodes@.map_values(|nd: Node| nd@);
                nodes.push(node);
                proof {
                    assert(nodes@.map_values(|nd: Node| nd@) =~= oldnodes.push(nodes@.last()@));
                }
            },
            LineItem::Bad(kind) => {
                return Err(match kind {
                    ErrKind::UnknownDirective => ParseError::UnknownDirective { line: k + 1 },
                    ErrKind::MalformedNode => ParseError::MalformedNode { line: k + 1 },
                    ErrKind::MalformedDependency => ParseError::MalformedDependency { line: k + 1 },
                });
            },
        }
        k = k + 1;
    }
    let out_mode = match mode {
        Some(m) => m,
        None => RunMode::Sequential,
    };
    let out_policy = match policy {
        Some(p) => p,
        None => FailurePolicy::FailFast,
    };
    let p = Program { mode: out_mode, policy: out_policy, nodes: nodes };
    proof {
        assert(p@.nodes =~= p.nodes@.map_values(|nd: Node| nd@));
    }
    Ok(p)
}

} // verus!
