//! Partition and node records: the typed form of one line of the
//! partition/node status command's output, and the tolerant parser that
//! builds them.

use vstd::prelude::*;
use vstd::string::*;
use crate::text::{
    spec_lower, spec_upper, lemma_lower_fold, eq_fold_lower, spec_tokens, spec_lines, split_lines,
    tokenize,
};
use crate::numbers::{spec_u32_field, parse_u32, spec_float_field, parse_float_field};

verus! {

// ---------------------------------------------------------------------------
// Field enums and their classifiers
// ---------------------------------------------------------------------------

/// Whether a partition accepts work.
#[derive(Debug, PartialEq, Eq, Structural, Clone, Copy)]
pub enum PartitionAvailability {
    /// The partition is up and available.
    Up,
    /// The partition is not available.
    Down,
}

/// Why a partition or node is out of service.
#[derive(Debug, PartialEq, Eq, Structural, Clone, Copy)]
pub enum ErrorCause {
    Down,
    Drained,
    Draining,
    NoError,
    /// An unrecognized cause.
    Unknown,
}

/// The state of an individual node.
#[derive(Debug, PartialEq, Eq, Structural, Clone, Copy)]
pub enum NodeState {
    Allocated,
    Completing,
    Down,
    Drained,
    Draining,
    Fail,
    Failing,
    Idle,
    Maint,
    /// An unrecognized state.
    Unknown,
}

/// Availability of a partition: `up` in any case is up; anything else,
/// an unrecognized token included, is treated as down.
pub open spec fn spec_availability_of(s: Seq<char>) -> PartitionAvailability {
    if spec_lower(s) == ("up")@ {
        PartitionAvailability::Up
    } else {
        PartitionAvailability::Down
    }
}

pub fn str_to_availability(avail: &str) -> (r: PartitionAvailability)
    ensures
        r == spec_availability_of(avail@),
{
    if eq_fold_lower(avail, "up") {
        PartitionAvailability::Up
    } else {
        PartitionAvailability::Down
    }
}

/// Cause of a partition or node error, matched case-insensitively;
/// unrecognized tokens map to the fallback cause.
pub open spec fn spec_error_of(s: Seq<char>) -> ErrorCause {
    let l = spec_lower(s);
    if l == ("down")@ {
        ErrorCause::Down
    } else if l == ("drained")@ {
        ErrorCause::Drained
    } else if l == ("draining")@ {
        ErrorCause::Draining
    } else if l == ("none")@ {
        ErrorCause::NoError
    } else {
        ErrorCause::Unknown
    }
}

pub fn str_to_error(error: &str) -> (r: ErrorCause)
    ensures
        r == spec_error_of(error@),
{
    if eq_fold_lower(error, "down") {
        ErrorCause::Down
    } else if eq_fold_lower(error, "drained") {
        ErrorCause::Drained
    } else if eq_fold_lower(error, "draining") {
        ErrorCause::Draining
    } else if eq_fold_lower(error, "none") {
        ErrorCause::NoError
    } else {
        ErrorCause::Unknown
    }
}

/// State of a node, matched case-insensitively; unrecognized tokens map
/// to the fallback state.
pub open spec fn spec_node_state_of(s: Seq<char>) -> NodeState {
    let l = spec_lower(s);
    if l == ("alloc")@ || l == ("allocated")@ {
        NodeState::Allocated
    } else if l == ("completing")@ {
        NodeState::Completing
    } else if l == ("down")@ {
        NodeState::Down
    } else if l == ("drained")@ {
        NodeState::Drained
    } else if l == ("draining")@ {
        NodeState::Draining
    } else if l == ("fail")@ {
        NodeState::Fail
    } else if l == ("failing")@ {
        NodeState::Failing
    } else if l == ("idle")@ {
        NodeState::Idle
    } else if l == ("maint")@ {
        NodeState::Maint
    } else {
        NodeState::Unknown
    }
}

pub fn str_to_node_state(n_state: &str) -> (r: NodeState)
    ensures
        r == spec_node_state_of(n_state@),
{
    if eq_fold_lower(n_state, "alloc") || eq_fold_lower(n_state, "allocated") {
        NodeState::Allocated
    } else if eq_fold_lower(n_state, "completing") {
        NodeState::Completing
    } else if eq_fold_lower(n_state, "down") {
        NodeState::Down
    } else if eq_fold_lower(n_state, "drained") {
        NodeState::Drained
    } else if eq_fold_lower(n_state, "draining") {
        NodeState::Draining
    } else if eq_fold_lower(n_state, "fail") {
        NodeState::Fail
    } else if eq_fold_lower(n_state, "failing") {
        NodeState::Failing
    } else if eq_fold_lower(n_state, "idle") {
        NodeState::Idle
    } else if eq_fold_lower(n_state, "maint") {
        NodeState::Maint
    } else {
        NodeState::Unknown
    }
}

// ---------------------------------------------------------------------------
// Case-insensitivity of the classifiers
// ---------------------------------------------------------------------------

/// Availability classification is case-insensitive: folding the token to
/// either case first does not change the result.
pub proof fn lemma_availability_case_insensitive(s: Seq<char>)
    ensures
        spec_availability_of(spec_lower(s)) == spec_availability_of(s),
        spec_availability_of(spec_upper(s)) == spec_availability_of(s),
{
    lemma_lower_fold(s);
}

/// Error-cause classification is case-insensitive.
pub proof fn lemma_error_case_insensitive(s: Seq<char>)
    ensures
        spec_error_of(spec_lower(s)) == spec_error_of(s),
        spec_error_of(spec_upper(s)) == spec_error_of(s),
{
    lemma_lower_fold(s);
}

/// Node-state classification is case-insensitive.
pub proof fn lemma_node_state_case_insensitive(s: Seq<char>)
    ensures
        spec_node_state_of(spec_lower(s)) == spec_node_state_of(s),
        spec_node_state_of(spec_upper(s)) == spec_node_state_of(s),
{
    lemma_lower_fold(s);
}

// ---------------------------------------------------------------------------
// The record and its parser
// ---------------------------------------------------------------------------

/// Partition and node information from one line of command output.
/// Optional fields hold the value read from the line's token, or are
/// absent where the token is a placeholder; the CPU load is carried as
/// the text of its floating-point token.
#[derive(Debug, PartialEq)]
pub struct PartitionNodeInfo {
    pub partition: String,
    pub availability: PartitionAvailability,
    pub hostname: String,
    pub node: String,
    pub error: ErrorCause,
    pub cpu_load: Option<String>,
    pub node_state: NodeState,
    pub node_sockets: Option<u32>,
    pub node_cores: Option<u32>,
    pub node_threads: Option<u32>,
}

/// The mathematical model of a partition/node record.
#[verifier::ext_equal]
pub ghost struct PartitionNodeView {
    pub partition: Seq<char>,
    pub availability: PartitionAvailability,
    pub hostname: Seq<char>,
    pub node: Seq<char>,
    pub error: ErrorCause,
    pub cpu_load: Option<Seq<char>>,
    pub node_state: NodeState,
    pub node_sockets: Option<u32>,
    pub node_cores: Option<u32>,
    pub node_threads: Option<u32>,
}

impl DeepView for PartitionNodeInfo {
    type V = PartitionNodeView;

    open spec fn deep_view(&self) -> PartitionNodeView {
        PartitionNodeView {
            partition: self.partition@,
            availability: self.availability,
            hostname: self.hostname@,
            node: self.node@,
            error: self.error,
            cpu_load: self.cpu_load.deep_view(),
            node_state: self.node_state,
            node_sockets: self.node_sockets,
            node_cores: self.node_cores,
            node_threads: self.node_threads,
        }
    }
}

/// The number of tokens a partition/node line must hold.
pub open spec fn pn_arity() -> int {
    10
}

/// The record read from the ten tokens of a well-formed line, each token
/// mapped positionally to its field.
pub open spec fn spec_pn_of_tokens(t: Seq<Seq<char>>) -> PartitionNodeView
    recommends
        t.len() == pn_arity(),
{
    PartitionNodeView {
        partition: t[0],
        availability: spec_availability_of(t[1]),
        hostname: t[2],
        node: t[3],
        error: spec_error_of(t[4]),
        cpu_load: spec_float_field(t[5]),
        node_state: spec_node_state_of(t[6]),
        node_sockets: spec_u32_field(t[7]),
        node_cores: spec_u32_field(t[8]),
        node_threads: spec_u32_field(t[9]),
    }
}

/// The records one line contributes: exactly one when its token count is
/// the expected arity, none otherwise.
pub open spec fn spec_pn_of_line(l: Seq<char>) -> Seq<PartitionNodeView> {
    let t = spec_tokens(l);
    if t.len() == pn_arity() {
        seq![spec_pn_of_tokens(t)]
    } else {
        Seq::empty()
    }
}

pub open spec fn spec_pn_of_lines(ls: Seq<Seq<char>>) -> Seq<PartitionNodeView>
    decreases ls.len(),
{
    if ls.len() == 0 {
        Seq::empty()
    } else {
        spec_pn_of_line(ls[0]) + spec_pn_of_lines(ls.drop_first())
    }
}

/// The partition/node records of a whole command output.
pub open spec fn spec_pn_parse(s: Seq<char>) -> Seq<PartitionNodeView> {
    spec_pn_of_lines(spec_lines(s))
}

proof fn lemma_pn_of_lines_push(ls: Seq<Seq<char>>, x: Seq<char>)
    ensures
        spec_pn_of_lines(ls.push(x)) == spec_pn_of_lines(ls) + spec_pn_of_line(x),
    decreases ls.len(),
{
    if ls.len() == 0 {
        assert(ls.push(x)[0] == x);
        assert(ls.push(x).drop_first() =~= Seq::<Seq<char>>::empty());
        assert(spec_pn_of_lines(Seq::<Seq<char>>::empty()) == Seq::<PartitionNodeView>::empty());
        assert(spec_pn_of_lines(ls.push(x)) == spec_pn_of_line(x) + Seq::<
            PartitionNodeView,
        >::empty());
        assert(spec_pn_of_lines(ls.push(x)) =~= spec_pn_of_lines(ls) + spec_pn_of_line(x));
    } else {
        assert(ls.push(x)[0] == ls[0]);
        assert(ls.push(x).drop_first() =~= ls.drop_first().push(x));
        lemma_pn_of_lines_push(ls.drop_first(), x);
        assert(spec_pn_of_lines(ls.push(x)) == spec_pn_of_line(ls[0]) + (spec_pn_of_lines(
            ls.drop_first(),
        ) + spec_pn_of_line(x)));
        assert(spec_pn_of_lines(ls.push(x)) =~= spec_pn_of_lines(ls) + spec_pn_of_line(x));
    }
}

proof fn lemma_pn_of_lines_take_succ(ls: Seq<Seq<char>>, i: int)
    requires
        0 <= i < ls.len(),
    ensures
        spec_pn_of_lines(ls.take(i + 1)) == spec_pn_of_lines(ls.take(i)) + spec_pn_of_line(ls[i]),
{
    assert(ls.take(i + 1) =~= ls.take(i).push(ls[i]));
    lemma_pn_of_lines_push(ls.take(i), ls[i]);
}

/// A line with exactly the expected token arity contributes exactly one
/// record, its fields in positional correspondence to the tokens; a line
/// of any other arity contributes no record.
pub proof fn lemma_pn_line_arity(l: Seq<char>)
    ensures
        spec_tokens(l).len() == pn_arity() ==> spec_pn_of_line(l) == seq![
            spec_pn_of_tokens(spec_tokens(l)),
        ],
        spec_tokens(l).len() != pn_arity() ==> spec_pn_of_line(l) == Seq::<
            PartitionNodeView,
        >::empty(),
{
}

/// Empty command output yields no partition/node records.
pub proof fn lemma_pn_empty_output()
    ensures
        spec_pn_parse(Seq::<char>::empty()) == Seq::<PartitionNodeView>::empty(),
{
    assert(spec_lines(Seq::<char>::empty()) == Seq::<Seq<char>>::empty());
    assert(spec_pn_of_lines(Seq::<Seq<char>>::empty()) == Seq::<PartitionNodeView>::empty());
}

/// Parses the partition/node command's output: one record per line with
/// the expected arity; any other line contributes nothing; empty output
/// yields no records.
pub fn get_pn_info_util(sinfo_output: &str) -> (r: Vec<PartitionNodeInfo>)
    ensures
        r.deep_view() == spec_pn_parse(sinfo_output@),
{
    let lines = split_lines(sinfo_output);
    let ghost ls = spec_lines(sinfo_output@);
    let mut result: Vec<PartitionNodeInfo> = Vec::new();
    let mut i: usize = 0;
    while i < lines.len()
        invariant
            i <= lines.len(),
            lines.deep_view() == ls,
            ls == spec_lines(sinfo_output@),
            result.deep_view() == spec_pn_of_lines(ls.take(i as int)),
        decreases lines.len() - i,
    {
        let ghost prev = result.deep_view();
        let items = tokenize(lines[i].as_str());
        proof {
            assert(lines[i as int].deep_view() == ls[i as int]);
        }
        if items.len() == 10 {
            let rec = PartitionNodeInfo {
                partition: items[0].clone(),
                availability: str_to_availability(items[1].as_str()),
                hostname: items[2].clone(),
                node: items[3].clone(),
                error: str_to_error(items[4].as_str()),
                cpu_load: parse_float_field(items[5].as_str()),
                node_state: str_to_node_state(items[6].as_str()),
                node_sockets: parse_u32(items[7].as_str()),
                node_cores: parse_u32(items[8].as_str()),
                node_threads: parse_u32(items[9].as_str()),
            };
            proof {
                assert(rec.deep_view() =~= spec_pn_of_tokens(spec_tokens(ls[i as int])));
            }
            result.push(rec);
            proof {
                assert(result.deep_view() =~= prev + spec_pn_of_line(ls[i as int]));
            }
        } else {
            proof {
                assert(result.deep_view() =~= prev + spec_pn_of_line(ls[i as int]));
            }
        }
        proof {
            lemma_pn_of_lines_take_succ(ls, i as int);
        }
        i += 1;
    }
    proof {
        assert(ls.take(ls.len() as int) =~= ls);
    }
    result
}

// ---------------------------------------------------------------------------
// Fixture data
// ---------------------------------------------------------------------------

/// The fixture text that stands in for live command output in test mode.
pub open spec fn spec_pn_fixture() -> Seq<char> {
    ("
        esd up node01 node01 none 0.22 idle 2 2 2
        esd up node02 node02 none 0.0 idle 2 8 2
        esd down node03 node03 down - - - - -
        esd up node04 node04 none 0.71 idle 1 1 1
        esd up node05 node05 none 0.0 alloc 1 1 1
        esd up node06 node06 none 0.0 completing 1 1 1
        esd up node07 node07 none 0.0 drained 1 1 1
        esd up node08 node08 none 0.0 draining 1 1 1
        esd up node09 node09 none 0.0 fail 1 1 1
        esd up node10 node10 none 0.0 failing 1 1 1
        esd up node11 node11 none 0.0 maint 1 1 1
        esd up node12 node12 none 0.0 unknown 1 1 1
    ")@
}

/// Builds the partition/node records of the fixture data.
pub fn get_partition_node_info_test() -> (r: Vec<PartitionNodeInfo>)
    ensures
        r.deep_view() == spec_pn_parse(spec_pn_fixture()),
{
    let test_data = "
        esd up node01 node01 none 0.22 idle 2 2 2
        esd up node02 node02 none 0.0 idle 2 8 2
        esd down node03 node03 down - - - - -
        esd up node04 node04 none 0.71 idle 1 1 1
        esd up node05 node05 none 0.0 alloc 1 1 1
        esd up node06 node06 none 0.0 completing 1 1 1
        esd up node07 node07 none 0.0 drained 1 1 1
        esd up node08 node08 none 0.0 draining 1 1 1
        esd up node09 node09 none 0.0 fail 1 1 1
        esd up node10 node10 none 0.0 failing 1 1 1
        esd up node11 node11 none 0.0 maint 1 1 1
        esd up node12 node12 none 0.0 unknown 1 1 1
    ";

    get_pn_info_util(test_data)
}

} // verus!
