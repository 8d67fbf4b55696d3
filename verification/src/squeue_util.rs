//! Job records: the typed form of one line of the job status command's
//! output, and the tolerant parser that builds them.

use vstd::prelude::*;
use vstd::string::*;
use crate::text::{
    spec_lower, spec_upper, lemma_lower_fold, eq_fold_lower, spec_tokens, spec_lines, split_lines,
    tokenize, find_char, lemma_find_char, lemma_find_char_unique,
};
use crate::numbers::{spec_u32_field, parse_u32, spec_float_field, parse_float_field};

verus! {

// ---------------------------------------------------------------------------
// Field enums and their classifiers
// ---------------------------------------------------------------------------

/// Why a job is in its current state.
#[derive(Debug, PartialEq, Eq, Structural, Clone, Copy)]
pub enum StateReason {
    Dependency,
    NoReason,
    PartitionDown,
    PartitionNodeLimit,
    PartitionTimeLimit,
    Priority,
    Resources,
    NodeDown,
    BadConstraints,
    SystemFailure,
    JobLaunchFailure,
    NonZeroExitCode,
    TimeLimit,
    InactiveLimit,
    /// An unrecognized reason.
    Unknown,
}

/// The state a job is in.
#[derive(Debug, PartialEq, Eq, Structural, Clone, Copy)]
pub enum JobState {
    Cancelled,
    Completed,
    Configuring,
    Completing,
    Failed,
    NodeFail,
    Pending,
    Preempted,
    Running,
    Suspended,
    Timeout,
    /// An unrecognized state.
    Unknown,
}

/// Reason of a job's state, matched case-insensitively; unrecognized
/// tokens map to the fallback reason.
pub open spec fn spec_state_reason_of(s: Seq<char>) -> StateReason {
    let l = spec_lower(s);
    if l == ("dependency")@ {
        StateReason::Dependency
    } else if l == ("none")@ {
        StateReason::NoReason
    } else if l == ("partitiondown")@ {
        StateReason::PartitionDown
    } else if l == ("partitionnodelimit")@ {
        StateReason::PartitionNodeLimit
    } else if l == ("partitiontimelimit")@ {
        StateReason::PartitionTimeLimit
    } else if l == ("priority")@ {
        StateReason::Priority
    } else if l == ("resources")@ {
        StateReason::Resources
    } else if l == ("nodedown")@ {
        StateReason::NodeDown
    } else if l == ("badconstraints")@ {
        StateReason::BadConstraints
    } else if l == ("systemfailure")@ {
        StateReason::SystemFailure
    } else if l == ("joblaunchfailure")@ {
        StateReason::JobLaunchFailure
    } else if l == ("nonzeroexitcode")@ {
        StateReason::NonZeroExitCode
    } else if l == ("timelimit")@ {
        StateReason::TimeLimit
    } else if l == ("inactivelimit")@ {
        StateReason::InactiveLimit
    } else {
        StateReason::Unknown
    }
}

pub fn str_to_state_reason(reason: &str) -> (r: StateReason)
    ensures
        r == spec_state_reason_of(reason@),
{
    if eq_fold_lower(reason, "dependency") {
        StateReason::Dependency
    } else if eq_fold_lower(reason, "none") {
        StateReason::NoReason
    } else if eq_fold_lower(reason, "partitiondown") {
        StateReason::PartitionDown
    } else if eq_fold_lower(reason, "partitionnodelimit") {
        StateReason::PartitionNodeLimit
    } else if eq_fold_lower(reason, "partitiontimelimit") {
        StateReason::PartitionTimeLimit
    } else if eq_fold_lower(reason, "priority") {
        StateReason::Priority
    } else if eq_fold_lower(reason, "resources") {
        StateReason::Resources
    } else if eq_fold_lower(reason, "nodedown") {
        StateReason::NodeDown
    } else if eq_fold_lower(reason, "badconstraints") {
        StateReason::BadConstraints
    } else if eq_fold_lower(reason, "systemfailure") {
        StateReason::SystemFailure
    } else if eq_fold_lower(reason, "joblaunchfailure") {
        StateReason::JobLaunchFailure
    } else if eq_fold_lower(reason, "nonzeroexitcode") {
        StateReason::NonZeroExitCode
    } else if eq_fold_lower(reason, "timelimit") {
        StateReason::TimeLimit
    } else if eq_fold_lower(reason, "inactivelimit") {
        StateReason::InactiveLimit
    } else {
        StateReason::Unknown
    }
}

/// State of a job, matched case-insensitively; unrecognized tokens map
/// to the fallback state.
pub open spec fn spec_job_state_of(s: Seq<char>) -> JobState {
    let l = spec_lower(s);
    if l == ("cancelled")@ {
        JobState::Cancelled
    } else if l == ("completed")@ {
        JobState::Completed
    } else if l == ("configuring")@ {
        JobState::Configuring
    } else if l == ("completing")@ {
        JobState::Completing
    } else if l == ("failed")@ {
        JobState::Failed
    } else if l == ("node_fail")@ {
        JobState::NodeFail
    } else if l == ("pending")@ {
        JobState::Pending
    } else if l == ("preempted")@ {
        JobState::Preempted
    } else if l == ("running")@ {
        JobState::Running
    } else if l == ("suspended")@ {
        JobState::Suspended
    } else if l == ("timeout")@ {
        JobState::Timeout
    } else {
        JobState::Unknown
    }
}

pub fn str_to_job_state(state: &str) -> (r: JobState)
    ensures
        r == spec_job_state_of(state@),
{
    if eq_fold_lower(state, "cancelled") {
        JobState::Cancelled
    } else if eq_fold_lower(state, "completed") {
        JobState::Completed
    } else if eq_fold_lower(state, "configuring") {
        JobState::Configuring
    } else if eq_fold_lower(state, "completing") {
        JobState::Completing
    } else if eq_fold_lower(state, "failed") {
        JobState::Failed
    } else if eq_fold_lower(state, "node_fail") {
        JobState::NodeFail
    } else if eq_fold_lower(state, "pending") {
        JobState::Pending
    } else if eq_fold_lower(state, "preempted") {
        JobState::Preempted
    } else if eq_fold_lower(state, "running") {
        JobState::Running
    } else if eq_fold_lower(state, "suspended") {
        JobState::Suspended
    } else if eq_fold_lower(state, "timeout") {
        JobState::Timeout
    } else {
        JobState::Unknown
    }
}

/// State-reason classification is case-insensitive.
pub proof fn lemma_state_reason_case_insensitive(s: Seq<char>)
    ensures
        spec_state_reason_of(spec_lower(s)) == spec_state_reason_of(s),
        spec_state_reason_of(spec_upper(s)) == spec_state_reason_of(s),
{
    lemma_lower_fold(s);
}

/// Job-state classification is case-insensitive.
pub proof fn lemma_job_state_case_insensitive(s: Seq<char>)
    ensures
        spec_job_state_of(spec_lower(s)) == spec_job_state_of(s),
        spec_job_state_of(spec_upper(s)) == spec_job_state_of(s),
{
    lemma_lower_fold(s);
}

// ---------------------------------------------------------------------------
// The list of allocated nodes
// ---------------------------------------------------------------------------

/// The comma-separated pieces of `s` from position `i` on; an empty
/// piece stands between adjacent commas and at a leading or trailing
/// comma.
pub open spec fn spec_comma_split_from(s: Seq<char>, i: int) -> Seq<Seq<char>>
    decreases s.len() - i,
        when 0 <= i <= s.len()
        via spec_comma_split_from_decreases
{
    let j = find_char(s, ',', i);
    if j == s.len() {
        seq![s.subrange(i, j)]
    } else {
        seq![s.subrange(i, j)] + spec_comma_split_from(s, j + 1)
    }
}

#[via_fn]
proof fn spec_comma_split_from_decreases(s: Seq<char>, i: int) {
    if 0 <= i <= s.len() {
        lemma_find_char(s, ',', i);
    }
}

/// The list of nodes a job runs on: empty for an empty token, otherwise
/// the comma-separated names in order.
pub open spec fn spec_list_of_nodes(s: Seq<char>) -> Seq<Seq<char>> {
    if s.len() == 0 {
        Seq::empty()
    } else {
        spec_comma_split_from(s, 0)
    }
}

/// Splits the list-of-nodes token on commas; an empty token yields an
/// empty list.
pub fn str_to_list_of_nodes(nodes: &str) -> (r: Vec<String>)
    ensures
        r.deep_view() == spec_list_of_nodes(nodes@),
{
    let n: usize = nodes.unicode_len();
    let mut r: Vec<String> = Vec::new();
    if n == 0 {
        proof {
            assert(r.deep_view() =~= spec_list_of_nodes(nodes@));
        }
        return r;
    }
    let mut i: usize = 0;
    loop
        invariant_except_break
            n == nodes@.len(),
            i <= n,
            r.deep_view() + spec_comma_split_from(nodes@, i as int) == spec_comma_split_from(
                nodes@,
                0,
            ),
        ensures
            r.deep_view() == spec_comma_split_from(nodes@, 0),
        decreases n - i,
    {
        let ghost prev = r.deep_view();
        let mut j: usize = i;
        while j < n && nodes.get_char(j) != ','
            invariant
                n == nodes@.len(),
                i <= j <= n,
                forall|k: int| i <= k < j ==> nodes@[k] != ',',
            decreases n - j,
        {
            j += 1;
        }
        proof {
            lemma_find_char_unique(nodes@, ',', i as int, j as int);
        }
        let piece = nodes.substring_char(i, j);
        r.push(piece.to_owned());
        proof {
            assert(r.deep_view() =~= prev.push(piece@));
        }
        if j == n {
            proof {
                assert(spec_comma_split_from(nodes@, i as int) =~= seq![piece@]);
                assert(r.deep_view() =~= spec_comma_split_from(nodes@, 0));
            }
            break;
        }
        proof {
            assert(spec_comma_split_from(nodes@, i as int) =~= seq![piece@]
                + spec_comma_split_from(nodes@, j + 1));
            assert(r.deep_view() + spec_comma_split_from(nodes@, j + 1) =~= spec_comma_split_from(
                nodes@,
                0,
            ));
        }
        i = j + 1;
    }
    r
}

// ---------------------------------------------------------------------------
// The record and its parser
// ---------------------------------------------------------------------------

/// Job information from one line of command output.  Optional fields
/// hold the value read from the line's token, or are absent where the
/// token is a placeholder; the priority is carried as the text of its
/// floating-point token.
#[derive(Debug, PartialEq)]
pub struct JobInfo {
    pub executing_host: String,
    pub minimum_cpu: Option<u32>,
    pub num_cpu: Option<u32>,
    pub num_nodes: Option<u32>,
    pub job_array_id: Option<u32>,
    pub num_sockets: Option<u32>,
    pub job_id: Option<u32>,
    pub num_cores: Option<u32>,
    pub job_name: String,
    pub num_threads: Option<u32>,
    pub job_array_index: Option<u32>,
    pub run_time: String,
    pub list_of_nodes: Vec<String>,
    pub priority: Option<String>,
    pub state_reason: StateReason,
    pub start_time: String,
    pub job_state: JobState,
    pub user_name: String,
    pub user_id: Option<u32>,
}

/// The mathematical model of a job record.
#[verifier::ext_equal]
pub ghost struct JobInfoView {
    pub executing_host: Seq<char>,
    pub minimum_cpu: Option<u32>,
    pub num_cpu: Option<u32>,
    pub num_nodes: Option<u32>,
    pub job_array_id: Option<u32>,
    pub num_sockets: Option<u32>,
    pub job_id: Option<u32>,
    pub num_cores: Option<u32>,
    pub job_name: Seq<char>,
    pub num_threads: Option<u32>,
    pub job_array_index: Option<u32>,
    pub run_time: Seq<char>,
    pub list_of_nodes: Seq<Seq<char>>,
    pub priority: Option<Seq<char>>,
    pub state_reason: StateReason,
    pub start_time: Seq<char>,
    pub job_state: JobState,
    pub user_name: Seq<char>,
    pub user_id: Option<u32>,
}

impl DeepView for JobInfo {
    type V = JobInfoView;

    open spec fn deep_view(&self) -> JobInfoView {
        JobInfoView {
            executing_host: self.executing_host@,
            minimum_cpu: self.minimum_cpu,
            num_cpu: self.num_cpu,
            num_nodes: self.num_nodes,
            job_array_id: self.job_array_id,
            num_sockets: self.num_sockets,
            job_id: self.job_id,
            num_cores: self.num_cores,
            job_name: self.job_name@,
            num_threads: self.num_threads,
            job_array_index: self.job_array_index,
            run_time: self.run_time@,
            list_of_nodes: self.list_of_nodes.deep_view(),
            priority: self.priority.deep_view(),
            state_reason: self.state_reason,
            start_time: self.start_time@,
            job_state: self.job_state,
            user_name: self.user_name@,
            user_id: self.user_id,
        }
    }
}

/// The number of tokens a job line must hold.
pub open spec fn job_arity() -> int {
    19
}

/// The record read from the nineteen tokens of a well-formed line, each
/// token mapped positionally to its field.
pub open spec fn spec_job_of_tokens(t: Seq<Seq<char>>) -> JobInfoView
    recommends
        t.len() == job_arity(),
{
    JobInfoView {
        executing_host: t[0],
        minimum_cpu: spec_u32_field(t[1]),
        num_cpu: spec_u32_field(t[2]),
        num_nodes: spec_u32_field(t[3]),
        job_array_id: spec_u32_field(t[4]),
        num_sockets: spec_u32_field(t[5]),
        job_id: spec_u32_field(t[6]),
        num_cores: spec_u32_field(t[7]),
        job_name: t[8],
        num_threads: spec_u32_field(t[9]),
        job_array_index: spec_u32_field(t[10]),
        run_time: t[11],
        list_of_nodes: spec_list_of_nodes(t[12]),
        priority: spec_float_field(t[13]),
        state_reason: spec_state_reason_of(t[14]),
        start_time: t[15],
        job_state: spec_job_state_of(t[16]),
        user_name: t[17],
        user_id: spec_u32_field(t[18]),
    }
}

/// The records one line contributes: exactly one when its token count is
/// the expected arity, none otherwise.
pub open spec fn spec_job_of_line(l: Seq<char>) -> Seq<JobInfoView> {
    let t = spec_tokens(l);
    if t.len() == job_arity() {
        seq![spec_job_of_tokens(t)]
    } else {
        Seq::empty()
    }
}

pub open spec fn spec_job_of_lines(ls: Seq<Seq<char>>) -> Seq<JobInfoView>
    decreases ls.len(),
{
    if ls.len() == 0 {
        Seq::empty()
    } else {
        spec_job_of_line(ls[0]) + spec_job_of_lines(ls.drop_first())
    }
}

/// The job records of a whole command output.
pub open spec fn spec_job_parse(s: Seq<char>) -> Seq<JobInfoView> {
    spec_job_of_lines(spec_lines(s))
}

proof fn lemma_job_of_lines_push(ls: Seq<Seq<char>>, x: Seq<char>)
    ensures
        spec_job_of_lines(ls.push(x)) == spec_job_of_lines(ls) + spec_job_of_line(x),
    decreases ls.len(),
{
    if ls.len() == 0 {
        assert(ls.push(x)[0] == x);
        assert(ls.push(x).drop_first() =~= Seq::<Seq<char>>::empty());
        assert(spec_job_of_lines(Seq::<Seq<char>>::empty()) == Seq::<JobInfoView>::empty());
        assert(spec_job_of_lines(ls.push(x)) == spec_job_of_line(x) + Seq::<JobInfoView>::empty());
        assert(spec_job_of_lines(ls.push(x)) =~= spec_job_of_lines(ls) + spec_job_of_line(x));
    } else {
        assert(ls.push(x)[0] == ls[0]);
        assert(ls.push(x).drop_first() =~= ls.drop_first().push(x));
        lemma_job_of_lines_push(ls.drop_first(), x);
        assert(spec_job_of_lines(ls.push(x)) == spec_job_of_line(ls[0]) + (spec_job_of_lines(
            ls.drop_first(),
        ) + spec_job_of_line(x)));
        assert(spec_job_of_lines(ls.push(x)) =~= spec_job_of_lines(ls) + spec_job_of_line(x));
    }
}

proof fn lemma_job_of_lines_take_succ(ls: Seq<Seq<char>>, i: int)
    requires
        0 <= i < ls.len(),
    ensures
        spec_job_of_lines(ls.take(i + 1)) == spec_job_of_lines(ls.take(i)) + spec_job_of_line(
            ls[i],
        ),
{
    assert(ls.take(i + 1) =~= ls.take(i).push(ls[i]));
    lemma_job_of_lines_push(ls.take(i), ls[i]);
}

/// A line with exactly the expected token arity contributes exactly one
/// record, its fields in positional correspondence to the tokens; a line
/// of any other arity contributes no record.
pub proof fn lemma_job_line_arity(l: Seq<char>)
    ensures
        spec_tokens(l).len() == job_arity() ==> spec_job_of_line(l) == seq![
            spec_job_of_tokens(spec_tokens(l)),
        ],
        spec_tokens(l).len() != job_arity() ==> spec_job_of_line(l) == Seq::<JobInfoView>::empty(),
{
}

/// Empty command output yields no job records.
pub proof fn lemma_job_empty_output()
    ensures
        spec_job_parse(Seq::<char>::empty()) == Seq::<JobInfoView>::empty(),
{
    assert(spec_lines(Seq::<char>::empty()) == Seq::<Seq<char>>::empty());
    assert(spec_job_of_lines(Seq::<Seq<char>>::empty()) == Seq::<JobInfoView>::empty());
}

/// Parses the job command's output: one record per line with the
/// expected arity; any other line contributes nothing; empty output
/// yields no records.
pub fn get_job_info_util(squeue_output: &str) -> (r: Vec<JobInfo>)
    ensures
        r.deep_view() == spec_job_parse(squeue_output@),
{
    let lines = split_lines(squeue_output);
    let ghost ls = spec_lines(squeue_output@);
    let mut result: Vec<JobInfo> = Vec::new();
    let mut i: usize = 0;
    while i < lines.len()
        invariant
            i <= lines.len(),
            lines.deep_view() == ls,
            ls == spec_lines(squeue_output@),
            result.deep_view() == spec_job_of_lines(ls.take(i as int)),
        decreases lines.len() - i,
    {
        let ghost prev = result.deep_view();
        let items = tokenize(lines[i].as_str());
        proof {
            assert(lines[i as int].deep_view() == ls[i as int]);
        }
        if items.len() == 19 {
            let rec = JobInfo {
                executing_host: items[0].clone(),
                minimum_cpu: parse_u32(items[1].as_str()),
                num_cpu: parse_u32(items[2].as_str()),
                num_nodes: parse_u32(items[3].as_str()),
                job_array_id: parse_u32(items[4].as_str()),
                num_sockets: parse_u32(items[5].as_str()),
                job_id: parse_u32(items[6].as_str()),
                num_cores: parse_u32(items[7].as_str()),
                job_name: items[8].clone(),
                num_threads: parse_u32(items[9].as_str()),
                job_array_index: parse_u32(items[10].as_str()),
                run_time: items[11].clone(),
                list_of_nodes: str_to_list_of_nodes(items[12].as_str()),
                priority: parse_float_field(items[13].as_str()),
                state_reason: str_to_state_reason(items[14].as_str()),
                start_time: items[15].clone(),
                job_state: str_to_job_state(items[16].as_str()),
                user_name: items[17].clone(),
                user_id: parse_u32(items[18].as_str()),
            };
            proof {
                assert(rec.deep_view() =~= spec_job_of_tokens(spec_tokens(ls[i as int])));
            }
            result.push(rec);
            proof {
                assert(result.deep_view() =~= prev + spec_job_of_line(ls[i as int]));
            }
        } else {
            proof {
                assert(result.deep_view() =~= prev + spec_job_of_line(ls[i as int]));
            }
        }
        proof {
            lemma_job_of_lines_take_succ(ls, i as int);
        }
        i += 1;
    }
    proof {
        assert(ls.take(ls.len() as int) =~= ls);
    }
    result
}

// ---------------------------------------------------------------------------
// Fixture data
// ---------------------------------------------------------------------------

/// The fixture text that stands in for live command output in test mode.
pub open spec fn spec_job_fixture() -> Seq<char> {
    ("
        node01 1 2 1 N/A * 1 * small_test01 * N/A 1:00 node01 0.9 None 2000-01-01T09:00:00 RUNNING user01 1000
        node01 1 2 2 N/A * 2 * small_test02 * N/A 1:15 node01,node02 0.9 None 2000-01-01T09:00:00 cancelled user02 1001
        node01 1 2 4 N/A * 3 * small_test03 * N/A 2:00 node01 0.1 None 2000-01-01T09:00:00 completed user03 1002
        node02 1 2 1 N/A * 4 * small_test04 * N/A 2:00 node01 0.2 None 2000-01-01T09:00:00 configuring user04 1003
        node03 1 2 1 N/A * 5 * small_test05 * N/A 2:46 node01 0.9 None 2000-01-01T09:00:00 Completing user05 1004
        node04 1 2 6 N/A * 6 * small_test06 * N/A 3:12 node03,node04,node05 0.9 None 2000-01-01T09:00:00 FAILED user05 1004
        node05 1 2 1 N/A * 7 * small_test07 * N/A 4:02 node01 0.9 None 2000-01-01T09:00:00 nodefail user01 1000
        node06 1 2 1 N/A * 8 * small_test08 * N/A 5:00 node01 0.9 None 2000-01-01T09:00:00 Pending user02 1001
        node07 1 2 2 N/A * 9 * small_test09 * N/A 1:00 node01 0.5 None 2000-01-01T09:00:00 preempted user02 1001
        node08 1 2 2 N/A * 10 * small_test10 * N/A 2:01 node01 0.6 None 2000-01-01T09:00:00 suspended user03 1002
        node08 1 2 10 N/A * 11 * small_test11 * N/A 2:06 node01 0.9 None 2000-01-01T09:00:00 timeout user04 1003
        node08 1 2 6 N/A * 12 * small_test12 * N/A 4:09 node01 0.2 None 2000-01-01T09:00:00 UNKNOWN user05 1004
    ")@
}

/// Builds the job records of the fixture data.
pub fn get_job_info_test() -> (r: Vec<JobInfo>)
    ensures
        r.deep_view() == spec_job_parse(spec_job_fixture()),
{
    let test_data = "
        node01 1 2 1 N/A * 1 * small_test01 * N/A 1:00 node01 0.9 None 2000-01-01T09:00:00 RUNNING user01 1000
        node01 1 2 2 N/A * 2 * small_test02 * N/A 1:15 node01,node02 0.9 None 2000-01-01T09:00:00 cancelled user02 1001
        node01 1 2 4 N/A * 3 * small_test03 * N/A 2:00 node01 0.1 None 2000-01-01T09:00:00 completed user03 1002
        node02 1 2 1 N/A * 4 * small_test04 * N/A 2:00 node01 0.2 None 2000-01-01T09:00:00 configuring user04 1003
        node03 1 2 1 N/A * 5 * small_test05 * N/A 2:46 node01 0.9 None 2000-01-01T09:00:00 Completing user05 1004
        node04 1 2 6 N/A * 6 * small_test06 * N/A 3:12 node03,node04,node05 0.9 None 2000-01-01T09:00:00 FAILED user05 1004
        node05 1 2 1 N/A * 7 * small_test07 * N/A 4:02 node01 0.9 None 2000-01-01T09:00:00 nodefail user01 1000
        node06 1 2 1 N/A * 8 * small_test08 * N/A 5:00 node01 0.9 None 2000-01-01T09:00:00 Pending user02 1001
        node07 1 2 2 N/A * 9 * small_test09 * N/A 1:00 node01 0.5 None 2000-01-01T09:00:00 preempted user02 1001
        node08 1 2 2 N/A * 10 * small_test10 * N/A 2:01 node01 0.6 None 2000-01-01T09:00:00 suspended user03 1002
        node08 1 2 10 N/A * 11 * small_test11 * N/A 2:06 node01 0.9 None 2000-01-01T09:00:00 timeout user04 1003
        node08 1 2 6 N/A * 12 * small_test12 * N/A 4:09 node01 0.2 None 2000-01-01T09:00:00 UNKNOWN user05 1004
    ";

    get_job_info_util(test_data)
}

} // verus!
