//! The combined status snapshot, the shared store that one writer
//! replaces and many readers consume, and the HTML rendering of a
//! snapshot.
//!
//! The store holds exactly one snapshot behind a reader/writer lock:
//! a reader borrows the whole snapshot for the duration of one
//! rendering pass, so the three snapshot fields it sees were always
//! written together by one polling cycle.

use vstd::prelude::*;
use vstd::string::*;
use vstd::rwlock::{RwLock, RwLockPredicate};
use crate::numbers::{spec_u32_str, u32_to_string, spec_pad2, pad2, spec_pad4, pad4};
use crate::sinfo_util::{
    PartitionNodeInfo, PartitionAvailability, ErrorCause, NodeState, spec_pn_parse,
    spec_pn_fixture, get_pn_info_util, get_partition_node_info_test,
};
use crate::squeue_util::{
    JobInfo, StateReason, JobState, spec_job_parse, spec_job_fixture, get_job_info_util,
    get_job_info_test,
};

verus! {

// ---------------------------------------------------------------------------
// The snapshot
// ---------------------------------------------------------------------------

/// One internally consistent set of status records: the partition/node
/// records and the job records of one polling cycle, with the time the
/// cycle ran.  A snapshot is only ever replaced wholesale, never
/// partially mutated.
#[derive(Debug)]
pub struct SlurmStatus {
    /// List of partition and node information.
    pub node_info: Vec<PartitionNodeInfo>,
    /// List of job information.
    pub job_info: Vec<JobInfo>,
    /// When the two lists were last updated, as `YYYY.MM.DD - HH:MM`,
    /// or empty before the first cycle.
    pub last_update: String,
}

/// A snapshot whose record lists are the parse of the given raw texts,
/// or of the fixture data in test mode.
pub open spec fn snapshot_of_texts(
    s: SlurmStatus,
    test_mode: bool,
    nodes_text: Seq<char>,
    jobs_text: Seq<char>,
) -> bool {
    &&& s.node_info.deep_view() == spec_pn_parse(
        if test_mode {
            spec_pn_fixture()
        } else {
            nodes_text
        },
    )
    &&& s.job_info.deep_view() == spec_job_parse(
        if test_mode {
            spec_job_fixture()
        } else {
            jobs_text
        },
    )
}

/// Builds the snapshot of one polling cycle: in test mode from the
/// fixture data, otherwise from the raw command output, stamped with
/// the given update time.  The result depends on nothing else, so equal
/// raw text yields equal records in every cycle.
pub fn build_snapshot(
    test_mode: bool,
    sinfo_text: &str,
    squeue_text: &str,
    last_update: String,
) -> (s: SlurmStatus)
    ensures
        snapshot_of_texts(s, test_mode, sinfo_text@, squeue_text@),
        s.last_update == last_update,
{
    let node_info = if test_mode {
        get_partition_node_info_test()
    } else {
        get_pn_info_util(sinfo_text)
    };
    let job_info = if test_mode {
        get_job_info_test()
    } else {
        get_job_info_util(squeue_text)
    };
    SlurmStatus { node_info, job_info, last_update }
}

/// Two snapshots built from the same raw text agree on every record
/// field; only the update stamp may differ between their cycles.
pub proof fn lemma_cycle_idempotent(
    s1: SlurmStatus,
    s2: SlurmStatus,
    test_mode: bool,
    nodes_text: Seq<char>,
    jobs_text: Seq<char>,
)
    requires
        snapshot_of_texts(s1, test_mode, nodes_text, jobs_text),
        snapshot_of_texts(s2, test_mode, nodes_text, jobs_text),
    ensures
        s1.node_info.deep_view() == s2.node_info.deep_view(),
        s1.job_info.deep_view() == s2.job_info.deep_view(),
{
}

// ---------------------------------------------------------------------------
// The update stamp
// ---------------------------------------------------------------------------

/// The update stamp `YYYY.MM.DD - HH:MM`.
pub open spec fn spec_timestamp(y: int, mo: int, d: int, h: int, mi: int) -> Seq<char> {
    spec_pad4(y) + (".")@ + spec_pad2(mo) + (".")@ + spec_pad2(d) + (" - ")@ + spec_pad2(h) + (
    ":")@ + spec_pad2(mi)
}

/// Renders an update stamp from calendar and clock fields.
pub fn format_timestamp(year: i32, month: u8, day: u8, hour: u8, minute: u8) -> (r: String)
    requires
        0 <= year <= 9999,
        1 <= month <= 12,
        1 <= day <= 31,
        hour <= 23,
        minute <= 59,
    ensures
        r@ == spec_timestamp(year as int, month as int, day as int, hour as int, minute as int),
{
    let mut r = pad4(year as u32);
    r.append(".");
    r.append(pad2(month as u32).as_str());
    r.append(".");
    r.append(pad2(day as u32).as_str());
    r.append(" - ");
    r.append(pad2(hour as u32).as_str());
    r.append(":");
    r.append(pad2(minute as u32).as_str());
    r
}

/// A text of the update-stamp shape for some valid calendar fields.
pub open spec fn is_timestamp_text(t: Seq<char>) -> bool {
    exists|y: int, mo: int, d: int, h: int, mi: int|
        0 <= y <= 9999 && 1 <= mo <= 12 && 1 <= d <= 31 && 0 <= h <= 23 && 0 <= mi <= 59 && t
            == #[trigger] spec_timestamp(y, mo, d, h, mi)
}

/// Relies on `time::OffsetDateTime::now_utc` and its field accessors:
/// the crate documents the month as 1 to 12, the day as 1 to 31, the
/// hour below 24, the minute below 60, and the year within four digits
/// of either sign.
#[verifier::external_body]
fn now_parts() -> (r: (i32, u8, u8, u8, u8))
    ensures
        -9999 <= r.0 <= 9999,
        1 <= r.1 <= 12,
        1 <= r.2 <= 31,
        r.3 <= 23,
        r.4 <= 59,
{
    let t = time::OffsetDateTime::now_utc();
    (t.year(), u8::from(t.month()), t.day(), t.hour(), t.minute())
}

/// The update stamp of the current time, or empty for a clock reading
/// outside the stamp's range.
pub fn current_timestamp() -> (r: String)
    ensures
        is_timestamp_text(r@) || r@ == Seq::<char>::empty(),
{
    let (year, month, day, hour, minute) = now_parts();
    if year >= 0 {
        let r = format_timestamp(year, month, day, hour, minute);
        proof {
            assert(r@ == spec_timestamp(
                year as int,
                month as int,
                day as int,
                hour as int,
                minute as int,
            ));
        }
        r
    } else {
        String::new()
    }
}

// ---------------------------------------------------------------------------
// Rendering a snapshot as HTML
// ---------------------------------------------------------------------------

/// A plain table cell.
pub open spec fn spec_text_cell(t: Seq<char>) -> Seq<char> {
    ("<td>")@ + t + ("</td>")@
}

fn text_cell(t: &str) -> (r: String)
    ensures
        r@ == spec_text_cell(t@),
{
    let mut r = String::from_str("<td>");
    r.append(t);
    r.append("</td>");
    r
}

/// An optional numeric cell: the value, or the placeholder where absent.
pub open spec fn spec_opt_u32_cell(o: Option<u32>) -> Seq<char> {
    match o {
        Some(v) => ("<td>")@ + spec_u32_str(v as int) + ("</td>")@,
        None => ("<td>-</td>")@,
    }
}

fn opt_u32_cell(o: Option<u32>) -> (r: String)
    ensures
        r@ == spec_opt_u32_cell(o),
{
    match o {
        Some(v) => {
            let mut r = String::from_str("<td>");
            r.append(u32_to_string(v).as_str());
            r.append("</td>");
            r
        },
        None => String::from_str("<td>-</td>"),
    }
}

/// An optional text cell: the text, or the placeholder where absent.
pub open spec fn spec_opt_text_cell(o: Option<Seq<char>>) -> Seq<char> {
    match o {
        Some(t) => ("<td>")@ + t + ("</td>")@,
        None => ("<td>-</td>")@,
    }
}

fn opt_text_cell(o: &Option<String>) -> (r: String)
    ensures
        r@ == spec_opt_text_cell(o.deep_view()),
{
    match o {
        Some(t) => {
            let mut r = String::from_str("<td>");
            r.append(t.as_str());
            r.append("</td>");
            r
        },
        None => String::from_str("<td>-</td>"),
    }
}

/// The availability cell, with the marker of a partition that is down.
pub open spec fn spec_avail_cell(a: PartitionAvailability) -> Seq<char> {
    match a {
        PartitionAvailability::Up => ("<td>Up</td>")@,
        PartitionAvailability::Down => ("<td id=\"partition_down\">Down</td>")@,
    }
}

fn avail_cell(a: PartitionAvailability) -> (r: &'static str)
    ensures
        r@ == spec_avail_cell(a),
{
    match a {
        PartitionAvailability::Up => "<td>Up</td>",
        PartitionAvailability::Down => "<td id=\"partition_down\">Down</td>",
    }
}

/// The display name of an error cause; the absent cause displays as the
/// token it is parsed from.
pub open spec fn spec_error_name(e: ErrorCause) -> Seq<char> {
    match e {
        ErrorCause::Down => ("Down")@,
        ErrorCause::Drained => ("Drained")@,
        ErrorCause::Draining => ("Draining")@,
        ErrorCause::NoError => ("None")@,
        ErrorCause::Unknown => ("Unknown")@,
    }
}

fn error_name(e: ErrorCause) -> (r: &'static str)
    ensures
        r@ == spec_error_name(e),
{
    match e {
        ErrorCause::Down => "Down",
        ErrorCause::Drained => "Drained",
        ErrorCause::Draining => "Draining",
        ErrorCause::NoError => "None",
        ErrorCause::Unknown => "Unknown",
    }
}

/// The display name of a node state.
pub open spec fn spec_node_state_name(s: NodeState) -> Seq<char> {
    match s {
        NodeState::Allocated => ("Allocated")@,
        NodeState::Completing => ("Completing")@,
        NodeState::Down => ("Down")@,
        NodeState::Drained => ("Drained")@,
        NodeState::Draining => ("Draining")@,
        NodeState::Fail => ("Fail")@,
        NodeState::Failing => ("Failing")@,
        NodeState::Idle => ("Idle")@,
        NodeState::Maint => ("Maint")@,
        NodeState::Unknown => ("Unknown")@,
    }
}

fn node_state_name(s: NodeState) -> (r: &'static str)
    ensures
        r@ == spec_node_state_name(s),
{
    match s {
        NodeState::Allocated => "Allocated",
        NodeState::Completing => "Completing",
        NodeState::Down => "Down",
        NodeState::Drained => "Drained",
        NodeState::Draining => "Draining",
        NodeState::Fail => "Fail",
        NodeState::Failing => "Failing",
        NodeState::Idle => "Idle",
        NodeState::Maint => "Maint",
        NodeState::Unknown => "Unknown",
    }
}

/// The display name of a state reason; the absent reason displays as
/// the token it is parsed from.
pub open spec fn spec_state_reason_name(s: StateReason) -> Seq<char> {
    match s {
        StateReason::Dependency => ("Dependency")@,
        StateReason::NoReason => ("None")@,
        StateReason::PartitionDown => ("PartitionDown")@,
        StateReason::PartitionNodeLimit => ("PartitionNodeLimit")@,
        StateReason::PartitionTimeLimit => ("PartitionTimeLimit")@,
        StateReason::Priority => ("Priority")@,
        StateReason::Resources => ("Resources")@,
        StateReason::NodeDown => ("NodeDown")@,
        StateReason::BadConstraints => ("BadConstraints")@,
        StateReason::SystemFailure => ("SystemFailure")@,
        StateReason::JobLaunchFailure => ("JobLaunchFailure")@,
        StateReason::NonZeroExitCode => ("NonZeroExitCode")@,
        StateReason::TimeLimit => ("TimeLimit")@,
        StateReason::InactiveLimit => ("InactiveLimit")@,
        StateReason::Unknown => ("Unknown")@,
    }
}

fn state_reason_name(s: StateReason) -> (r: &'static str)
    ensures
        r@ == spec_state_reason_name(s),
{
    match s {
        StateReason::Dependency => "Dependency",
        StateReason::NoReason => "None",
        StateReason::PartitionDown => "PartitionDown",
        StateReason::PartitionNodeLimit => "PartitionNodeLimit",
        StateReason::PartitionTimeLimit => "PartitionTimeLimit",
        StateReason::Priority => "Priority",
        StateReason::Resources => "Resources",
        StateReason::NodeDown => "NodeDown",
        StateReason::BadConstraints => "BadConstraints",
        StateReason::SystemFailure => "SystemFailure",
        StateReason::JobLaunchFailure => "JobLaunchFailure",
        StateReason::NonZeroExitCode => "NonZeroExitCode",
        StateReason::TimeLimit => "TimeLimit",
        StateReason::InactiveLimit => "InactiveLimit",
        StateReason::Unknown => "Unknown",
    }
}

/// The display name of a job state.
pub open spec fn spec_job_state_name(s: JobState) -> Seq<char> {
    match s {
        JobState::Cancelled => ("Cancelled")@,
        JobState::Completed => ("Completed")@,
        JobState::Configuring => ("Configuring")@,
        JobState::Completing => ("Completing")@,
        JobState::Failed => ("Failed")@,
        JobState::NodeFail => ("NodeFail")@,
        JobState::Pending => ("Pending")@,
        JobState::Preempted => ("Preempted")@,
        JobState::Running => ("Running")@,
        JobState::Suspended => ("Suspended")@,
        JobState::Timeout => ("Timeout")@,
        JobState::Unknown => ("Unknown")@,
    }
}

fn job_state_name(s: JobState) -> (r: &'static str)
    ensures
        r@ == spec_job_state_name(s),
{
    match s {
        JobState::Cancelled => "Cancelled",
        JobState::Completed => "Completed",
        JobState::Configuring => "Configuring",
        JobState::Completing => "Completing",
        JobState::Failed => "Failed",
        JobState::NodeFail => "NodeFail",
        JobState::Pending => "Pending",
        JobState::Preempted => "Preempted",
        JobState::Running => "Running",
        JobState::Suspended => "Suspended",
        JobState::Timeout => "Timeout",
        JobState::Unknown => "Unknown",
    }
}

/// The list-of-nodes cell: each name followed by a comma.
pub open spec fn spec_node_items(ns: Seq<String>) -> Seq<char>
    decreases ns.len(),
{
    if ns.len() == 0 {
        Seq::empty()
    } else {
        (ns[0]@ + (",")@) + spec_node_items(ns.drop_first())
    }
}

pub open spec fn spec_nodes_cell(ns: Seq<String>) -> Seq<char> {
    ("<td>")@ + spec_node_items(ns) + ("</td>")@
}

proof fn lemma_node_items_push(ns: Seq<String>, x: String)
    ensures
        spec_node_items(ns.push(x)) == spec_node_items(ns) + (x@ + (",")@),
    decreases ns.len(),
{
    if ns.len() == 0 {
        assert(ns.push(x)[0] == x);
        assert(ns.push(x).drop_first() =~= Seq::<String>::empty());
        assert(spec_node_items(Seq::<String>::empty()) == Seq::<char>::empty());
        assert(spec_node_items(ns.push(x)) =~= spec_node_items(ns) + (x@ + (",")@));
    } else {
        assert(ns.push(x)[0] == ns[0]);
        assert(ns.push(x).drop_first() =~= ns.drop_first().push(x));
        lemma_node_items_push(ns.drop_first(), x);
        assert(spec_node_items(ns.push(x)) =~= spec_node_items(ns) + (x@ + (",")@));
    }
}

proof fn lemma_node_items_take_succ(ns: Seq<String>, i: int)
    requires
        0 <= i < ns.len(),
    ensures
        spec_node_items(ns.take(i + 1)) == spec_node_items(ns.take(i)) + (ns[i]@ + (",")@),
{
    assert(ns.take(i + 1) =~= ns.take(i).push(ns[i]));
    lemma_node_items_push(ns.take(i), ns[i]);
}

fn nodes_cell(ns: &Vec<String>) -> (r: String)
    ensures
        r@ == spec_nodes_cell(ns@),
{
    let mut r = String::from_str("<td>");
    proof {
        assert(spec_node_items(ns@.take(0)) == Seq::<char>::empty());
        assert(r@ =~= ("<td>")@ + spec_node_items(ns@.take(0)));
    }
    let mut i: usize = 0;
    while i < ns.len()
        invariant
            i <= ns@.len(),
            r@ == ("<td>")@ + spec_node_items(ns@.take(i as int)),
        decreases ns@.len() - i,
    {
        let ghost prev = r@;
        r.append(ns[i].as_str());
        r.append(",");
        proof {
            lemma_node_items_take_succ(ns@, i as int);
            assert(r@ =~= ("<td>")@ + spec_node_items(ns@.take(i + 1)));
        }
        i += 1;
    }
    proof {
        assert(ns@.take(ns@.len() as int) =~= ns@);
    }
    r.append("</td>");
    r
}

/// One table row of a partition/node record, cell by cell in field
/// order, the optional fields with their placeholder where absent.
pub open spec fn spec_pn_row(p: PartitionNodeInfo) -> Seq<char> {
    ("<tr>\n")@ + spec_text_cell(p.partition@) + spec_avail_cell(p.availability) + spec_text_cell(
        p.hostname@,
    ) + spec_text_cell(p.node@) + spec_text_cell(spec_error_name(p.error)) + spec_opt_text_cell(
        p.cpu_load.deep_view(),
    ) + spec_text_cell(spec_node_state_name(p.node_state)) + spec_opt_u32_cell(p.node_sockets)
        + spec_opt_u32_cell(p.node_cores) + spec_opt_u32_cell(p.node_threads) + ("</tr>\n")@
}

fn pn_row(p: &PartitionNodeInfo) -> (r: String)
    ensures
        r@ == spec_pn_row(*p),
{
    let mut r = String::from_str("<tr>\n");
    r.append(text_cell(p.partition.as_str()).as_str());
    r.append(avail_cell(p.availability));
    r.append(text_cell(p.hostname.as_str()).as_str());
    r.append(text_cell(p.node.as_str()).as_str());
    r.append(text_cell(error_name(p.error)).as_str());
    r.append(opt_text_cell(&p.cpu_load).as_str());
    r.append(text_cell(node_state_name(p.node_state)).as_str());
    r.append(opt_u32_cell(p.node_sockets).as_str());
    r.append(opt_u32_cell(p.node_cores).as_str());
    r.append(opt_u32_cell(p.node_threads).as_str());
    r.append("</tr>\n");
    r
}

/// One table row of a job record, cell by cell in field order, the
/// optional fields with their placeholder where absent.
pub open spec fn spec_job_row(j: JobInfo) -> Seq<char> {
    ("<tr>\n")@ + spec_text_cell(j.executing_host@) + spec_opt_u32_cell(j.minimum_cpu)
        + spec_opt_u32_cell(j.num_cpu) + spec_opt_u32_cell(j.num_nodes) + spec_opt_u32_cell(
        j.job_array_id,
    ) + spec_opt_u32_cell(j.num_sockets) + spec_opt_u32_cell(j.job_id) + spec_opt_u32_cell(
        j.num_cores,
    ) + spec_text_cell(j.job_name@) + spec_opt_u32_cell(j.num_threads) + spec_opt_u32_cell(
        j.job_array_index,
    ) + spec_text_cell(j.run_time@) + spec_nodes_cell(j.list_of_nodes@) + spec_opt_text_cell(
        j.priority.deep_view(),
    ) + spec_text_cell(spec_state_reason_name(j.state_reason)) + spec_text_cell(j.start_time@)
        + spec_text_cell(spec_job_state_name(j.job_state)) + spec_text_cell(j.user_name@)
        + spec_opt_u32_cell(j.user_id) + ("</tr>\n")@
}

fn job_row(j: &JobInfo) -> (r: String)
    ensures
        r@ == spec_job_row(*j),
{
    let mut r = String::from_str("<tr>\n");
    r.append(text_cell(j.executing_host.as_str()).as_str());
    r.append(opt_u32_cell(j.minimum_cpu).as_str());
    r.append(opt_u32_cell(j.num_cpu).as_str());
    r.append(opt_u32_cell(j.num_nodes).as_str());
    r.append(opt_u32_cell(j.job_array_id).as_str());
    r.append(opt_u32_cell(j.num_sockets).as_str());
    r.append(opt_u32_cell(j.job_id).as_str());
    r.append(opt_u32_cell(j.num_cores).as_str());
    r.append(text_cell(j.job_name.as_str()).as_str());
    r.append(opt_u32_cell(j.num_threads).as_str());
    r.append(opt_u32_cell(j.job_array_index).as_str());
    r.append(text_cell(j.run_time.as_str()).as_str());
    r.append(nodes_cell(&j.list_of_nodes).as_str());
    r.append(opt_text_cell(&j.priority).as_str());
    r.append(text_cell(state_reason_name(j.state_reason)).as_str());
    r.append(text_cell(j.start_time.as_str()).as_str());
    r.append(text_cell(job_state_name(j.job_state)).as_str());
    r.append(text_cell(j.user_name.as_str()).as_str());
    r.append(opt_u32_cell(j.user_id).as_str());
    r.append("</tr>\n");
    r
}

pub open spec fn spec_pn_rows(ns: Seq<PartitionNodeInfo>) -> Seq<char>
    decreases ns.len(),
{
    if ns.len() == 0 {
        Seq::empty()
    } else {
        spec_pn_row(ns[0]) + spec_pn_rows(ns.drop_first())
    }
}

proof fn lemma_pn_rows_push(ns: Seq<PartitionNodeInfo>, x: PartitionNodeInfo)
    ensures
        spec_pn_rows(ns.push(x)) == spec_pn_rows(ns) + spec_pn_row(x),
    decreases ns.len(),
{
    if ns.len() == 0 {
        assert(ns.push(x)[0] == x);
        assert(ns.push(x).drop_first() =~= Seq::<PartitionNodeInfo>::empty());
        assert(spec_pn_rows(Seq::<PartitionNodeInfo>::empty()) == Seq::<char>::empty());
        assert(spec_pn_rows(ns.push(x)) =~= spec_pn_rows(ns) + spec_pn_row(x));
    } else {
        assert(ns.push(x)[0] == ns[0]);
        assert(ns.push(x).drop_first() =~= ns.drop_first().push(x));
        lemma_pn_rows_push(ns.drop_first(), x);
        assert(spec_pn_rows(ns.push(x)) =~= spec_pn_rows(ns) + spec_pn_row(x));
    }
}

proof fn lemma_pn_rows_take_succ(ns: Seq<PartitionNodeInfo>, i: int)
    requires
        0 <= i < ns.len(),
    ensures
        spec_pn_rows(ns.take(i + 1)) == spec_pn_rows(ns.take(i)) + spec_pn_row(ns[i]),
{
    assert(ns.take(i + 1) =~= ns.take(i).push(ns[i]));
    lemma_pn_rows_push(ns.take(i), ns[i]);
}

pub open spec fn spec_job_rows(js: Seq<JobInfo>) -> Seq<char>
    decreases js.len(),
{
    if js.len() == 0 {
        Seq::empty()
    } else {
        spec_job_row(js[0]) + spec_job_rows(js.drop_first())
    }
}

proof fn lemma_job_rows_push(js: Seq<JobInfo>, x: JobInfo)
    ensures
        spec_job_rows(js.push(x)) == spec_job_rows(js) + spec_job_row(x),
    decreases js.len(),
{
    if js.len() == 0 {
        assert(js.push(x)[0] == x);
        assert(js.push(x).drop_first() =~= Seq::<JobInfo>::empty());
        assert(spec_job_rows(Seq::<JobInfo>::empty()) == Seq::<char>::empty());
        assert(spec_job_rows(js.push(x)) =~= spec_job_rows(js) + spec_job_row(x));
    } else {
        assert(js.push(x)[0] == js[0]);
        assert(js.push(x).drop_first() =~= js.drop_first().push(x));
        lemma_job_rows_push(js.drop_first(), x);
        assert(spec_job_rows(js.push(x)) =~= spec_job_rows(js) + spec_job_row(x));
    }
}

proof fn lemma_job_rows_take_succ(js: Seq<JobInfo>, i: int)
    requires
        0 <= i < js.len(),
    ensures
        spec_job_rows(js.take(i + 1)) == spec_job_rows(js.take(i)) + spec_job_row(js[i]),
{
    assert(js.take(i + 1) =~= js.take(i).push(js[i]));
    lemma_job_rows_push(js.take(i), js[i]);
}

/// The whole display document of a snapshot: the page head, the update
/// stamp, one table row per partition/node record, and one per job
/// record, in record order.
pub open spec fn spec_status_html(s: SlurmStatus) -> Seq<char> {
    (
    "<html>\n<head>\n<title>Slurm Inspector</title>\n<style>\ntable, { border: 1px solid black; }\nth, td { border: 1px solid black; padding: 10px; }\nth { background: #e0e0e0; }\n#partition_down { background: #ffa0a0; }\n</style>\n</head>\n<body>\n")@
        + ("<h3>Last update: ")@ + s.last_update@ + ("</h3>")@ + ("<br>\n<br>\n<br>\n<br>\n")@ + (
    "<h3>Partition and node information:</h3>\n<table>\n<tr>\n<th>Partition</th><th>Availability</th><th>Hostname</th><th>Node</th><th>Error</th><th>CPU load</th><th>Node state</th><th>Node sockets</th><th>Node cores</th><th>Node threads</th></tr>\n")@
        + spec_pn_rows(s.node_info@) + ("</table>\n")@ + ("<br>\n<br>\n<br>\n<br>\n")@ + (
    "<h3>Job information:</h3>\n<table>\n<tr>\n<th>Executing host</th><th>Min CPU</th><th>Num CPU</th><th>Num nodes</th><th>Job array ID</th><th>Number of Sockets</th><th>Job ID</th><th>Number of Cores</th><th>Job name</th><th>Number of threads</th><th>Job array index</th><th>Run time</th><th>List of nodes</th><th>Priority</th><th>State reason</th><th>Start time</th><th>Job state</th><th>User name</th><th>User ID</th></tr>\n")@
        + spec_job_rows(s.job_info@) + ("</table>\n")@ + ("</body>\n</html>\n")@
}

/// Renders a snapshot as its display document.  Pure and total: any
/// snapshot, the empty initial one included, renders without failure.
pub fn status_to_html(status: &SlurmStatus) -> (r: String)
    ensures
        r@ == spec_status_html(*status),
{
    let mut result = String::from_str(
        "<html>\n<head>\n<title>Slurm Inspector</title>\n<style>\ntable, { border: 1px solid black; }\nth, td { border: 1px solid black; padding: 10px; }\nth { background: #e0e0e0; }\n#partition_down { background: #ffa0a0; }\n</style>\n</head>\n<body>\n",
    );
    result.append("<h3>Last update: ");
    result.append(status.last_update.as_str());
    result.append("</h3>");
    result.append("<br>\n<br>\n<br>\n<br>\n");
    result.append(
        "<h3>Partition and node information:</h3>\n<table>\n<tr>\n<th>Partition</th><th>Availability</th><th>Hostname</th><th>Node</th><th>Error</th><th>CPU load</th><th>Node state</th><th>Node sockets</th><th>Node cores</th><th>Node threads</th></tr>\n",
    );
    let ghost pn_pre = result@;
    proof {
        assert(spec_pn_rows(status.node_info@.take(0)) == Seq::<char>::empty());
        assert(result@ =~= pn_pre + spec_pn_rows(status.node_info@.take(0)));
    }
    let mut i: usize = 0;
    while i < status.node_info.len()
        invariant
            i <= status.node_info@.len(),
            result@ == pn_pre + spec_pn_rows(status.node_info@.take(i as int)),
        decreases status.node_info@.len() - i,
    {
        result.append(pn_row(&status.node_info[i]).as_str());
        proof {
            lemma_pn_rows_take_succ(status.node_info@, i as int);
            assert(result@ =~= pn_pre + spec_pn_rows(status.node_info@.take(i + 1)));
        }
        i += 1;
    }
    proof {
        assert(status.node_info@.take(status.node_info@.len() as int) =~= status.node_info@);
    }
    result.append("</table>\n");
    result.append("<br>\n<br>\n<br>\n<br>\n");
    result.append(
        "<h3>Job information:</h3>\n<table>\n<tr>\n<th>Executing host</th><th>Min CPU</th><th>Num CPU</th><th>Num nodes</th><th>Job array ID</th><th>Number of Sockets</th><th>Job ID</th><th>Number of Cores</th><th>Job name</th><th>Number of threads</th><th>Job array index</th><th>Run time</th><th>List of nodes</th><th>Priority</th><th>State reason</th><th>Start time</th><th>Job state</th><th>User name</th><th>User ID</th></tr>\n",
    );
    let ghost job_pre = result@;
    proof {
        assert(spec_job_rows(status.job_info@.take(0)) == Seq::<char>::empty());
        assert(result@ =~= job_pre + spec_job_rows(status.job_info@.take(0)));
    }
    let mut j: usize = 0;
    while j < status.job_info.len()
        invariant
            j <= status.job_info@.len(),
            result@ == job_pre + spec_job_rows(status.job_info@.take(j as int)),
        decreases status.job_info@.len() - j,
    {
        result.append(job_row(&status.job_info[j]).as_str());
        proof {
            lemma_job_rows_take_succ(status.job_info@, j as int);
            assert(result@ =~= job_pre + spec_job_rows(status.job_info@.take(j + 1)));
        }
        j += 1;
    }
    proof {
        assert(status.job_info@.take(status.job_info@.len() as int) =~= status.job_info@);
    }
    result.append("</table>\n");
    result.append("</body>\n</html>\n");
    proof {
        assert(result@ =~= spec_status_html(*status));
    }
    result
}

// ---------------------------------------------------------------------------
// The shared store
// ---------------------------------------------------------------------------

/// The store accepts every snapshot; the exclusion discipline alone is
/// what it enforces.
pub struct SnapshotPred {}

impl RwLockPredicate<SlurmStatus> for SnapshotPred {
    open spec fn inv(self, v: SlurmStatus) -> bool {
        true
    }
}

/// The shared holder of the most recent snapshot.  One writer replaces
/// the snapshot wholesale; readers borrow it only under the read lock,
/// so every read observes the three fields of one cycle together.
pub struct StatusStore {
    lock: RwLock<SlurmStatus, SnapshotPred>,
}

impl StatusStore {
    /// A store holding the empty initial snapshot.
    pub fn new() -> (s: StatusStore) {
        let initial = SlurmStatus {
            node_info: Vec::new(),
            job_info: Vec::new(),
            last_update: String::new(),
        };
        StatusStore { lock: RwLock::new(initial, Ghost(SnapshotPred {  })) }
    }

    /// Replaces the held snapshot wholesale with the given one.
    pub fn replace(&self, status: SlurmStatus) {
        let (_previous, handle) = self.lock.acquire_write();
        handle.release_write(status);
    }

    /// Renders the currently held snapshot.  The result is the display
    /// document of one single snapshot: the fields it shows were all
    /// written by the same polling cycle.
    pub fn render_current(&self) -> (r: String)
        ensures
            exists|s: SlurmStatus| r@ == spec_status_html(s),
    {
        let handle = self.lock.acquire_read();
        let page = status_to_html(handle.borrow());
        handle.release_read();
        proof {
            assert(exists|s: SlurmStatus| page@ == spec_status_html(s)) by {
                assert(page@ == spec_status_html(handle@));
            }
        }
        page
    }

    /// Runs one polling cycle against the store: builds the snapshot of
    /// the given raw text (or of the fixture data in test mode), stamps
    /// it with the current time, and replaces the held snapshot.
    pub fn update_cycle(&self, test_mode: bool, sinfo_text: &str, squeue_text: &str) {
        let stamp = current_timestamp();
        let snapshot = build_snapshot(test_mode, sinfo_text, squeue_text, stamp);
        self.replace(snapshot);
    }
}

} // verus!
