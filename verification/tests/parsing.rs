//! Record parsing: well-formed lines yield one record each with fields
//! in token order; lines of any other arity are skipped silently.

use slurm_inspector::sinfo_util::{
    get_pn_info_util, get_partition_node_info_test, PartitionNodeInfo, PartitionAvailability,
    ErrorCause, NodeState,
};
use slurm_inspector::squeue_util::{
    get_job_info_util, get_job_info_test, StateReason, JobState,
};

#[test]
fn test_get_pn_info_util_empty() {
    assert!(get_pn_info_util("").len() == 0);
}

#[test]
fn test_get_pn_info_util_invalid() {
    assert!(get_pn_info_util("1 2 3").len() == 0);
}

#[test]
fn test_get_pn_info_util_01() {
    let input = "longrun up node01.foo.bar node01 none 0.22 idle 2 2 2";
    let output = vec![PartitionNodeInfo {
        partition: "longrun".to_string(),
        availability: PartitionAvailability::Up,
        hostname: "node01.foo.bar".to_string(),
        node: "node01".to_string(),
        error: ErrorCause::NoError,
        cpu_load: Some("0.22".to_string()),
        node_state: NodeState::Idle,
        node_sockets: Some(2),
        node_cores: Some(2),
        node_threads: Some(2),
    }];

    assert_eq!(get_pn_info_util(input), output);
}

#[test]
fn test_get_pn_info_util_02() {
    let input = "longrun up node01.foo.bar node01 none 0.22 idle 2 2 2\nlongrun up node02.foo.bar node02 down 0.1 idle 1 2 4";
    let output = vec![
        PartitionNodeInfo {
            partition: "longrun".to_string(),
            availability: PartitionAvailability::Up,
            hostname: "node01.foo.bar".to_string(),
            node: "node01".to_string(),
            error: ErrorCause::NoError,
            cpu_load: Some("0.22".to_string()),
            node_state: NodeState::Idle,
            node_sockets: Some(2),
            node_cores: Some(2),
            node_threads: Some(2),
        },
        PartitionNodeInfo {
            partition: "longrun".to_string(),
            availability: PartitionAvailability::Up,
            hostname: "node02.foo.bar".to_string(),
            node: "node02".to_string(),
            error: ErrorCause::Down,
            cpu_load: Some("0.1".to_string()),
            node_state: NodeState::Idle,
            node_sockets: Some(1),
            node_cores: Some(2),
            node_threads: Some(4),
        },
    ];

    assert_eq!(get_pn_info_util(input), output);
}

#[test]
fn test_get_job_info_util_empty() {
    assert_eq!(get_job_info_util("").len(), 0);
}

#[test]
fn test_get_job_info_util_invalid() {
    assert_eq!(get_job_info_util("1 2 3 4").len(), 0);
}

#[test]
fn test_get_job_info_util_one_line() {
    let line = "agassiz 1 2 1 N/A * 82 * small_test * N/A 2:46 agassiz,basel 0.99998474074527 None 2015-11-12T09:51:32 RUNNING willi 1000";
    let jobs = get_job_info_util(line);
    assert_eq!(jobs.len(), 1);
    let job = &jobs[0];
    assert_eq!(job.executing_host, "agassiz");
    assert_eq!(job.minimum_cpu, Some(1));
    assert_eq!(job.num_cpu, Some(2));
    assert_eq!(job.num_nodes, Some(1));
    assert_eq!(job.job_array_id, None);
    assert_eq!(job.num_sockets, None);
    assert_eq!(job.job_id, Some(82));
    assert_eq!(job.num_cores, None);
    assert_eq!(job.job_name, "small_test");
    assert_eq!(job.num_threads, None);
    assert_eq!(job.job_array_index, None);
    assert_eq!(job.run_time, "2:46");
    assert_eq!(job.list_of_nodes, vec!["agassiz", "basel"]);
    assert_eq!(job.priority, Some("0.99998474074527".to_string()));
    assert_eq!(job.state_reason, StateReason::NoReason);
    assert_eq!(job.start_time, "2015-11-12T09:51:32");
    assert_eq!(job.job_state, JobState::Running);
    assert_eq!(job.user_name, "willi");
    assert_eq!(job.user_id, Some(1000));
}

#[test]
fn test_pn_parse_crlf_lines() {
    let input = "longrun up h1 node01 none 0.5 idle 1 1 1\r\nlongrun up h2 node02 none 0.5 idle 1 1 1\r\n";
    let records = get_pn_info_util(input);
    assert_eq!(records.len(), 2);
    assert_eq!(records[0].node, "node01");
    assert_eq!(records[1].node, "node02");
}

#[test]
fn test_pn_parse_skips_only_bad_lines() {
    let input = "short line\nlongrun up h1 node01 none 0.5 idle 1 1 1\none two three four five six seven eight nine ten eleven";
    let records = get_pn_info_util(input);
    assert_eq!(records.len(), 1);
    assert_eq!(records[0].partition, "longrun");
}

#[test]
fn test_pn_parse_placeholder_fields() {
    let records = get_pn_info_util("esd down node03 node03 down - - - - -");
    assert_eq!(records.len(), 1);
    assert_eq!(records[0].cpu_load, None);
    assert_eq!(records[0].node_state, NodeState::Unknown);
    assert_eq!(records[0].node_sockets, None);
    assert_eq!(records[0].node_cores, None);
    assert_eq!(records[0].node_threads, None);
}

#[test]
fn test_fixture_record_counts() {
    assert_eq!(get_partition_node_info_test().len(), 12);
    assert_eq!(get_job_info_test().len(), 12);
}

#[test]
fn test_fixture_covers_every_node_state() {
    let nodes = get_partition_node_info_test();
    assert_eq!(nodes[0].node_state, NodeState::Idle);
    assert_eq!(nodes[0].cpu_load, Some("0.22".to_string()));
    assert_eq!(nodes[2].availability, PartitionAvailability::Down);
    assert_eq!(nodes[2].error, ErrorCause::Down);
    assert_eq!(nodes[4].node_state, NodeState::Allocated);
    assert_eq!(nodes[5].node_state, NodeState::Completing);
    assert_eq!(nodes[6].node_state, NodeState::Drained);
    assert_eq!(nodes[7].node_state, NodeState::Draining);
    assert_eq!(nodes[8].node_state, NodeState::Fail);
    assert_eq!(nodes[9].node_state, NodeState::Failing);
    assert_eq!(nodes[10].node_state, NodeState::Maint);
    assert_eq!(nodes[11].node_state, NodeState::Unknown);
}
