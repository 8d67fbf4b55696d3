//! Classifier behavior for job state reasons and job states, and the
//! splitting of the list-of-nodes token.

use slurm_inspector::squeue_util::{
    str_to_state_reason, str_to_job_state, str_to_list_of_nodes, StateReason, JobState,
};

#[test]
fn test_str_to_list_of_nodes_empty() {
    assert_eq!(str_to_list_of_nodes("").len(), 0);
}

#[test]
fn test_str_to_list_of_nodes_01() {
    assert_eq!(str_to_list_of_nodes("node1"), vec!["node1"]);
}

#[test]
fn test_str_to_list_of_nodes_02() {
    assert_eq!(str_to_list_of_nodes("node1,node2"), vec!["node1", "node2"]);
}

#[test]
fn test_str_to_list_of_nodes_03() {
    assert_eq!(str_to_list_of_nodes("node1,node2,node3"), vec!["node1", "node2", "node3"]);
}

#[test]
fn test_str_to_list_of_nodes_adjacent_commas() {
    assert_eq!(str_to_list_of_nodes("node1,"), vec!["node1", ""]);
    assert_eq!(str_to_list_of_nodes("node1,,node2"), vec!["node1", "", "node2"]);
    assert_eq!(str_to_list_of_nodes(","), vec!["", ""]);
}

#[test]
fn test_str_to_state_reason_dependency() {
    assert_eq!(str_to_state_reason("dependency"), StateReason::Dependency);
    assert_eq!(str_to_state_reason("Dependency"), StateReason::Dependency);
    assert_eq!(str_to_state_reason("DEPENDENCY"), StateReason::Dependency);
}

#[test]
fn test_str_to_state_reason_none() {
    assert_eq!(str_to_state_reason("none"), StateReason::NoReason);
    assert_eq!(str_to_state_reason("None"), StateReason::NoReason);
    assert_eq!(str_to_state_reason("NONE"), StateReason::NoReason);
}

#[test]
fn test_str_to_state_reason_partition_down() {
    assert_eq!(str_to_state_reason("partitiondown"), StateReason::PartitionDown);
    assert_eq!(str_to_state_reason("PartitionDown"), StateReason::PartitionDown);
    assert_eq!(str_to_state_reason("PARTITIONDOWN"), StateReason::PartitionDown);
}

#[test]
fn test_str_to_state_reason_partition_node_limit() {
    assert_eq!(str_to_state_reason("partitionnodelimit"), StateReason::PartitionNodeLimit);
    assert_eq!(str_to_state_reason("PartitionNodeLimit"), StateReason::PartitionNodeLimit);
    assert_eq!(str_to_state_reason("PARTITIONNODELIMIT"), StateReason::PartitionNodeLimit);
}

#[test]
fn test_str_to_state_reason_partition_time_limit() {
    assert_eq!(str_to_state_reason("partitiontimelimit"), StateReason::PartitionTimeLimit);
    assert_eq!(str_to_state_reason("PartitionTimeLimit"), StateReason::PartitionTimeLimit);
    assert_eq!(str_to_state_reason("PARTITIONTIMELIMIT"), StateReason::PartitionTimeLimit);
}

#[test]
fn test_str_to_state_reason_priority() {
    assert_eq!(str_to_state_reason("priority"), StateReason::Priority);
    assert_eq!(str_to_state_reason("Priority"), StateReason::Priority);
    assert_eq!(str_to_state_reason("PRIORITY"), StateReason::Priority);
}

#[test]
fn test_str_to_state_reason_resources() {
    assert_eq!(str_to_state_reason("resources"), StateReason::Resources);
    assert_eq!(str_to_state_reason("Resources"), StateReason::Resources);
    assert_eq!(str_to_state_reason("RESOURCES"), StateReason::Resources);
}

#[test]
fn test_str_to_state_reason_node_down() {
    assert_eq!(str_to_state_reason("nodedown"), StateReason::NodeDown);
    assert_eq!(str_to_state_reason("NodeDown"), StateReason::NodeDown);
    assert_eq!(str_to_state_reason("NODEDOWN"), StateReason::NodeDown);
}

#[test]
fn test_str_to_state_reason_bad_constrains() {
    assert_eq!(str_to_state_reason("badconstraints"), StateReason::BadConstraints);
    assert_eq!(str_to_state_reason("BadConstraints"), StateReason::BadConstraints);
    assert_eq!(str_to_state_reason("BADCONSTRAINTS"), StateReason::BadConstraints);
}

#[test]
fn test_str_to_state_reason_system_failure() {
    assert_eq!(str_to_state_reason("systemfailure"), StateReason::SystemFailure);
    assert_eq!(str_to_state_reason("SystemFailure"), StateReason::SystemFailure);
    assert_eq!(str_to_state_reason("SYSTEMFAILURE"), StateReason::SystemFailure);
}

#[test]
fn test_str_to_state_reason_job_launch_failure() {
    assert_eq!(str_to_state_reason("joblaunchfailure"), StateReason::JobLaunchFailure);
    assert_eq!(str_to_state_reason("JobLaunchFailure"), StateReason::JobLaunchFailure);
    assert_eq!(str_to_state_reason("JOBLAUNCHFAILURE"), StateReason::JobLaunchFailure);
}

#[test]
fn test_str_to_state_reason_non_zero_exit_code() {
    assert_eq!(str_to_state_reason("nonzeroexitcode"), StateReason::NonZeroExitCode);
    assert_eq!(str_to_state_reason("NonZeroExitcode"), StateReason::NonZeroExitCode);
    assert_eq!(str_to_state_reason("NONZEROEXITCODE"), StateReason::NonZeroExitCode);
}

#[test]
fn test_str_to_state_reason_time_limit() {
    assert_eq!(str_to_state_reason("timelimit"), StateReason::TimeLimit);
    assert_eq!(str_to_state_reason("TimeLimit"), StateReason::TimeLimit);
    assert_eq!(str_to_state_reason("TIMELIMIT"), StateReason::TimeLimit);
}

#[test]
fn test_str_to_state_reason_inactive_limit() {
    assert_eq!(str_to_state_reason("inactivelimit"), StateReason::InactiveLimit);
    assert_eq!(str_to_state_reason("Inactivelimit"), StateReason::InactiveLimit);
    assert_eq!(str_to_state_reason("INACTIVELIMIT"), StateReason::InactiveLimit);
}

#[test]
fn test_str_to_state_reason_unknown() {
    assert_eq!(str_to_state_reason("unknown"), StateReason::Unknown);
    assert_eq!(str_to_state_reason("Unknown"), StateReason::Unknown);
    assert_eq!(str_to_state_reason("UNKNOWN"), StateReason::Unknown);
}

#[test]
fn test_str_to_job_state_cancelled() {
    assert_eq!(str_to_job_state("cancelled"), JobState::Cancelled);
    assert_eq!(str_to_job_state("Cancelled"), JobState::Cancelled);
    assert_eq!(str_to_job_state("CANCELLED"), JobState::Cancelled);
}

#[test]
fn test_str_to_job_state_completed() {
    assert_eq!(str_to_job_state("completed"), JobState::Completed);
    assert_eq!(str_to_job_state("Completed"), JobState::Completed);
    assert_eq!(str_to_job_state("COMPLETED"), JobState::Completed);
}

#[test]
fn test_str_to_job_state_configuring() {
    assert_eq!(str_to_job_state("configuring"), JobState::Configuring);
    assert_eq!(str_to_job_state("Configuring"), JobState::Configuring);
    assert_eq!(str_to_job_state("CONFIGURING"), JobState::Configuring);
}

#[test]
fn test_str_to_job_state_completing() {
    assert_eq!(str_to_job_state("completing"), JobState::Completing);
    assert_eq!(str_to_job_state("Completing"), JobState::Completing);
    assert_eq!(str_to_job_state("COMPLETING"), JobState::Completing);
}

#[test]
fn test_str_to_job_state_failed() {
    assert_eq!(str_to_job_state("failed"), JobState::Failed);
    assert_eq!(str_to_job_state("Failed"), JobState::Failed);
    assert_eq!(str_to_job_state("FAILED"), JobState::Failed);
}

#[test]
fn test_str_to_job_state_node_fail() {
    assert_eq!(str_to_job_state("node_fail"), JobState::NodeFail);
    assert_eq!(str_to_job_state("Node_Fail"), JobState::NodeFail);
    assert_eq!(str_to_job_state("NODE_FAIL"), JobState::NodeFail);
}

#[test]
fn test_str_to_job_state_pending() {
    assert_eq!(str_to_job_state("pending"), JobState::Pending);
    assert_eq!(str_to_job_state("Pending"), JobState::Pending);
    assert_eq!(str_to_job_state("PENDING"), JobState::Pending);
}

#[test]
fn test_str_to_job_state_preempted() {
    assert_eq!(str_to_job_state("preempted"), JobState::Preempted);
    assert_eq!(str_to_job_state("Preempted"), JobState::Preempted);
    assert_eq!(str_to_job_state("PREEMPTED"), JobState::Preempted);
}

#[test]
fn test_str_to_job_state_running() {
    assert_eq!(str_to_job_state("running"), JobState::Running);
    assert_eq!(str_to_job_state("Running"), JobState::Running);
    assert_eq!(str_to_job_state("RUNNING"), JobState::Running);
}

#[test]
fn test_str_to_job_state_suspended() {
    assert_eq!(str_to_job_state("suspended"), JobState::Suspended);
    assert_eq!(str_to_job_state("Suspended"), JobState::Suspended);
    assert_eq!(str_to_job_state("SUSPENDED"), JobState::Suspended);
}

#[test]
fn test_str_to_job_state_timeout() {
    assert_eq!(str_to_job_state("timeout"), JobState::Timeout);
    assert_eq!(str_to_job_state("Timeout"), JobState::Timeout);
    assert_eq!(str_to_job_state("TIMEOUT"), JobState::Timeout);
}

#[test]
fn test_str_to_job_state_unknown() {
    assert_eq!(str_to_job_state("unknown"), JobState::Unknown);
    assert_eq!(str_to_job_state("Unknown"), JobState::Unknown);
    assert_eq!(str_to_job_state("UNKNOWN"), JobState::Unknown);
}
