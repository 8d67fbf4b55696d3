//! Classifier behavior for partition availability, error cause and node
//! state, across lower, mixed and upper case.

use slurm_inspector::sinfo_util::{
    str_to_availability, str_to_error, str_to_node_state, PartitionAvailability, ErrorCause,
    NodeState,
};

#[test]
fn test_str_to_availability_up() {
    assert_eq!(str_to_availability("up"), PartitionAvailability::Up);
    assert_eq!(str_to_availability("Up"), PartitionAvailability::Up);
    assert_eq!(str_to_availability("UP"), PartitionAvailability::Up);
}

#[test]
fn test_str_to_availability_down() {
    assert_eq!(str_to_availability("down"), PartitionAvailability::Down);
    assert_eq!(str_to_availability("Down"), PartitionAvailability::Down);
    assert_eq!(str_to_availability("DOWN"), PartitionAvailability::Down);
}

#[test]
fn test_str_to_error_down() {
    assert_eq!(str_to_error("down"), ErrorCause::Down);
    assert_eq!(str_to_error("Down"), ErrorCause::Down);
    assert_eq!(str_to_error("DOWN"), ErrorCause::Down);
}

#[test]
fn test_str_to_error_drained() {
    assert_eq!(str_to_error("drained"), ErrorCause::Drained);
    assert_eq!(str_to_error("Drained"), ErrorCause::Drained);
    assert_eq!(str_to_error("DRAINED"), ErrorCause::Drained);
}

#[test]
fn test_str_to_error_draining() {
    assert_eq!(str_to_error("draining"), ErrorCause::Draining);
    assert_eq!(str_to_error("Draining"), ErrorCause::Draining);
    assert_eq!(str_to_error("DRAINING"), ErrorCause::Draining);
}

#[test]
fn test_str_to_error_none() {
    assert_eq!(str_to_error("none"), ErrorCause::NoError);
    assert_eq!(str_to_error("None"), ErrorCause::NoError);
    assert_eq!(str_to_error("NONE"), ErrorCause::NoError);
}

#[test]
fn test_str_to_node_state_alloc() {
    assert_eq!(str_to_node_state("alloc"), NodeState::Allocated);
    assert_eq!(str_to_node_state("Alloc"), NodeState::Allocated);
    assert_eq!(str_to_node_state("ALLOC"), NodeState::Allocated);
    assert_eq!(str_to_node_state("allocated"), NodeState::Allocated);
    assert_eq!(str_to_node_state("allocated"), NodeState::Allocated);
    assert_eq!(str_to_node_state("ALLOCATED"), NodeState::Allocated);
}

#[test]
fn test_str_to_node_state_completing() {
    assert_eq!(str_to_node_state("completing"), NodeState::Completing);
    assert_eq!(str_to_node_state("Completing"), NodeState::Completing);
    assert_eq!(str_to_node_state("COMPLETING"), NodeState::Completing);
}

#[test]
fn test_str_to_node_state_down() {
    assert_eq!(str_to_node_state("down"), NodeState::Down);
    assert_eq!(str_to_node_state("Down"), NodeState::Down);
    assert_eq!(str_to_node_state("DOWN"), NodeState::Down);
}

#[test]
fn test_str_to_node_state_drained() {
    assert_eq!(str_to_node_state("drained"), NodeState::Drained);
    assert_eq!(str_to_node_state("Drained"), NodeState::Drained);
    assert_eq!(str_to_node_state("DRAINED"), NodeState::Drained);
}

#[test]
fn test_str_to_node_state_draining() {
    assert_eq!(str_to_node_state("draining"), NodeState::Draining);
    assert_eq!(str_to_node_state("Draining"), NodeState::Draining);
    assert_eq!(str_to_node_state("DRAINING"), NodeState::Draining);
}

#[test]
fn test_str_to_node_state_fail() {
    assert_eq!(str_to_node_state("fail"), NodeState::Fail);
    assert_eq!(str_to_node_state("Fail"), NodeState::Fail);
    assert_eq!(str_to_node_state("FAIL"), NodeState::Fail);
}

#[test]
fn test_str_to_node_state_failing() {
    assert_eq!(str_to_node_state("failing"), NodeState::Failing);
    assert_eq!(str_to_node_state("Failing"), NodeState::Failing);
    assert_eq!(str_to_node_state("FAILING"), NodeState::Failing);
}

#[test]
fn test_str_to_node_state_idle() {
    assert_eq!(str_to_node_state("idle"), NodeState::Idle);
    assert_eq!(str_to_node_state("Idle"), NodeState::Idle);
    assert_eq!(str_to_node_state("IDLE"), NodeState::Idle);
}

#[test]
fn test_str_to_node_state_maint() {
    assert_eq!(str_to_node_state("maint"), NodeState::Maint);
    assert_eq!(str_to_node_state("Maint"), NodeState::Maint);
    assert_eq!(str_to_node_state("MAINT"), NodeState::Maint);
}

#[test]
fn test_str_to_node_state_unknown() {
    assert_eq!(str_to_node_state("unknown"), NodeState::Unknown);
    assert_eq!(str_to_node_state("Unknown"), NodeState::Unknown);
    assert_eq!(str_to_node_state("UNKNOWN"), NodeState::Unknown);
}

#[test]
fn test_classify_mixed_case() {
    assert_eq!(str_to_availability("uP"), PartitionAvailability::Up);
    assert_eq!(str_to_node_state("iDLe"), NodeState::Idle);
    assert_eq!(str_to_error("dRaInEd"), ErrorCause::Drained);
}

#[test]
fn test_classify_unrecognized_fallback() {
    assert_eq!(str_to_availability("sideways"), PartitionAvailability::Down);
    assert_eq!(str_to_error("tilted"), ErrorCause::Unknown);
    assert_eq!(str_to_node_state("sleeping"), NodeState::Unknown);
}
