//! Tests for the step state machine and the state manager.

use glow_core::state::StateManager;
use glow_core::status::StepStatus;

#[test]
fn test_step_status_transitions() {
    assert!(StepStatus::Wait.can_transition_to(StepStatus::Todo));
    assert!(!StepStatus::Wait.can_transition_to(StepStatus::Done));
    assert!(StepStatus::Todo.can_transition_to(StepStatus::InProgress));
    assert!(StepStatus::InProgress.can_transition_to(StepStatus::Done));
    assert!(StepStatus::InProgress.can_transition_to(StepStatus::Todo)); // Rollback
    assert!(!StepStatus::Done.can_transition_to(StepStatus::InProgress));
}

#[test]
fn test_step_status_display() {
    assert_eq!(StepStatus::Wait.as_str(), "wait");
    assert_eq!(StepStatus::InProgress.as_str(), "in-progress");
}

#[test]
fn test_step_status_parse() {
    assert_eq!(StepStatus::parse("wait").unwrap(), StepStatus::Wait);
    assert_eq!(StepStatus::parse("in-progress").unwrap(), StepStatus::InProgress);
}

#[test]
fn test_status_parse_all_spellings() {
    assert_eq!(StepStatus::parse("todo"), Some(StepStatus::Todo));
    assert_eq!(StepStatus::parse("done"), Some(StepStatus::Done));
    assert_eq!(StepStatus::parse("inprogress"), Some(StepStatus::InProgress));
    assert_eq!(StepStatus::parse("in_progress"), Some(StepStatus::InProgress));
    assert_eq!(StepStatus::parse("unknown"), None);
}

#[test]
fn test_valid_transitions() {
    let sm = StateManager::new();

    assert!(sm.validate_transition(StepStatus::Wait, StepStatus::Todo).is_ok());
    assert!(sm.validate_transition(StepStatus::Todo, StepStatus::InProgress).is_ok());
    assert!(sm.validate_transition(StepStatus::InProgress, StepStatus::Done).is_ok());
}

#[test]
fn test_invalid_transitions() {
    let sm = StateManager::new();

    assert!(sm.validate_transition(StepStatus::Wait, StepStatus::Done).is_err());
    assert!(sm.validate_transition(StepStatus::Done, StepStatus::Wait).is_err());
}

#[test]
fn test_active_tracking() {
    let mut sm = StateManager::new();

    sm.mark_active("FEAT-001");
    assert!(sm.is_active("FEAT-001"));

    sm.mark_inactive("FEAT-001");
    assert!(!sm.is_active("FEAT-001"));
}

#[test]
fn test_valid_transitions_list() {
    assert_eq!(StepStatus::Wait.valid_transitions(), vec![StepStatus::Todo]);
    assert_eq!(
        StepStatus::InProgress.valid_transitions(),
        vec![StepStatus::Done, StepStatus::Todo]
    );
    assert!(StepStatus::Done.valid_transitions().is_empty());
}

#[test]
fn test_status_predicates() {
    assert!(StepStatus::Done.is_complete());
    assert!(StepStatus::InProgress.is_active());
    assert!(StepStatus::Wait.is_blocked());
    assert!(!StepStatus::Todo.is_complete());
}
