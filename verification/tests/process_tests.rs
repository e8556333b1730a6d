//! Tests for processes, iterations, counts and configuration defaults.

use glow_core::config::{Config, ProcessConfig};
use glow_core::process::{Iteration, Process, StatusCounts};
use glow_core::status::StepStatus;
use glow_core::step::StepDefinition;

fn leaf_def(id: &str) -> StepDefinition {
    StepDefinition {
        id: id.to_string(),
        purpose: None,
        classification: None,
        expectations: None,
        template: None,
        inputs: Vec::new(),
        outputs: Vec::new(),
        scope: Vec::new(),
        steps: Vec::new(),
        links: Vec::new(),
        allow_iterations: true,
    }
}

#[test]
fn test_iteration_folder_name() {
    let iter = Iteration { number: 1, steps: Vec::new(), summary: None, is_complete: false };
    assert_eq!(iter.folder_name(), "iteration_000001");

    let iter = Iteration { number: 42, steps: Vec::new(), summary: None, is_complete: false };
    assert_eq!(iter.folder_name(), "iteration_000042");
}

#[test]
fn test_config_default() {
    let config = Config::default();
    assert_eq!(config.version, "0.1.0");
    assert_eq!(config.data_folder, "glow");
}

#[test]
fn test_config_new_and_data_dir() {
    let config = Config::new("Test Project");
    assert_eq!(config.project_name.as_deref(), Some("Test Project"));
    assert_eq!(config.data_dir("/tmp/proj"), "/tmp/proj/glow");
}

#[test]
fn test_process_config_default_shape() {
    let pc = ProcessConfig::default();
    assert_eq!(pc.root_process.id, "ROOT");
    assert!(pc.classifications.is_empty());
    assert!(pc.root_process.is_task());
}

#[test]
fn test_process_lifecycle() {
    let def = StepDefinition::new_root();
    let mut process = Process::from_definition(&def, None);
    assert_eq!(process.fqid(), "ROOT");
    assert_eq!(process.current_iteration, 0);
    assert!(!process.has_started());
    assert!(process.current_iteration_data().is_none());

    process.start_new_iteration();
    assert!(process.has_started());
    assert_eq!(process.current_iteration, 1);
    assert!(process.current_iteration_data().is_some());
}

#[test]
fn test_status_counts_totals() {
    let mut counts = StatusCounts::default();
    counts.done = 3;
    counts.wait = 2;
    assert_eq!(counts.total(), 5);
    assert_eq!(counts.completion_percentage(), 60);

    let empty = StatusCounts::default();
    assert_eq!(empty.total(), 0);
    assert_eq!(empty.completion_percentage(), 0);
}

#[test]
fn test_iteration_queries() {
    let mut it = Iteration { number: 1, steps: Vec::new(), summary: None, is_complete: false };
    let a = glow_core::step::Step::from_definition(&leaf_def("A"), Some("ROOT"));
    let mut b = glow_core::step::Step::from_definition(&leaf_def("B"), Some("ROOT"));
    b.attr.status = StepStatus::Done;
    it.steps.push(a);
    it.steps.push(b);

    assert!(!it.all_steps_complete());
    let counts = it.count_by_status();
    assert_eq!(counts.wait, 1);
    assert_eq!(counts.done, 1);
    assert_eq!(counts.total(), 2);
    assert_eq!(it.blocked_steps().len(), 1);
    assert_eq!(it.ready_steps().len(), 0);
    assert!(it.find_step("A").is_some());
    assert!(it.find_step("C").is_none());
}

#[test]
fn test_step_definition_shape() {
    let mut def = StepDefinition::new_root();
    assert!(!def.is_process());
    def.steps.push(leaf_def("CHILD"));
    assert!(def.is_process());
    assert!(def.find_step("CHILD").is_some());
    assert!(def.find_step("MISSING").is_none());
    assert_eq!(def.all_step_ids(), vec!["CHILD"]);
}
