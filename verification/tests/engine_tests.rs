//! End-to-end tests of the process engine: step lifecycle, dependency
//! resolution, completion propagation, next actions, progress and
//! validation.
//!
//! Completion propagates through a real parent step; the implicit root is
//! deliberately left out of propagation, so the scenarios run inside a
//! `FLOW` process under the root.

use glow_core::config::ProcessConfig;
use glow_core::engine::ProcessEngine;
use glow_core::error::{ErrorCategory, GlowError};
use glow_core::link::LinkDefinition;
use glow_core::parameter::{ParameterRef, ParameterValue};
use glow_core::status::StepStatus;
use glow_core::step::StepDefinition;
use glow_core::validation::{IssueType, Validator};

fn leaf_def(id: &str) -> StepDefinition {
    StepDefinition {
        id: id.to_string(),
        purpose: None,
        classification: None,
        expectations: None,
        template: None,
        inputs: Vec::new(),
        outputs: Vec::new(),
        scope: Vec::new(),
        steps: Vec::new(),
        links: Vec::new(),
        allow_iterations: true,
    }
}

fn param_ref(id: &str, required: bool) -> ParameterRef {
    ParameterRef {
        id: id.to_string(),
        type_ref: None,
        purpose: None,
        is_required: Some(required),
        default_value: None,
        mapping: None,
    }
}

/// A root holding one FLOW process with STEP_A (an output) and STEP_B,
/// which depends on STEP_A.
fn two_step_config() -> ProcessConfig {
    let mut a = leaf_def("STEP_A");
    a.outputs.push(param_ref("A_OUTPUT", true));
    let mut b = leaf_def("STEP_B");
    b.inputs.push(param_ref("A_OUTPUT", false));
    let mut flow = leaf_def("FLOW");
    flow.steps.push(a);
    flow.steps.push(b);
    flow.links.push(LinkDefinition::dependency("STEP_B", "STEP_A"));
    let mut root = StepDefinition::new_root();
    root.steps.push(flow);
    let mut config = ProcessConfig::default();
    config.root_process = root;
    config
}

fn status_of(engine: &ProcessEngine, fqid: &str) -> StepStatus {
    engine.show_step(fqid).unwrap().status()
}

#[test]
fn test_validator_creation() {
    let validator = Validator::new();
    assert_eq!(validator.rules.len(), 4);
}

#[test]
fn test_init_marks_free_child_todo() {
    let mut engine = ProcessEngine::new(two_step_config());
    let flow = engine.init_step("FLOW", vec![], false).unwrap();
    assert_eq!(flow.status(), StepStatus::Todo);
    assert_eq!(status_of(&engine, "FLOW.STEP_A"), StepStatus::Todo);
    assert_eq!(status_of(&engine, "FLOW.STEP_B"), StepStatus::Wait);
}

#[test]
fn test_start_requires_todo() {
    let mut engine = ProcessEngine::new(two_step_config());
    engine.init_step("FLOW", vec![], false).unwrap();

    // a waiting step may not start
    let blocked = engine.start_step("FLOW.STEP_B");
    assert!(matches!(blocked, Err(GlowError::InvalidStateTransition { .. })));

    // an unknown step may not start
    let missing = engine.start_step("NOPE");
    assert!(matches!(missing, Err(GlowError::StepNotFound { .. })));

    // a todo step starts, and only once
    let started = engine.start_step("FLOW.STEP_A").unwrap();
    assert_eq!(started.status(), StepStatus::InProgress);
    let again = engine.start_step("FLOW.STEP_A");
    assert!(matches!(again, Err(GlowError::InvalidStateTransition { .. })));
}

#[test]
fn test_finish_requires_in_progress() {
    let mut engine = ProcessEngine::new(two_step_config());
    engine.init_step("FLOW", vec![], false).unwrap();

    // a todo step may not finish before it starts
    let early = engine.finish_step("FLOW.STEP_A", vec![]);
    assert!(matches!(early, Err(GlowError::InvalidStateTransition { .. })));

    engine.start_step("FLOW.STEP_A").unwrap();
    let finished = engine.finish_step("FLOW.STEP_A", vec![]).unwrap();
    assert_eq!(finished.status(), StepStatus::Done);

    // done is terminal
    let again = engine.finish_step("FLOW.STEP_A", vec![]);
    assert!(matches!(again, Err(GlowError::InvalidStateTransition { .. })));
}

#[test]
fn test_init_step_idempotent_while_in_progress() {
    let mut engine = ProcessEngine::new(two_step_config());
    engine.init_step("FLOW", vec![], false).unwrap();
    engine.start_step("FLOW.STEP_A").unwrap();

    let first = engine.show_step("FLOW.STEP_A").unwrap();
    let re_entered = engine.init_step("FLOW.STEP_A", vec![], false).unwrap();
    assert_eq!(re_entered.status(), StepStatus::InProgress);
    assert_eq!(re_entered.status(), first.status());
    // no side effects: the persisted records are unchanged
    assert_eq!(status_of(&engine, "FLOW.STEP_A"), StepStatus::InProgress);
    assert_eq!(status_of(&engine, "FLOW.STEP_B"), StepStatus::Wait);
}

#[test]
fn test_init_blocked_by_dependencies() {
    let mut engine = ProcessEngine::new(two_step_config());
    engine.init_step("FLOW", vec![], false).unwrap();

    let blocked = engine.init_step("FLOW.STEP_B", vec![], false);
    match blocked {
        Err(GlowError::BlockedByDependencies { step_id, dependencies }) => {
            assert_eq!(step_id, "FLOW.STEP_B");
            assert_eq!(dependencies, vec!["STEP_A"]);
        },
        other => panic!("expected a blocked initialization, got ok={}", other.is_ok()),
    }
}

#[test]
fn test_dependency_chain_promotes_one_level() {
    // STEP_C depends on STEP_B depends on STEP_A, all inside FLOW
    let mut flow = leaf_def("FLOW");
    flow.steps.push(leaf_def("STEP_A"));
    flow.steps.push(leaf_def("STEP_B"));
    flow.steps.push(leaf_def("STEP_C"));
    flow.links.push(LinkDefinition::dependency("STEP_B", "STEP_A"));
    flow.links.push(LinkDefinition::dependency("STEP_C", "STEP_B"));
    let mut root = StepDefinition::new_root();
    root.steps.push(flow);
    let mut config = ProcessConfig::default();
    config.root_process = root;

    let mut engine = ProcessEngine::new(config);
    engine.init_step("FLOW", vec![], false).unwrap();
    assert_eq!(status_of(&engine, "FLOW.STEP_A"), StepStatus::Todo);
    assert_eq!(status_of(&engine, "FLOW.STEP_B"), StepStatus::Wait);
    assert_eq!(status_of(&engine, "FLOW.STEP_C"), StepStatus::Wait);

    engine.start_step("FLOW.STEP_A").unwrap();
    engine.finish_step("FLOW.STEP_A", vec![]).unwrap();
    // the direct dependent is promoted, the transitive one still waits
    assert_eq!(status_of(&engine, "FLOW.STEP_A"), StepStatus::Done);
    assert_eq!(status_of(&engine, "FLOW.STEP_B"), StepStatus::Todo);
    assert_eq!(status_of(&engine, "FLOW.STEP_C"), StepStatus::Wait);
}

#[test]
fn test_parent_completes_when_children_done() {
    let mut feat = leaf_def("FEAT");
    feat.steps.push(leaf_def("T1"));
    feat.steps.push(leaf_def("T2"));
    let mut root = StepDefinition::new_root();
    root.steps.push(feat);
    let mut config = ProcessConfig::default();
    config.root_process = root;

    let mut engine = ProcessEngine::new(config);
    engine.init_step("FEAT", vec![], false).unwrap();
    assert_eq!(status_of(&engine, "FEAT.T1"), StepStatus::Todo);
    assert_eq!(status_of(&engine, "FEAT.T2"), StepStatus::Todo);

    engine.start_step("FEAT.T1").unwrap();
    engine.finish_step("FEAT.T1", vec![]).unwrap();
    assert_ne!(status_of(&engine, "FEAT"), StepStatus::Done);

    engine.start_step("FEAT.T2").unwrap();
    engine.finish_step("FEAT.T2", vec![]).unwrap();
    // the parent becomes done without an explicit finish call on it
    assert_eq!(status_of(&engine, "FEAT"), StepStatus::Done);
}

#[test]
fn test_scope_parameters_gate_todo() {
    let mut step = leaf_def("SCOPED");
    step.scope.push(param_ref("TARGET", true));
    let mut root = StepDefinition::new_root();
    root.steps.push(step);
    let mut config = ProcessConfig::default();
    config.root_process = root;

    let mut engine = ProcessEngine::new(config);
    // without the required scope parameter the step waits
    let waiting = engine.init_step("SCOPED", vec![], false).unwrap();
    assert_eq!(waiting.status(), StepStatus::Wait);

    // with it, the step is ready
    let params = vec![ParameterValue::new(
        "TARGET",
        serde_json::Value::String("v1".to_string()),
    )];
    let ready = engine.init_step("SCOPED", params, false).unwrap();
    assert_eq!(ready.status(), StepStatus::Todo);
}

#[test]
fn test_next_actions_single_todo_child() {
    let mut engine = ProcessEngine::new(two_step_config());
    engine.init_step("FLOW", vec![], false).unwrap();
    engine.start_step("FLOW").unwrap();

    // one Todo child and one Wait child: exactly one recommendation,
    // targeting the Todo child
    let actions = engine.get_next_actions().unwrap();
    assert_eq!(actions.len(), 1);
    assert_eq!(actions[0].fqid, "FLOW.STEP_A");
}

#[test]
fn test_progress_counts_add_up() {
    let mut engine = ProcessEngine::new(two_step_config());
    engine.init_step("FLOW", vec![], false).unwrap();

    let progress = engine.get_progress().unwrap();
    assert_eq!(progress.total, 4);
    assert_eq!(
        progress.wait + progress.todo + progress.in_progress + progress.done,
        progress.total
    );
    assert_eq!(progress.done, 0);
    assert_eq!(progress.completion_percentage(), 0);

    engine.start_step("FLOW.STEP_A").unwrap();
    engine.finish_step("FLOW.STEP_A", vec![]).unwrap();
    let progress = engine.get_progress().unwrap();
    assert_eq!(progress.done, 1);
    assert_eq!(progress.completion_percentage(), 25);
}

#[test]
fn test_completion_percentage_zero_when_empty() {
    let metrics = glow_core::engine::ProgressMetrics::default();
    assert_eq!(metrics.completion_percentage(), 0);
}

#[test]
fn test_validate_reports_cycles() {
    // a cyclic link set is reported
    let mut root = StepDefinition::new_root();
    root.steps.push(leaf_def("A"));
    root.steps.push(leaf_def("B"));
    root.steps.push(leaf_def("C"));
    root.links.push(LinkDefinition::dependency("A", "B"));
    root.links.push(LinkDefinition::dependency("B", "C"));
    root.links.push(LinkDefinition::dependency("C", "A"));
    let mut config = ProcessConfig::default();
    config.root_process = root;
    let mut engine = ProcessEngine::new(config);
    engine.init_step("ROOT", vec![], false).unwrap();

    let report = engine.validate(None).unwrap();
    assert!(!report.is_valid);
    assert!(report.issues.iter().any(|i| matches!(i.issue_type, IssueType::CircularDependency)));

    // an acyclic link set of the same size reports no cycle
    let mut root = StepDefinition::new_root();
    root.steps.push(leaf_def("A"));
    root.steps.push(leaf_def("B"));
    root.steps.push(leaf_def("C"));
    root.links.push(LinkDefinition::dependency("B", "A"));
    root.links.push(LinkDefinition::dependency("C", "B"));
    root.links.push(LinkDefinition::dependency("C", "A"));
    let mut config = ProcessConfig::default();
    config.root_process = root;
    let mut engine = ProcessEngine::new(config);
    engine.init_step("ROOT", vec![], false).unwrap();

    let report = engine.validate(None).unwrap();
    assert!(
        !report.issues.iter().any(|i| matches!(i.issue_type, IssueType::CircularDependency))
    );
}

#[test]
fn test_validate_reports_broken_links() {
    let mut root = StepDefinition::new_root();
    root.steps.push(leaf_def("A"));
    root.links.push(LinkDefinition::dependency("A", "GONE"));
    let mut config = ProcessConfig::default();
    config.root_process = root;
    let mut engine = ProcessEngine::new(config);
    engine.init_step("ROOT", vec![], false).unwrap();

    let report = engine.validate(Some("ROOT")).unwrap();
    assert!(report.issues.iter().any(|i| matches!(i.issue_type, IssueType::BrokenLink)));
}

#[test]
fn test_validate_reports_missing_required_output() {
    let mut engine = ProcessEngine::new(two_step_config());
    engine.init_step("FLOW", vec![], false).unwrap();
    engine.start_step("FLOW.STEP_A").unwrap();
    // finish without the required A_OUTPUT
    engine.finish_step("FLOW.STEP_A", vec![]).unwrap();

    let report = engine.validate(Some("FLOW.STEP_A")).unwrap();
    assert!(!report.is_valid);
    assert!(report.issues.iter().any(|i| matches!(i.issue_type, IssueType::MissingParameter)));
    assert!(report.issues.iter().any(|i| i.message.contains("A_OUTPUT")));
}

#[test]
fn test_full_scenario_two_steps() {
    let mut engine = ProcessEngine::new(two_step_config());

    // initializing the parent yields STEP_A=Todo, STEP_B=Wait
    engine.init_step("ROOT", vec![], false).unwrap();
    engine.init_step("FLOW", vec![], false).unwrap();
    assert_eq!(status_of(&engine, "FLOW.STEP_A"), StepStatus::Todo);
    assert_eq!(status_of(&engine, "FLOW.STEP_B"), StepStatus::Wait);

    // starting and finishing STEP_A with its output yields
    // STEP_A=Done, STEP_B=Todo
    engine.start_step("FLOW.STEP_A").unwrap();
    let outputs = vec![ParameterValue::new(
        "A_OUTPUT",
        serde_json::Value::String("result".to_string()),
    )];
    engine.finish_step("FLOW.STEP_A", outputs).unwrap();
    assert_eq!(status_of(&engine, "FLOW.STEP_A"), StepStatus::Done);
    assert_eq!(status_of(&engine, "FLOW.STEP_B"), StepStatus::Todo);

    // the recorded output survives a read back through the store
    let done = engine.show_step("FLOW.STEP_A").unwrap();
    let out = done.get_output("A_OUTPUT").unwrap();
    assert_eq!(out.value, Some(serde_json::Value::String("result".to_string())));

    let report = engine.validate(None).unwrap();
    assert!(report.is_valid);
}

#[test]
fn test_quality_assessment() {
    let mut engine = ProcessEngine::new(two_step_config());
    engine.init_step("ROOT", vec![], false).unwrap();
    engine.init_step("FLOW", vec![], false).unwrap();
    let q = glow_core::quality::assess_quality(&engine, None).unwrap();
    assert!(q.is_consistent);
    assert!(q.has_semantic_connection);
    assert_eq!(q.completeness, q.validation.completeness);
}

#[test]
fn test_error_categories_and_exit_codes() {
    let not_found = GlowError::StepNotFound { fqid: "X".to_string() };
    assert_eq!(not_found.category(), ErrorCategory::NotFound);
    assert_eq!(not_found.exit_code(), 4);
    assert_eq!(ErrorCategory::NotFound.name(), "NOT_FOUND");

    let blocked = GlowError::BlockedByDependencies {
        step_id: "X".to_string(),
        dependencies: vec!["Y".to_string()],
    };
    assert_eq!(blocked.category(), ErrorCategory::State);
    assert_eq!(blocked.exit_code(), 3);
    assert_eq!(ErrorCategory::State.name(), "STATE_ERROR");

    let cycle = GlowError::CircularDependency { cycle: vec![] };
    assert_eq!(cycle.category(), ErrorCategory::Process);
    assert_eq!(cycle.exit_code(), 7);
    assert_eq!(ErrorCategory::Io.exit_code(), 5);
    assert_eq!(ErrorCategory::Parse.exit_code(), 6);
    assert_eq!(ErrorCategory::Config.exit_code(), 1);
    assert_eq!(ErrorCategory::Validation.exit_code(), 2);
    assert_eq!(ErrorCategory::Quality.exit_code(), 8);
}

#[test]
fn test_status_tree_shape() {
    let mut engine = ProcessEngine::new(two_step_config());
    engine.init_step("FLOW", vec![], false).unwrap();
    let tree = engine.get_status_tree().unwrap();
    assert_eq!(tree.id, "ROOT");
    assert_eq!(tree.fqid, "ROOT");
    // the root has no record of its own yet
    assert_eq!(tree.status, StepStatus::Wait);
    assert_eq!(tree.children.len(), 1);
    assert_eq!(tree.children[0].fqid, "FLOW");
    assert_eq!(tree.children[0].children.len(), 2);
    assert_eq!(tree.children[0].children[0].fqid, "FLOW.STEP_A");
    assert_eq!(tree.children[0].children[0].status, StepStatus::Todo);
    assert_eq!(tree.children[0].children[1].status, StepStatus::Wait);
}

#[test]
fn test_unknown_step_not_found() {
    let mut engine = ProcessEngine::new(two_step_config());
    let missing = engine.init_step("UNKNOWN", vec![], false);
    assert!(matches!(missing, Err(GlowError::StepNotFound { .. })));
}
