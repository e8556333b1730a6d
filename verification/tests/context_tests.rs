//! Tests for execution contexts and derivation mappings.

use glow_core::context::{ContextBuilder, LinkContext};
use glow_core::parameter::ParameterValue;
use glow_core::step::{Step, StepDefinition};

fn text(v: &str) -> serde_json::Value {
    serde_json::Value::String(v.to_string())
}

#[test]
fn test_resolve_mappings() {
    let builder = ContextBuilder::new()
        .with_input(ParameterValue::new("REQ", text("REQ-001")))
        .with_scope(ParameterValue::new("DESC", text("description")));

    assert_eq!(builder.resolve_mappings("input.REQ"), Some(text("REQ-001")));
    assert_eq!(builder.resolve_mappings("scope.DESC"), Some(text("description")));
    assert_eq!(builder.resolve_mappings("unknown.PARAM"), None);
}

#[test]
fn test_resolve_mappings_through_links() {
    let link = LinkContext {
        step_id: "REQ-001".to_string(),
        inputs: vec![ParameterValue::new("GOAL", text("ship"))],
        outputs: vec![ParameterValue::new("ACCEPTANCE_CRITERIA", text("covered"))],
    };
    let builder = ContextBuilder::new().with_link(link);

    assert_eq!(
        builder.resolve_mappings("links.REQ-001.output.ACCEPTANCE_CRITERIA"),
        Some(text("covered"))
    );
    assert_eq!(builder.resolve_mappings("links.REQ-001.input.GOAL"), Some(text("ship")));
    assert_eq!(builder.resolve_mappings("links.REQ-001.scope.GOAL"), None);
    assert_eq!(builder.resolve_mappings("links.MISSING.output.X"), None);
}

#[test]
fn test_build_for_step_fills_step() {
    let def = StepDefinition {
        id: "TASK".to_string(),
        purpose: None,
        classification: None,
        expectations: None,
        template: None,
        inputs: Vec::new(),
        outputs: Vec::new(),
        scope: Vec::new(),
        steps: Vec::new(),
        links: Vec::new(),
        allow_iterations: true,
    };
    let mut step = Step::from_definition(&def, Some("ROOT"));
    let builder = ContextBuilder::new()
        .with_input(ParameterValue::new("REQ", text("REQ-001")))
        .with_link(LinkContext {
            step_id: "REQ-001".to_string(),
            inputs: Vec::new(),
            outputs: Vec::new(),
        });
    builder.build_for_step(&mut step);

    assert_eq!(step.input.len(), 1);
    assert_eq!(step.input[0].id, "REQ");
    assert_eq!(step.links.len(), 1);
    assert_eq!(step.links[0].step_id, "REQ-001");
    assert_eq!(step.links[0].link_type, "dependency");
}
