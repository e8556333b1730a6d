//! Tests for classification parsing and matching.

use glow_core::classify::{match_classification, parse_classification};

#[test]
fn test_parse_classification() {
    let result = parse_classification("Feature, Backend, Must");
    assert_eq!(result, vec!["Feature", "Backend", "Must"]);
}

#[test]
fn test_match_classification_exact() {
    assert!(match_classification("Feature,Backend,Must", "Feature,Backend,Must"));
    assert!(!match_classification("Feature,Backend,Must", "Task,Backend,Must"));
}

#[test]
fn test_match_classification_wildcard() {
    assert!(match_classification("Feature,Backend,Must", "*,Backend,Must"));
    assert!(match_classification("Feature,Backend,Must", "Feature,*,Must"));
    assert!(match_classification("Feature,Backend,Must", "*,*,*"));
}

#[test]
fn test_match_classification_alternatives() {
    assert!(match_classification("Feature,Backend,Must", "Feature|Task,Backend,Must"));
    assert!(match_classification("Task,Backend,Must", "Feature|Task,Backend,Must"));
    assert!(!match_classification("Requirement,Backend,Must", "Feature|Task,Backend,Must"));
}

#[test]
fn test_match_classification_dimension_count() {
    assert!(!match_classification("Feature,Backend", "Feature,Backend,Must"));
    assert!(match_classification(" Feature , Backend ", "Feature,Backend"));
}
