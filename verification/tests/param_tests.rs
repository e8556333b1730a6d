//! Tests for parameters, content values, set values and ranges.

use glow_core::parameter::{ContentValue, DataType, ParameterValue, RangeValue, SetValue};

#[test]
fn test_data_type_display() {
    assert_eq!(DataType::Str.as_str(), "STR");
    assert_eq!(DataType::Content.as_str(), "CONTENT");
}

#[test]
fn test_content_value_markdown() {
    let content = ContentValue::new("./docs/design.md").with_title("Specification");
    assert_eq!(content.to_markdown_link(), "[Specification](./docs/design.md)");
}

#[test]
fn test_content_value_markdown_without_title() {
    let content = ContentValue::new("./a.md");
    assert_eq!(content.to_markdown_link(), "[./a.md](./a.md)");
    let with_mime = ContentValue::new("./b.bin").with_mime("application/octet-stream");
    assert_eq!(with_mime.mime.as_deref(), Some("application/octet-stream"));
}

#[test]
fn test_set_value_depth() {
    assert_eq!(SetValue::new("1", "Value 1").depth(), 1);
    assert_eq!(SetValue::new("1.1", "Value 1.1").depth(), 2);
    assert_eq!(SetValue::new("1.2.3", "Value 1.2.3").depth(), 3);
}

#[test]
fn test_set_value_hierarchy() {
    let parent = SetValue::new("1", "Parent");
    let child = SetValue::new("1.1", "Child");

    assert!(parent.is_parent_of("1.1"));
    assert!(parent.is_parent_of("1.2.3"));
    assert!(!parent.is_parent_of("2"));

    assert!(child.is_child_of("1"));
    assert!(!child.is_child_of("2"));
}

#[test]
fn test_range_contains() {
    let range = RangeValue::new(1, 10);
    assert!(range.contains(&5));
    assert!(range.contains(&1));
    assert!(range.contains(&10));
    assert!(!range.contains(&0));
    assert!(!range.contains(&11));
}

#[test]
fn test_parameter_value_presence() {
    let valued = ParameterValue::new("REQ", serde_json::Value::String("REQ-001".to_string()));
    assert!(valued.has_value());
    assert_eq!(valued.id, "REQ");

    let empty = ParameterValue::empty("OUT");
    assert!(!empty.has_value());
    assert_eq!(empty.id, "OUT");
}

#[test]
fn test_parameter_value_clone_keeps_value() {
    let original = ParameterValue::new("NUM", serde_json::Value::from(42i64));
    let copy = original.clone();
    assert_eq!(copy.value, original.value);
    assert_eq!(copy.id, original.id);
}

#[test]
fn test_data_type_default() {
    assert_eq!(DataType::default(), DataType::Str);
    assert_eq!(DataType::RangeInt.as_str(), "RANGE_INT");
    assert_eq!(DataType::CodedSet.as_str(), "SET");
}
