//! Tests for the resource URI shapes and error codes the protocol surface
//! relies on.

const PARSE_ERROR: i32 = -32700;
const INVALID_REQUEST: i32 = -32600;
const METHOD_NOT_FOUND: i32 = -32601;
const INVALID_PARAMS: i32 = -32602;
const INTERNAL_ERROR: i32 = -32603;

#[test]
fn test_project_status_uri() {
    let uri = "glow://project/status";
    assert!(uri.starts_with("glow://"));
    assert!(uri.contains("project"));
    assert!(uri.contains("status"));
}

#[test]
fn test_step_uri_format() {
    let fqid = "FEAT-001.REQ-001";
    let uri = format!("glow://step/{}", fqid);
    assert_eq!(uri, "glow://step/FEAT-001.REQ-001");
}

#[test]
fn test_step_uri_parsing() {
    let uri = "glow://step/ROOT";
    let fqid = uri.strip_prefix("glow://step/").unwrap();
    assert_eq!(fqid, "ROOT");
}

#[test]
fn test_nested_step_uri() {
    let uri = "glow://step/ROOT.FEAT-001.TASK-001";
    let fqid = uri.strip_prefix("glow://step/").unwrap();
    let parts: Vec<&str> = fqid.split('.').collect();
    assert_eq!(parts.len(), 3);
    assert_eq!(parts[0], "ROOT");
    assert_eq!(parts[1], "FEAT-001");
    assert_eq!(parts[2], "TASK-001");
}

#[test]
fn test_method_not_found_code() {
    assert_eq!(METHOD_NOT_FOUND, -32601);
}

#[test]
fn test_invalid_params_code() {
    assert_eq!(INVALID_PARAMS, -32602);
}

#[test]
fn test_internal_error_code() {
    assert_eq!(INTERNAL_ERROR, -32603);
}

#[test]
fn test_parse_error_code() {
    assert_eq!(PARSE_ERROR, -32700);
}

#[test]
fn test_invalid_request_code() {
    assert_eq!(INVALID_REQUEST, -32600);
}

#[test]
fn test_fqid_helpers_match_uri_parsing() {
    assert_eq!(glow_core::fqid::parent_fqid("FEAT-001.REQ-001").as_deref(), Some("FEAT-001"));
    assert_eq!(glow_core::fqid::parent_fqid("FEAT-001").as_deref(), Some("ROOT"));
    assert_eq!(glow_core::fqid::parent_fqid("ROOT"), None);
    assert_eq!(glow_core::fqid::leaf_id("FEAT-001.REQ-001"), "REQ-001");
    assert_eq!(glow_core::fqid::child_fqid("ROOT", "FEAT-001"), "FEAT-001");
    assert_eq!(glow_core::fqid::child_fqid("FEAT-001", "REQ-001"), "FEAT-001.REQ-001");
}
