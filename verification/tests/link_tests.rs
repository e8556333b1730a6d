//! Tests for link definitions and the dependency graph.

use glow_core::link::{Link, LinkDefinition, LinkType};
use glow_core::graph::LinkGraph;

#[test]
fn test_link_definition_dependency() {
    let link = LinkDefinition::dependency("TASK-001", "REQ-001");
    assert_eq!(link.link_type, "dependency");
    assert_eq!(link.from, "TASK-001");
    assert_eq!(link.to, "REQ-001");
    assert!(link.is_blocking());
}

#[test]
fn test_link_graph_no_cycle() {
    let links = vec![
        LinkDefinition::dependency("TASK-001", "REQ-001"),
        LinkDefinition::dependency("TASK-001", "REQ-002"),
        LinkDefinition::dependency("REQ-002", "REQ-001"),
    ];
    let graph = LinkGraph::from_links(&links);
    assert!(!graph.has_cycle());
}

#[test]
fn test_link_graph_with_cycle() {
    let links = vec![
        LinkDefinition::dependency("A", "B"),
        LinkDefinition::dependency("B", "C"),
        LinkDefinition::dependency("C", "A"),
    ];
    let graph = LinkGraph::from_links(&links);
    assert!(graph.has_cycle());
}

#[test]
fn test_link_graph_dependencies() {
    let links = vec![
        LinkDefinition::dependency("TASK", "REQ-001"),
        LinkDefinition::dependency("TASK", "REQ-002"),
        LinkDefinition::dependency("REQ-002", "REQ-001"),
    ];
    let graph = LinkGraph::from_links(&links);

    let deps = graph.get_dependencies("TASK");
    assert!(deps.contains(&"REQ-001".to_string()));
    assert!(deps.contains(&"REQ-002".to_string()));
}

#[test]
fn test_link_graph_dependents() {
    let links = vec![
        LinkDefinition::dependency("TASK-001", "REQ-001"),
        LinkDefinition::dependency("TASK-002", "REQ-001"),
    ];
    let graph = LinkGraph::from_links(&links);

    let dependents = graph.get_dependents("REQ-001");
    assert!(dependents.contains(&"TASK-001".to_string()));
    assert!(dependents.contains(&"TASK-002".to_string()));
}

#[test]
fn test_find_cycle_path_is_closed() {
    let links = vec![
        LinkDefinition::dependency("A", "B"),
        LinkDefinition::dependency("B", "C"),
        LinkDefinition::dependency("C", "A"),
    ];
    let graph = LinkGraph::from_links(&links);
    let cycle = graph.find_cycle().unwrap();
    assert!(cycle.len() >= 2);
    assert_eq!(cycle.first(), cycle.last());
}

#[test]
fn test_transitive_dependencies_follow_chains() {
    let links = vec![
        LinkDefinition::dependency("C", "B"),
        LinkDefinition::dependency("B", "A"),
    ];
    let graph = LinkGraph::from_links(&links);
    let deps = graph.get_dependencies("C");
    assert!(deps.contains(&"B".to_string()));
    assert!(deps.contains(&"A".to_string()));
    assert_eq!(deps.len(), 2);
    assert!(graph.get_dependencies("A").is_empty());
}

#[test]
fn test_link_types_and_resolution() {
    let dep = LinkType::dependency();
    assert_eq!(dep.id, "dependency");
    assert!(dep.is_blocking);
    let pre = LinkType::predecessor();
    assert_eq!(pre.id, "predecessor");
    assert!(pre.is_blocking);

    let custom = LinkDefinition {
        link_type: "references".to_string(),
        from: "A".to_string(),
        to: "B".to_string(),
    };
    assert!(!custom.is_blocking());
    let link = Link::from_definition(custom, &Vec::new());
    assert!(!link.link_type.is_blocking);
    assert!(!link.is_satisfied);
    assert_eq!(link.from_step(), "A");
    assert_eq!(link.to_step(), "B");
}
