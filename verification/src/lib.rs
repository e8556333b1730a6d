//! Process engine for hierarchical development-process tracking.
//!
//! A process is a tree of nested steps, each with inputs, outputs, scope
//! parameters and inter-step links. The engine enforces the step lifecycle
//! state machine, resolves blocking dependencies through a link graph,
//! propagates completion to parent steps, and derives status trees,
//! next-action recommendations, progress metrics and validation reports.

pub mod classify;
pub mod config;
pub mod context;
pub mod engine;
pub mod error;
pub mod fqid;
pub mod graph;
pub mod jsonval;
pub mod link;
pub mod parameter;
pub mod process;
pub mod quality;
pub mod state;
pub mod status;
pub mod step;
pub mod store;
pub mod strutil;
pub mod validation;

use vstd::prelude::*;

verus! {

/// Default configuration folder name.
pub const DEFAULT_CONFIG_DIR: &'static str = ".glow";

/// Default data folder name.
pub const DEFAULT_DATA_DIR: &'static str = "glow";

} // verus!
