//! Host library for a plugin-based monitoring and automation platform.
//!
//! The crate models the host side of a dynamically loaded plugin system:
//! telemetry events and their store, the bridges that attribute plugin
//! telemetry, discovery of plugin artifacts, the gateway that proxies
//! requests to plugin HTTP APIs, and a workflow engine that executes
//! graph-shaped monitoring flows.

use vstd::prelude::*;

pub mod abi;
pub mod dbconf;
pub mod discovery;
pub mod engine;
pub mod gateway;
pub mod graph;
pub mod json;
pub mod notify;
pub mod store;
pub mod strutil;
pub mod telemetry;
pub mod template;

verus! {

pub use strutil::StrMap;
pub use template::apply_vars;
pub use json::{JsonValue, get_json_path_str};
pub use engine::{EngineKind, WorkflowDefinition, WorkflowEngineRunner, StartResult};

} // verus!
