use vstd::prelude::*;

pub mod agent;
pub mod app;
pub mod artifact_store;
pub mod clock;
pub mod command;
pub mod config;
pub mod context;
pub mod controller;
pub mod diff_history;
pub mod edit;
pub mod event;
pub mod mcp;
pub mod mission;
pub mod model;
pub mod paths;
pub mod permission_policy;
pub mod project_context;
pub mod provider;
pub mod providers;
pub mod self_improve;
pub mod session;
pub mod setup;
pub mod skill;
pub mod text;
pub mod tool_activity;
pub mod tools;
pub mod tui;
pub mod tool_event;
pub mod tool_output;
pub mod tool_results;
pub mod utf8_len;

verus! {

} // verus!
