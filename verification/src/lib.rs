//! Verified core logic of a terminal coding agent.
use vstd::prelude::*;

pub mod text;
pub mod message;
pub mod context;
pub mod json;
pub mod engine;
pub mod tui;
pub mod permissions;
pub mod tool_executor;
pub mod file_diff;
pub mod hooks;
pub mod subagent;
pub mod planner;
pub mod learning_loop;
pub mod session;
pub mod skills;
pub mod snapshot;
pub mod tools;
pub mod stream;
pub mod memory;
pub mod project_instructions;
pub mod width;
pub mod clock;
pub mod cli;
pub mod mcp;
pub mod provider;

verus! {

} // verus!
