//! The desktop client: Unity chat control, Git worktree status, model
//! configuration, task metadata, Markdown helpers and token usage.

pub mod unity;
pub mod git_workspace;
pub mod usage;
pub mod events;
pub mod config;
pub mod markdown;
pub mod task;
pub mod model;
pub mod bridge;
pub mod charts;
pub mod unity_state;
pub mod display;
pub mod composer;
