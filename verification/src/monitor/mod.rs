//! The change monitor: the feature catalog, Git history parsing, change
//! impact analysis, the change × capability matrix and the dashboard's
//! architecture and workflow pages.

pub mod catalog;
pub mod features;
pub mod impact;
pub mod git;
pub mod matrix;
pub mod workflow;
pub mod architecture;
pub mod api;
