//! Verified core of the Bony Build desktop client and its change monitor:
//! text utilities, parsers for Git and configuration output, Unity chat
//! command compilation, usage aggregation and change-impact analysis.

pub mod clock;
pub mod json;
pub mod text;
pub mod build;
pub mod monitor;
pub mod desktop;
