//! The standalone desktop client: its messages, the decisions of its agent
//! bridge and how it reads Markdown.

pub mod events;
pub mod bridge;
pub mod markdown;
pub mod fonts;
