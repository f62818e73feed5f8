//! The manifest format users write.
pub mod knowledge;
pub mod manifest;
pub mod mcp;
pub mod native;
pub mod resources;
pub mod search;
pub mod subagent;
