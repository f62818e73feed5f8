//! The legacy agent format: MCP servers, hooks and built-in tool settings
//! as that format holds them.
pub mod custom_tool;
pub mod hook;
pub mod tools;
pub mod mcp_config;
pub mod wrapper_types;
