//! The MCP servers of the legacy agent format, by name.
use vstd::prelude::*;
use crate::map::StringMap;
use crate::agent::custom_tool::CustomToolConfig;

verus! {

/// MCP servers by name.
#[derive(Debug)]
pub struct McpServerConfig {
    pub mcp_servers: StringMap<CustomToolConfig>,
}

} // verus!
