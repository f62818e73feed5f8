//! MCP server configuration as the agent file holds it.
use vstd::prelude::*;
use crate::map::StringMap;
use crate::kg_config::mcp::{KgCustomToolConfig, McpServerState};

verus! {

/// An MCP server as the agent file holds it.
#[derive(Debug, Eq, PartialEq)]
pub struct CustomToolConfig {
    /// The URL for HTTP-based MCP server communication
    pub url: String,
    /// HTTP headers to include when communicating with HTTP-based MCP servers
    pub headers: StringMap<String>,
    /// The command string used to initialize the mcp server
    pub command: String,
    /// A list of arguments to be used to run the command with
    pub args: Vec<String>,
    /// A list of environment variables to run the command with
    pub env: StringMap<String>,
    /// Timeout for each mcp request in ms
    pub timeout: Option<u64>,
    /// Whether not to load this server
    pub disabled: Option<bool>,
}

/// The `disabled` flag for a declared state: disabled and hidden servers
/// are disabled; no state gives no flag.
pub open spec fn disabled_of(state: Option<McpServerState>) -> Option<bool> {
    match state {
        Some(s) => Some(s == McpServerState::Disabled || s == McpServerState::Hide),
        None => None,
    }
}

impl CustomToolConfig {
    /// The agent-file form of a declared server: every field carries over,
    /// and the state becomes the `disabled` flag.
    pub fn from_kg(kg: KgCustomToolConfig) -> (r: Self)
        ensures
            r.url == kg.url,
            r.headers@ == kg.headers@,
            r.command == kg.command,
            r.args@ == kg.args@,
            r.env@ == kg.env@,
            r.timeout == kg.timeout,
            r.disabled == disabled_of(kg.state),
    {
        CustomToolConfig {
            url: kg.url,
            headers: kg.headers,
            command: kg.command,
            args: kg.args,
            env: kg.env,
            timeout: kg.timeout,
            disabled: match kg.state {
                Some(s) => Some(s.is_disabled()),
                None => None,
            },
        }
    }

    /// A server configuration with the same contents.
    pub fn duplicate(&self) -> (r: Self)
        ensures
            r.url == self.url,
            r.headers@ == self.headers@,
            r.command == self.command,
            r.args@ == self.args@,
            r.env@ == self.env@,
            r.timeout == self.timeout,
            r.disabled == self.disabled,
    {
        CustomToolConfig {
            url: self.url.clone(),
            headers: self.headers.duplicate(),
            command: self.command.clone(),
            args: crate::kg_config::mcp::clone_strings(&self.args),
            env: self.env.duplicate(),
            timeout: self.timeout,
            disabled: self.disabled,
        }
    }
}

impl From<KgCustomToolConfig> for CustomToolConfig {
    fn from(kg: KgCustomToolConfig) -> (r: Self)
        ensures
            r.url == kg.url,
            r.headers@ == kg.headers@,
            r.command == kg.command,
            r.args@ == kg.args@,
            r.env@ == kg.env@,
            r.timeout == kg.timeout,
            r.disabled == disabled_of(kg.state),
    {
        Self::from_kg(kg)
    }
}

impl vstd::std_specs::convert::FromSpecImpl<KgCustomToolConfig> for CustomToolConfig {
    /// The conversion is stated on `from` itself, over the map views.
    open spec fn obeys_from_spec() -> bool {
        false
    }

    open spec fn from_spec(kg: KgCustomToolConfig) -> Self {
        arbitrary()
    }
}

impl Clone for CustomToolConfig {
    fn clone(&self) -> (r: Self)
        ensures
            r.url == self.url,
            r.headers@ == self.headers@,
            r.command == self.command,
            r.args@ == self.args@,
            r.env@ == self.env@,
            r.timeout == self.timeout,
            r.disabled == self.disabled,
    {
        self.duplicate()
    }
}

impl Default for CustomToolConfig {
    fn default() -> (r: Self)
        ensures
            r.url@.len() == 0,
            r.headers@ == Map::<Seq<char>, String>::empty(),
            r.command@.len() == 0,
            r.args@.len() == 0,
            r.env@ == Map::<Seq<char>, String>::empty(),
            r.timeout is None,
            r.disabled is None,
    {
        CustomToolConfig {
            url: String::new(),
            headers: StringMap::new(),
            command: String::new(),
            args: Vec::new(),
            env: StringMap::new(),
            timeout: None,
            disabled: None,
        }
    }
}

} // verus!
