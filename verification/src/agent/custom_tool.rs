//! An MCP server as the legacy agent format holds it.
use vstd::prelude::*;
use crate::map::StringMap;
use crate::kiro::hook::prefer;

verus! {

/// An MCP server: how to reach or start it, and whether to load it.
#[derive(Debug)]
pub struct CustomToolConfig {
    /// The URL for HTTP-based MCP server communication
    pub url: String,
    /// HTTP headers to include when communicating with HTTP-based MCP servers
    pub headers: StringMap<String>,
    /// The command string used to initialize the mcp server
    pub command: String,
    /// A list of arguments to be used to run the command with
    pub args: Vec<String>,
    /// A list of environment variables to run the command with
    pub env: StringMap<String>,
    /// Timeout for each mcp request in ms
    pub timeout: Option<u64>,
    /// A boolean flag to denote whether or not to load this mcp server
    pub disabled: bool,
}

/// The contents of an MCP server's settings.
pub struct CustomToolConfigView {
    pub url: Seq<char>,
    pub headers: Map<Seq<char>, String>,
    pub command: Seq<char>,
    pub args: Seq<String>,
    pub env: Map<Seq<char>, String>,
    pub timeout: Option<u64>,
    pub disabled: bool,
}

impl View for CustomToolConfig {
    type V = CustomToolConfigView;

    open spec fn view(&self) -> CustomToolConfigView {
        CustomToolConfigView {
            url: self.url@,
            headers: self.headers@,
            command: self.command@,
            args: self.args@,
            env: self.env@,
            timeout: self.timeout,
            disabled: self.disabled,
        }
    }
}

/// What a child's server settings become when merged with its parent's:
/// the child's timeout, URL and command win where set (non-empty); the
/// server is disabled when either disables it; the arguments are the
/// child's followed by the parent's; environment variables and headers are
/// united, the child's value winning on a shared name.
pub open spec fn custom_tool_merged(c: CustomToolConfigView, p: CustomToolConfigView) -> CustomToolConfigView {
    CustomToolConfigView {
        url: if c.url.len() == 0 { p.url } else { c.url },
        headers: p.headers.union_prefer_right(c.headers),
        command: if c.command.len() == 0 { p.command } else { c.command },
        args: c.args + p.args,
        env: p.env.union_prefer_right(c.env),
        timeout: prefer(c.timeout, p.timeout),
        disabled: c.disabled || p.disabled,
    }
}

impl CustomToolConfig {
    /// Merges this (child) server's settings with the parent's `other`.
    pub fn merge(self, other: Self) -> (r: Self)
        ensures
            r@ == custom_tool_merged(self@, other@),
    {
        let mut s = self;
        s.timeout = match s.timeout {
            Some(t) => Some(t),
            None => other.timeout,
        };
        s.disabled = s.disabled || other.disabled;
        if s.url.as_str().unicode_len() == 0 {
            s.url = other.url;
        }
        if s.command.as_str().unicode_len() == 0 {
            s.command = other.command;
        }
        let mut other_args = other.args;
        s.args.append(&mut other_args);
        let mut env = other.env;
        std::mem::swap(&mut env, &mut s.env);
        s.env.extend(env);
        let mut headers = other.headers;
        std::mem::swap(&mut headers, &mut s.headers);
        s.headers.extend(headers);
        s
    }
}

impl Default for CustomToolConfig {
    fn default() -> (r: Self)
        ensures
            r@.url.len() == 0,
            r@.headers == Map::<Seq<char>, String>::empty(),
            r@.command.len() == 0,
            r@.args.len() == 0,
            r@.env == Map::<Seq<char>, String>::empty(),
            r@.timeout is None,
            !r@.disabled,
    {
        CustomToolConfig {
            url: String::new(),
            headers: StringMap::new(),
            command: String::new(),
            args: Vec::new(),
            env: StringMap::new(),
            timeout: None,
            disabled: false,
        }
    }
}

impl Clone for CustomToolConfig {
    fn clone(&self) -> (r: Self)
        ensures
            r@ == self@,
    {
        CustomToolConfig {
            url: self.url.clone(),
            headers: self.headers.duplicate(),
            command: self.command.clone(),
            args: self.args.clone(),
            env: self.env.duplicate(),
            timeout: self.timeout,
            disabled: self.disabled,
        }
    }
}

} // verus!
