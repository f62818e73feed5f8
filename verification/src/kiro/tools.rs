//! Settings of the agent's built-in tools.
use vstd::prelude::*;
use crate::set::{StringSet, views, sorted_strict};

verus! {

/// The built-in tools that carry settings.
#[derive(Debug, Clone, Copy, Eq, PartialEq, Hash, Structural)]
pub enum ToolTarget {
    Aws,
    Shell,
    Read,
    Write,
}

impl ToolTarget {
    /// The tool's name in the agent format.
    pub open spec fn name_spec(self) -> Seq<char> {
        match self {
            ToolTarget::Aws => "aws"@,
            ToolTarget::Shell => "shell"@,
            ToolTarget::Read => "read"@,
            ToolTarget::Write => "write"@,
        }
    }

    /// The tool's name in the agent format.
    pub fn as_str(&self) -> (r: &'static str)
        ensures
            r@ == self.name_spec(),
    {
        match self {
            ToolTarget::Aws => "aws",
            ToolTarget::Shell => "shell",
            ToolTarget::Read => "read",
            ToolTarget::Write => "write",
        }
    }

    /// The tool's name (its display form).
    pub fn to_string(&self) -> (r: String)
        ensures
            r@ == self.name_spec(),
    {
        String::from_str(self.as_str())
    }

    /// Every target, in declaration order.
    pub fn all() -> (r: Vec<ToolTarget>)
        ensures
            r@ == seq![ToolTarget::Aws, ToolTarget::Shell, ToolTarget::Read, ToolTarget::Write],
    {
        let mut r = Vec::new();
        r.push(ToolTarget::Aws);
        r.push(ToolTarget::Shell);
        r.push(ToolTarget::Read);
        r.push(ToolTarget::Write);
        r
    }
}

impl AsRef<str> for ToolTarget {
    fn as_ref(&self) -> (r: &str)
        ensures
            r@ == self.name_spec(),
    {
        self.as_str()
    }
}

/// AWS tool settings.
#[derive(Debug, Clone, PartialEq, Eq)]
pub struct AwsTool {
    pub allowed_services: StringSet,
    pub denied_services: StringSet,
    pub auto_allow_readonly: bool,
}

impl AwsTool {
    /// Whether these are the default settings.
    pub fn is_default(&self) -> (b: bool)
        ensures
            b == (self.allowed_services@.len() == 0 && self.denied_services@.len() == 0
                && self.auto_allow_readonly),
    {
        proof {
            self.allowed_services.lemma_view();
            self.denied_services.lemma_view();
        }
        self.allowed_services.len() == 0 && self.denied_services.len() == 0 && self.auto_allow_readonly
    }
}

impl Default for AwsTool {
    /// No services listed; read-only calls are allowed.
    fn default() -> (r: Self)
        ensures
            r.allowed_services@ == Set::<Seq<char>>::empty(),
            r.denied_services@ == Set::<Seq<char>>::empty(),
            r.auto_allow_readonly,
    {
        AwsTool { allowed_services: StringSet::new(), denied_services: StringSet::new(), auto_allow_readonly: true }
    }
}

/// Shell tool settings.
#[derive(Debug, Clone, PartialEq, Eq)]
pub struct ExecuteShellTool {
    pub allowed_commands: StringSet,
    pub denied_commands: StringSet,
    pub deny_by_default: bool,
    pub auto_allow_readonly: bool,
}

impl ExecuteShellTool {
    /// Whether these are the default settings.
    pub fn is_default(&self) -> (b: bool)
        ensures
            b == (self.allowed_commands@.len() == 0 && self.denied_commands@.len() == 0
                && !self.deny_by_default && self.auto_allow_readonly),
    {
        proof {
            self.allowed_commands.lemma_view();
            self.denied_commands.lemma_view();
        }
        self.allowed_commands.len() == 0 && self.denied_commands.len() == 0 && !self.deny_by_default
            && self.auto_allow_readonly
    }
}

impl Default for ExecuteShellTool {
    /// No commands listed, not denying by default, read-only commands allowed.
    fn default() -> (r: Self)
        ensures
            r.allowed_commands@ == Set::<Seq<char>>::empty(),
            r.denied_commands@ == Set::<Seq<char>>::empty(),
            !r.deny_by_default,
            r.auto_allow_readonly,
    {
        ExecuteShellTool {
            allowed_commands: StringSet::new(),
            denied_commands: StringSet::new(),
            deny_by_default: false,
            auto_allow_readonly: true,
        }
    }
}

/// Read tool settings.
#[derive(Debug, Clone, PartialEq, Eq)]
pub struct ReadTool {
    pub allowed_paths: StringSet,
    pub denied_paths: StringSet,
}

/// Write tool settings.
#[derive(Debug, Clone, PartialEq, Eq)]
pub struct WriteTool {
    pub allowed_paths: StringSet,
    pub denied_paths: StringSet,
}

/// Glob tool settings.
#[derive(Debug, Clone, PartialEq, Eq)]
pub struct GlobTool {
    pub allowed_paths: StringSet,
    pub denied_paths: StringSet,
    pub allow_read_only: bool,
}

/// Grep tool settings.
#[derive(Debug, Clone, PartialEq, Eq)]
pub struct GrepTool {
    pub allowed_paths: StringSet,
    pub denied_paths: StringSet,
    pub allow_read_only: bool,
}

/// Web fetch tool settings.
#[derive(Debug, Clone, PartialEq, Eq)]
pub struct WebFetchTool {
    pub trusted: StringSet,
    pub blocked: StringSet,
}

/// Subagent tool settings.
#[derive(Debug, Clone, PartialEq, Eq)]
pub struct SubagentTool {
    pub allowed_agents: StringSet,
}

impl ReadTool {
    /// Whether these are the default settings.
    pub fn is_default(&self) -> (b: bool)
        ensures
            b == (self.allowed_paths@.len() == 0 && self.denied_paths@.len() == 0),
    {
        proof {
            self.allowed_paths.lemma_view();
            self.denied_paths.lemma_view();
        }
        self.allowed_paths.len() == 0 && self.denied_paths.len() == 0
    }
}

impl Default for ReadTool {
    fn default() -> (r: Self)
        ensures
            r.allowed_paths@ == Set::<Seq<char>>::empty(),
            r.denied_paths@ == Set::<Seq<char>>::empty(),
    {
        ReadTool { allowed_paths: StringSet::new(), denied_paths: StringSet::new() }
    }
}

impl WriteTool {
    /// Whether these are the default settings.
    pub fn is_default(&self) -> (b: bool)
        ensures
            b == (self.allowed_paths@.len() == 0 && self.denied_paths@.len() == 0),
    {
        proof {
            self.allowed_paths.lemma_view();
            self.denied_paths.lemma_view();
        }
        self.allowed_paths.len() == 0 && self.denied_paths.len() == 0
    }
}

impl Default for WriteTool {
    fn default() -> (r: Self)
        ensures
            r.allowed_paths@ == Set::<Seq<char>>::empty(),
            r.denied_paths@ == Set::<Seq<char>>::empty(),
    {
        WriteTool { allowed_paths: StringSet::new(), denied_paths: StringSet::new() }
    }
}

impl Default for SubagentTool {
    fn default() -> (r: Self)
        ensures
            r.allowed_agents@ == Set::<Seq<char>>::empty(),
    {
        SubagentTool { allowed_agents: StringSet::new() }
    }
}

/// A set's elements, ascending.
pub open spec fn sorted_elements(v: Seq<String>, set: Set<Seq<char>>) -> bool {
    sorted_strict(views(v)) && views(v).to_set() == set
}

/// A set's elements as a vector in ascending order.
pub fn sorted_vec(s: &StringSet) -> (r: Vec<String>)
    ensures
        sorted_elements(r@, s@),
{
    let v = s.as_vec();
    let r = v.clone();
    assert(views(r@) =~= views(v@));
    r
}

/// AWS tool settings with lists in ascending order, for stable comparison.
#[derive(Debug, Clone, PartialEq, Eq)]
pub struct NormalizedAwsTool {
    pub allowed_services: Vec<String>,
    pub denied_services: Vec<String>,
    pub auto_allow_readonly: bool,
}

/// Shell tool settings with lists in ascending order.
#[derive(Debug, PartialEq, Eq, Clone)]
pub struct NormalizedExecuteShellTool {
    pub allowed_commands: Vec<String>,
    pub denied_commands: Vec<String>,
    pub deny_by_default: bool,
    pub auto_allow_readonly: bool,
}

/// Read tool settings with lists in ascending order.
#[derive(Debug, Default, PartialEq, Eq, Clone)]
pub struct NormalizedReadTool {
    pub allowed_paths: Vec<String>,
    pub denied_paths: Vec<String>,
}

/// Write tool settings with lists in ascending order.
#[derive(Debug, Default, PartialEq, Eq, Clone)]
pub struct NormalizedWriteTool {
    pub allowed_paths: Vec<String>,
    pub denied_paths: Vec<String>,
}

/// Subagent tool settings with the list in ascending order.
#[derive(Debug, Clone, Default, PartialEq, Eq)]
pub struct NormalizedSubagentTool {
    pub allowed_agents: Vec<String>,
}

impl NormalizedAwsTool {
    pub fn from_tool(tool: AwsTool) -> (r: Self)
        ensures
            sorted_elements(r.allowed_services@, tool.allowed_services@),
            sorted_elements(r.denied_services@, tool.denied_services@),
            r.auto_allow_readonly == tool.auto_allow_readonly,
    {
        NormalizedAwsTool {
            allowed_services: sorted_vec(&tool.allowed_services),
            denied_services: sorted_vec(&tool.denied_services),
            auto_allow_readonly: tool.auto_allow_readonly,
        }
    }
}

impl NormalizedExecuteShellTool {
    pub fn from_tool(tool: ExecuteShellTool) -> (r: Self)
        ensures
            sorted_elements(r.allowed_commands@, tool.allowed_commands@),
            sorted_elements(r.denied_commands@, tool.denied_commands@),
            r.deny_by_default == tool.deny_by_default,
            r.auto_allow_readonly == tool.auto_allow_readonly,
    {
        NormalizedExecuteShellTool {
            allowed_commands: sorted_vec(&tool.allowed_commands),
            denied_commands: sorted_vec(&tool.denied_commands),
            deny_by_default: tool.deny_by_default,
            auto_allow_readonly: tool.auto_allow_readonly,
        }
    }
}

impl NormalizedReadTool {
    pub fn from_tool(tool: ReadTool) -> (r: Self)
        ensures
            sorted_elements(r.allowed_paths@, tool.allowed_paths@),
            sorted_elements(r.denied_paths@, tool.denied_paths@),
    {
        NormalizedReadTool { allowed_paths: sorted_vec(&tool.allowed_paths), denied_paths: sorted_vec(&tool.denied_paths) }
    }
}

impl NormalizedWriteTool {
    pub fn from_tool(tool: WriteTool) -> (r: Self)
        ensures
            sorted_elements(r.allowed_paths@, tool.allowed_paths@),
            sorted_elements(r.denied_paths@, tool.denied_paths@),
    {
        NormalizedWriteTool { allowed_paths: sorted_vec(&tool.allowed_paths), denied_paths: sorted_vec(&tool.denied_paths) }
    }
}

impl NormalizedSubagentTool {
    pub fn from_tool(tool: SubagentTool) -> (r: Self)
        ensures
            sorted_elements(r.allowed_agents@, tool.allowed_agents@),
    {
        NormalizedSubagentTool { allowed_agents: sorted_vec(&tool.allowed_agents) }
    }
}

impl From<AwsTool> for NormalizedAwsTool {
    fn from(tool: AwsTool) -> (r: Self)
        ensures
            sorted_elements(r.allowed_services@, tool.allowed_services@),
            sorted_elements(r.denied_services@, tool.denied_services@),
            r.auto_allow_readonly == tool.auto_allow_readonly,
    {
        Self::from_tool(tool)
    }
}

impl vstd::std_specs::convert::FromSpecImpl<AwsTool> for NormalizedAwsTool {
    /// The conversion is stated on `from` itself, over the set views.
    open spec fn obeys_from_spec() -> bool {
        false
    }

    open spec fn from_spec(tool: AwsTool) -> Self {
        arbitrary()
    }
}

} // verus!
