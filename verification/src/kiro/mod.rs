//! The agent format that the generator writes.
pub mod custom_tool;
pub mod hook;
pub mod tools;

use vstd::prelude::*;
use crate::set::{StringSet, sorted_strict, views};
use crate::map::StringMap;
use crate::text::concat;
use crate::kg_config::manifest::{Manifest, ordered_keys_of, agent_hooks_of};
use crate::kg_config::knowledge::KgKnowledge;
use crate::kg_config::native::{effective_allows, effective_denies};
use crate::kiro::custom_tool::{CustomToolConfig, disabled_of};
use crate::kiro::hook::{AgentHook, clone_opt_string};
use crate::kiro::tools::{AwsTool, ReadTool, WriteTool, ExecuteShellTool};

verus! {

/// An entry of the agent's settings for a tool.
#[derive(Debug, Clone, PartialEq, Eq)]
pub enum ToolSetting {
    Aws(AwsTool),
    Read(ReadTool),
    Write(WriteTool),
    Shell(ExecuteShellTool),
    /// Settings given as JSON text.
    Json(String),
}

/// A knowledge base entry of the agent's resources.
#[derive(Clone, Debug, PartialEq, Eq, Hash)]
pub struct Knowledge {
    pub name: String,
    pub knowledge_type: String,
    pub source: Option<String>,
    pub description: Option<String>,
    pub index_type: Option<String>,
    pub auto_update: Option<bool>,
}

impl Knowledge {
    /// `name=<name>,description=<description>` (the display form, the
    /// description written as `Some("..")` or `None`).
    pub fn to_string(&self) -> (r: String)
        ensures
            r@ == knowledge_display(self.name@, self.description),
    {
        let mut r = concat("name=", self.name.as_str());
        match &self.description {
            Some(d) => {
                r.append(",description=Some(\"");
                r.append(d.as_str());
                r.append("\")");
            },
            None => {
                r.append(",description=None");
            },
        }
        r
    }
}

/// The display form of a knowledge base entry.
pub open spec fn knowledge_display(name: Seq<char>, description: Option<String>) -> Seq<char> {
    match description {
        Some(d) => "name="@ + name + ",description=Some(\""@ + d@ + "\")"@,
        None => "name="@ + name + ",description=None"@,
    }
}

/// An entry of the agent's resources: a location, or a knowledge base.
#[derive(Debug, Clone, PartialEq, Eq)]
pub enum KiroResource {
    Location(String),
    KnowledgeBase(Knowledge),
}

/// What an entry of the agent's resources holds.
pub enum ResourceView {
    Location(Seq<char>),
    KnowledgeBase {
        name: Seq<char>,
        knowledge_type: Seq<char>,
        source: Option<String>,
        description: Option<String>,
        index_type: Option<String>,
        auto_update: Option<bool>,
    },
}

impl View for KiroResource {
    type V = ResourceView;

    open spec fn view(&self) -> ResourceView {
        match self {
            KiroResource::Location(s) => ResourceView::Location(s@),
            KiroResource::KnowledgeBase(k) => ResourceView::KnowledgeBase {
                name: k.name@,
                knowledge_type: k.knowledge_type@,
                source: k.source,
                description: k.description,
                index_type: k.index_type,
                auto_update: k.auto_update,
            },
        }
    }
}

/// The elements of a finite set in ascending order.
pub open spec fn ordered_of(s: Set<Seq<char>>) -> Seq<Seq<char>> {
    choose|o: Seq<Seq<char>>| sorted_strict(o) && o.to_set() == s
}

/// `scheme://location` for each location in ascending order.
pub open spec fn location_entries(scheme: Seq<char>, locations: Set<Seq<char>>) -> Seq<ResourceView> {
    ordered_of(locations).map_values(|l: Seq<char>| ResourceView::Location(scheme + "://"@ + l))
}

/// The knowledge base entry for a declared knowledge base.
pub open spec fn knowledge_entry(name: Seq<char>, k: KgKnowledge) -> ResourceView {
    ResourceView::KnowledgeBase {
        name: name,
        knowledge_type: "knowledgeBase"@,
        source: k.source,
        description: k.description,
        index_type: k.index_type,
        auto_update: k.auto_update,
    }
}

/// The resources a manifest declares, in order: the locations of each file
/// resource (by resource name, then location), those of each skill, then a
/// knowledge base entry for each knowledge base (by name).
pub open spec fn declared_resources(m: crate::kg_config::manifest::ManifestView) -> Seq<ResourceView> {
    ordered_keys_of(m.resources).map_values(|k: Seq<char>| location_entries("file"@, m.resources[k].locations)).flatten()
        + ordered_keys_of(m.skills).map_values(|k: Seq<char>| location_entries("skill"@, m.skills[k].locations)).flatten()
        + ordered_keys_of(m.knowledge).map_values(|k: Seq<char>| knowledge_entry(k, m.knowledge[k]))
}

/// The resources of the default agent.
pub open spec fn default_resources() -> Seq<ResourceView> {
    seq![ResourceView::Location("file://README.md"@), ResourceView::Location("file://AGENTS.md"@)]
}

/// The generated agent definition.
#[derive(Debug, PartialEq, Eq)]
pub struct KiroAgent {
    /// Name of the agent
    pub name: String,
    pub description: Option<String>,
    pub prompt: Option<String>,
    /// Configuration for Model Context Protocol (MCP) servers
    pub mcp_servers: StringMap<CustomToolConfig>,
    /// List of tools the agent can see
    pub tools: StringSet,
    /// Tool aliases for remapping tool names
    pub tool_aliases: StringMap<String>,
    /// List of tools the agent is explicitly allowed to use
    pub allowed_tools: StringSet,
    /// Files and knowledge bases to include in the agent's context
    pub resources: Vec<KiroResource>,
    /// Hooks by trigger name
    pub hooks: StringMap<Vec<AgentHook>>,
    /// Settings for specific tools
    pub tools_settings: StringMap<ToolSetting>,
    /// The model ID to use for this agent
    pub model: Option<String>,
    pub include_mcp_json: bool,
}

/// The name of the default agent.
pub open spec fn default_agent_name() -> Seq<char> {
    "kiro_default"@
}

/// The agent's view of its resources.
pub open spec fn resource_views(v: Seq<KiroResource>) -> Seq<ResourceView> {
    v.map_values(|r: KiroResource| r@)
}

/// The declared MCP servers in agent-file form.
pub open spec fn servers_converted(
    r: Map<Seq<char>, CustomToolConfig>,
    m: Map<Seq<char>, crate::kg_config::mcp::KgCustomToolConfigView>,
) -> bool {
    &&& r.dom() == m.dom()
    &&& forall|k: Seq<char>| #[trigger] r.contains_key(k) ==> {
        &&& r[k].url == m[k].url
        &&& r[k].headers@ == m[k].headers
        &&& r[k].command == m[k].command
        &&& r[k].args@ == m[k].args
        &&& r[k].env@ == m[k].env
        &&& r[k].timeout == m[k].timeout
        &&& r[k].disabled == disabled_of(m[k].state)
    }
}

/// The built-in tools' settings entries: a tool appears under its name when
/// its settings differ from the default ones, and further declared
/// settings, as JSON text, replace or add entries.
pub open spec fn settings_converted(r: Map<Seq<char>, ToolSetting>, m: crate::kg_config::manifest::ManifestView) -> bool {
    let nt = m.native_tools;
    let aws_default = nt.aws.allows.len() == 0 && nt.aws.denies.len() == 0
        && match nt.aws.auto_allow_readonly { Some(b) => b, None => true };
    let read_default = effective_allows(nt.read).len() == 0 && effective_denies(nt.read).len() == 0;
    let write_default = effective_allows(nt.write).len() == 0 && effective_denies(nt.write).len() == 0;
    let shell_default = effective_allows(nt.shell).len() == 0 && effective_denies(nt.shell).len() == 0
        && !match nt.shell.deny_by_default { Some(b) => b, None => false }
        && match nt.shell.auto_allow_readonly { Some(b) => b, None => true };
    &&& forall|k: Seq<char>| #[trigger] r.contains_key(k) <==> (m.tool_settings.contains_key(k)
        || (k == "aws"@ && !aws_default) || (k == "read"@ && !read_default)
        || (k == "write"@ && !write_default) || (k == "shell"@ && !shell_default))
    &&& forall|k: Seq<char>| #[trigger] m.tool_settings.contains_key(k) ==> r[k] == ToolSetting::Json(m.tool_settings[k])
    &&& (!m.tool_settings.contains_key("aws"@) && !aws_default) ==> (r["aws"@] matches ToolSetting::Aws(t)
        && t.allowed_services@ == nt.aws.allows && t.denied_services@ == nt.aws.denies
        && t.auto_allow_readonly == match nt.aws.auto_allow_readonly { Some(b) => b, None => true })
    &&& (!m.tool_settings.contains_key("read"@) && !read_default) ==> (r["read"@] matches ToolSetting::Read(t)
        && t.allowed_paths@ == effective_allows(nt.read) && t.denied_paths@ == effective_denies(nt.read))
    &&& (!m.tool_settings.contains_key("write"@) && !write_default) ==> (r["write"@] matches ToolSetting::Write(t)
        && t.allowed_paths@ == effective_allows(nt.write) && t.denied_paths@ == effective_denies(nt.write))
    &&& (!m.tool_settings.contains_key("shell"@) && !shell_default) ==> (r["shell"@] matches ToolSetting::Shell(t)
        && t.allowed_commands@ == effective_allows(nt.shell) && t.denied_commands@ == effective_denies(nt.shell)
        && t.deny_by_default == match nt.shell.deny_by_default { Some(b) => b, None => false }
        && t.auto_allow_readonly == match nt.shell.auto_allow_readonly { Some(b) => b, None => true })
}

/// Location entries for a set, appended in ascending order.
fn push_locations(out: &mut Vec<KiroResource>, scheme: &str, locations: &StringSet)
    ensures
        resource_views(final(out)@) == resource_views(old(out)@) + location_entries(scheme@, locations@),
{
    let items = locations.as_vec();
    let ghost start = resource_views(out@);
    proof {
        lemma_ordered_of(locations.ordered(), locations@);
    }
    let mut i: usize = 0;
    while i < items.len()
        invariant
            i <= items.len(),
            views(items@) == locations.ordered(),
            ordered_of(locations@) == locations.ordered(),
            resource_views(out@) == start + locations.ordered().take(i as int).map_values(
                |l: Seq<char>| ResourceView::Location(scheme@ + "://"@ + l)),
        decreases items.len() - i,
    {
        let prefix = concat(scheme, "://");
        let entry = concat(prefix.as_str(), items[i].as_str());
        let ghost prev = resource_views(out@);
        let ghost ev = entry@;
        out.push(KiroResource::Location(entry));
        proof {
            let o = locations.ordered();
            assert(views(items@)[i as int] == items@[i as int]@);
            assert(ev == scheme@ + "://"@ + o[i as int]);
            assert(resource_views(out@) =~= prev.push(ResourceView::Location(ev)));
            assert(o.take(i + 1).map_values(|l: Seq<char>| ResourceView::Location(scheme@ + "://"@ + l))
                =~= o.take(i as int).map_values(|l: Seq<char>| ResourceView::Location(scheme@ + "://"@ + l)).push(ResourceView::Location(ev)));
            assert(o.take(i + 1) =~= o.take(i as int).push(o[i as int]));
            assert(resource_views(out@) =~= start + o.take(i + 1).map_values(
                |l: Seq<char>| ResourceView::Location(scheme@ + "://"@ + l)));
        }
        i = i + 1;
    }
    proof {
        assert(locations.ordered().take(items.len() as int) =~= locations.ordered());
    }
}

/// The strictly sorted sequence with a given element set is the one
/// `ordered_of` picks.
pub proof fn lemma_ordered_of(o: Seq<Seq<char>>, s: Set<Seq<char>>)
    requires
        sorted_strict(o),
        o.to_set() == s,
    ensures
        ordered_of(s) == o,
{
    let c = ordered_of(s);
    assert(sorted_strict(c) && c.to_set() == s);
    crate::set::lemma_sorted_unique(c, o);
}

/// The resource entries for a set of locations (held by a sorted list `o`,
/// as every location set is) are `<scheme>://<location>`, one per location
/// and nothing else, in ascending order of location.
pub proof fn lemma_location_entries(scheme: Seq<char>, o: Seq<Seq<char>>)
    requires
        sorted_strict(o),
    ensures
        location_entries(scheme, o.to_set()).len() == o.len(),
        forall|i: int| 0 <= i < o.len()
            ==> #[trigger] location_entries(scheme, o.to_set())[i] == ResourceView::Location(scheme + "://"@ + o[i]),
        forall|l: Seq<char>| #[trigger] o.to_set().contains(l)
            ==> location_entries(scheme, o.to_set()).contains(ResourceView::Location(scheme + "://"@ + l)),
{
    lemma_ordered_of(o, o.to_set());
    let e = location_entries(scheme, o.to_set());
    assert forall|l: Seq<char>| #[trigger] o.to_set().contains(l)
        implies e.contains(ResourceView::Location(scheme + "://"@ + l)) by {
        let i = choose|i: int| 0 <= i < o.len() && o[i] == l;
        assert(e[i] == ResourceView::Location(scheme + "://"@ + l));
    }
}

/// An agent that declares no resources gets the default ones,
/// `file://README.md` and `file://AGENTS.md`; the knowledge base entry of a
/// declared knowledge base carries its name, the type `knowledgeBase` and
/// all its settings.
pub proof fn lemma_resource_defaults(name: Seq<char>, k: KgKnowledge)
    ensures
        default_resources() == seq![ResourceView::Location("file://README.md"@), ResourceView::Location("file://AGENTS.md"@)],
        knowledge_entry(name, k) == (ResourceView::KnowledgeBase {
            name: name,
            knowledge_type: "knowledgeBase"@,
            source: k.source,
            description: k.description,
            index_type: k.index_type,
            auto_update: k.auto_update,
        }),
{
}

/// The resources a manifest declares.
pub fn manifest_resources(m: &Manifest) -> (r: Vec<KiroResource>)
    ensures
        resource_views(r@) == declared_resources(m@),
{
    let mut out: Vec<KiroResource> = Vec::new();
    let ghost mv = m@;
    // file resources
    let n = m.resources.len();
    let _keys = m.resources.keys();
    proof {
        assert(mv.resources.dom() =~= m.resources@.dom());
        lemma_ordered_of(m.resources.ordered_keys(), mv.resources.dom());
        assert(m.resources.ordered_keys().to_set() == mv.resources.dom());
    }
    let ghost files_f = |k: Seq<char>| location_entries("file"@, mv.resources[k].locations);
    let mut i: usize = 0;
    assert(resource_views(out@) =~= m.resources.ordered_keys().take(0).map_values(files_f).flatten());
    while i < n
        invariant
            n == m.resources.ordered_keys().len(),
            i <= n,
            mv == m@,
            files_f == (|k: Seq<char>| location_entries("file"@, mv.resources[k].locations)),
            resource_views(out@) == m.resources.ordered_keys().take(i as int).map_values(files_f).flatten(),
        decreases n - i,
    {
        let (k, res) = m.resources.entry_at(i);
        push_locations(&mut out, "file", &res.locations);
        proof {
            let ks = m.resources.ordered_keys();
            assert(ks.take(i + 1) =~= ks.take(i as int).push(ks[i as int]));
            assert(ks.take(i + 1).map_values(files_f) =~= ks.take(i as int).map_values(files_f).push(files_f(ks[i as int])));
            ks.take(i as int).map_values(files_f).lemma_flatten_push(files_f(ks[i as int]));
        }
        i = i + 1;
    }
    proof {
        assert(m.resources.ordered_keys().take(n as int) =~= m.resources.ordered_keys());
    }
    let ghost after_files = resource_views(out@);
    // skills
    let n2 = m.skills.len();
    let _keys2 = m.skills.keys();
    proof {
        assert(mv.skills.dom() =~= m.skills@.dom());
        lemma_ordered_of(m.skills.ordered_keys(), mv.skills.dom());
    }
    let ghost skills_f = |k: Seq<char>| location_entries("skill"@, mv.skills[k].locations);
    let mut j: usize = 0;
    assert(resource_views(out@) =~= after_files + m.skills.ordered_keys().take(0).map_values(skills_f).flatten());
    while j < n2
        invariant
            n2 == m.skills.ordered_keys().len(),
            j <= n2,
            mv == m@,
            skills_f == (|k: Seq<char>| location_entries("skill"@, mv.skills[k].locations)),
            resource_views(out@) == after_files + m.skills.ordered_keys().take(j as int).map_values(skills_f).flatten(),
        decreases n2 - j,
    {
        let (k, res) = m.skills.entry_at(j);
        push_locations(&mut out, "skill", &res.locations);
        proof {
            let ks = m.skills.ordered_keys();
            assert(ks.take(j + 1) =~= ks.take(j as int).push(ks[j as int]));
            assert(ks.take(j + 1).map_values(skills_f) =~= ks.take(j as int).map_values(skills_f).push(skills_f(ks[j as int])));
            ks.take(j as int).map_values(skills_f).lemma_flatten_push(skills_f(ks[j as int]));
        }
        j = j + 1;
    }
    proof {
        assert(m.skills.ordered_keys().take(n2 as int) =~= m.skills.ordered_keys());
    }
    let ghost after_skills = resource_views(out@);
    // knowledge bases
    let n3 = m.knowledge.len();
    let _keys3 = m.knowledge.keys();
    proof {
        assert(mv.knowledge.dom() =~= m.knowledge@.dom());
        lemma_ordered_of(m.knowledge.ordered_keys(), mv.knowledge.dom());
    }
    let ghost kb_f = |k: Seq<char>| knowledge_entry(k, mv.knowledge[k]);
    let mut t: usize = 0;
    assert(resource_views(out@) =~= after_skills + m.knowledge.ordered_keys().take(0).map_values(kb_f));
    while t < n3
        invariant
            n3 == m.knowledge.ordered_keys().len(),
            t <= n3,
            mv == m@,
            kb_f == (|k: Seq<char>| knowledge_entry(k, mv.knowledge[k])),
            resource_views(out@) == after_skills + m.knowledge.ordered_keys().take(t as int).map_values(kb_f),
        decreases n3 - t,
    {
        let (k, kb) = m.knowledge.entry_at(t);
        let entry = Knowledge {
            name: k.clone(),
            knowledge_type: String::from_str("knowledgeBase"),
            description: clone_opt_string(&kb.description),
            source: clone_opt_string(&kb.source),
            index_type: clone_opt_string(&kb.index_type),
            auto_update: kb.auto_update,
        };
        let ghost pushed = KiroResource::KnowledgeBase(entry);
        let ghost prev = resource_views(out@);
        out.push(KiroResource::KnowledgeBase(entry));
        proof {
            let ks = m.knowledge.ordered_keys();
            assert(k@ == ks[t as int]);
            assert(mv.knowledge[ks[t as int]] == *kb);
            assert(pushed@ == knowledge_entry(ks[t as int], *kb));
            assert(resource_views(out@) =~= prev.push(pushed@));
            assert(ks.take(t + 1).map_values(kb_f) =~= ks.take(t as int).map_values(kb_f).push(kb_f(ks[t as int])));
            assert(ks.take(t + 1) =~= ks.take(t as int).push(ks[t as int]));
            assert(resource_views(out@) =~= after_skills + ks.take(t + 1).map_values(kb_f));
        }
        t = t + 1;
    }
    proof {
        assert(m.knowledge.ordered_keys().take(n3 as int) =~= m.knowledge.ordered_keys());
    }
    out
}

/// `r` is the agent definition made from the manifest `value`, as
/// `KiroAgent::from_manifest` describes.
pub open spec fn agent_made_from(value: Manifest, r: KiroAgent) -> bool {
    &&& r.name == value.name
    &&& r.description == value.description
    &&& r.prompt == value.prompt
    &&& r.model == value.model
    &&& r.tool_aliases@ == value.tool_aliases@
    &&& r.tools@ == (if value.tools@ == Set::<Seq<char>>::empty() { set!["*"@] } else { value.tools@ })
    &&& r.allowed_tools@ == value.allowed_tools@
    &&& resource_views(r.resources@) == (if declared_resources(value@).len() == 0 { default_resources() } else { declared_resources(value@) })
    &&& r.hooks@.dom() == value.hooks@.dom()
    &&& forall|t: Seq<char>| #[trigger] r.hooks@.contains_key(t) ==> r.hooks@[t]@ == agent_hooks_of(value.hooks@[t]@)
    &&& servers_converted(r.mcp_servers@, value@.mcp_servers)
    &&& settings_converted(r.tools_settings@, value@)
    &&& r.include_mcp_json == (value.include_mcp_json == Some(true))
}

/// The agent definition made from a manifest carries the manifest's
/// settings over:
/// - name, description, prompt and model are the manifest's;
/// - its tools are the declared ones, or `*` alone when none are declared;
/// - the legacy MCP configuration is used exactly when declared `true`;
/// - each declared hook keeps its command, matcher, timeout, output limit
///   and cache lifetime, under its trigger;
/// - each declared MCP server keeps its URL, command, arguments and timeout,
///   and is disabled exactly when its state is `disabled` or `hide`;
/// - each declared tool setting is kept as it was declared;
/// - a manifest that configures no built-in tool and declares no tool
///   setting gives no tool settings.
pub proof fn lemma_agent_keeps_settings(m: Manifest, r: KiroAgent)
    requires
        agent_made_from(m, r),
    ensures
        r.name == m.name && r.description == m.description && r.prompt == m.prompt && r.model == m.model,
        m.tools@.len() == 0 && m.tools@.finite() ==> r.tools@ == set!["*"@],
        m.tools@ != Set::<Seq<char>>::empty() ==> r.tools@ == m.tools@,
        r.include_mcp_json <==> m.include_mcp_json == Some(true),
        forall|t: Seq<char>, i: int| #[trigger] m.hooks@.contains_key(t) && 0 <= i < r.hooks@[t]@.len() ==> {
            let h = m.hooks@[t]@[ordered_keys_of(m.hooks@[t]@)[i]];
            let a = #[trigger] r.hooks@[t]@[i];
            &&& a.command == h.command
            &&& a.matcher == h.matcher
            &&& a.timeout_ms == h.timeout_ms
            &&& a.max_output_size == h.max_output_size
            &&& a.cache_ttl_seconds == h.cache_ttl_seconds
        },
        forall|t: Seq<char>| #[trigger] m.hooks@.contains_key(t) ==> r.hooks@.contains_key(t),
        forall|k: Seq<char>| #[trigger] m.mcp_servers@.contains_key(k) ==> {
            let d = m.mcp_servers@[k];
            let c = r.mcp_servers@[k];
            &&& r.mcp_servers@.contains_key(k)
            &&& c.url == d.url && c.command == d.command && c.args@ == d.args@ && c.timeout == d.timeout
            &&& (d.state == Some(crate::kg_config::mcp::McpServerState::Disabled)
                || d.state == Some(crate::kg_config::mcp::McpServerState::Hide)) ==> c.disabled == Some(true)
            &&& d.state == Some(crate::kg_config::mcp::McpServerState::Enabled) ==> c.disabled == Some(false)
            &&& d.state is None ==> c.disabled is None
        },
        forall|k: Seq<char>| #[trigger] m.tool_settings@.contains_key(k)
            ==> r.tools_settings@.contains_key(k) && r.tools_settings@[k] == ToolSetting::Json(m.tool_settings@[k]),
        crate::kg_config::native::native_tool_is_default(m.native_tools.aws@)
            && crate::kg_config::native::native_tool_is_default(m.native_tools.read@)
            && crate::kg_config::native::native_tool_is_default(m.native_tools.write@)
            && crate::kg_config::native::native_tool_is_default(m.native_tools.shell@)
            && m.tool_settings@.dom() == Set::<Seq<char>>::empty()
            ==> r.tools_settings@.dom() == Set::<Seq<char>>::empty(),
{
    if m.tools@.len() == 0 && m.tools@.finite() {
        assert(m.tools@ =~= Set::<Seq<char>>::empty());
    }
    assert forall|t: Seq<char>, i: int| #[trigger] m.hooks@.contains_key(t) && 0 <= i < r.hooks@[t]@.len() implies {
        let h = m.hooks@[t]@[ordered_keys_of(m.hooks@[t]@)[i]];
        let a = #[trigger] r.hooks@[t]@[i];
        &&& a.command == h.command
        &&& a.matcher == h.matcher
        &&& a.timeout_ms == h.timeout_ms
        &&& a.max_output_size == h.max_output_size
        &&& a.cache_ttl_seconds == h.cache_ttl_seconds
    } by {
        crate::kiro::hook::lemma_agent_hook_keeps_settings(m.hooks@[t]@[ordered_keys_of(m.hooks@[t]@)[i]]);
    }
    assert forall|k: Seq<char>| #[trigger] m.mcp_servers@.contains_key(k) implies r.mcp_servers@.contains_key(k) by {
        assert(m@.mcp_servers.contains_key(k));
    }
    assert forall|k: Seq<char>| #[trigger] m.tool_settings@.contains_key(k)
        implies r.tools_settings@.contains_key(k) && r.tools_settings@[k] == ToolSetting::Json(m.tool_settings@[k]) by {
        assert(m@.tool_settings.contains_key(k));
    }
    let nt = m.native_tools;
    nt.aws.allows.lemma_view();
    nt.aws.denies.lemma_view();
    nt.read.allows.lemma_view();
    nt.read.force_allow.lemma_view();
    nt.read.denies.lemma_view();
    nt.write.allows.lemma_view();
    nt.write.force_allow.lemma_view();
    nt.write.denies.lemma_view();
    nt.shell.allows.lemma_view();
    nt.shell.force_allow.lemma_view();
    nt.shell.denies.lemma_view();
    if crate::kg_config::native::native_tool_is_default(nt.aws@)
        && crate::kg_config::native::native_tool_is_default(nt.read@)
        && crate::kg_config::native::native_tool_is_default(nt.write@)
        && crate::kg_config::native::native_tool_is_default(nt.shell@)
        && m.tool_settings@.dom() == Set::<Seq<char>>::empty() {
        assert(nt.read@.allows =~= Set::<Seq<char>>::empty());
        assert(nt.read@.force_allow =~= Set::<Seq<char>>::empty());
        assert(nt.read@.denies =~= Set::<Seq<char>>::empty());
        assert(effective_allows(nt.read@) =~= Set::<Seq<char>>::empty());
        assert(effective_denies(nt.read@) =~= Set::<Seq<char>>::empty());
        assert(nt.write@.allows =~= Set::<Seq<char>>::empty());
        assert(nt.write@.force_allow =~= Set::<Seq<char>>::empty());
        assert(nt.write@.denies =~= Set::<Seq<char>>::empty());
        assert(effective_allows(nt.write@) =~= Set::<Seq<char>>::empty());
        assert(effective_denies(nt.write@) =~= Set::<Seq<char>>::empty());
        assert(nt.shell@.allows =~= Set::<Seq<char>>::empty());
        assert(nt.shell@.force_allow =~= Set::<Seq<char>>::empty());
        assert(nt.shell@.denies =~= Set::<Seq<char>>::empty());
        assert(effective_allows(nt.shell@) =~= Set::<Seq<char>>::empty());
        assert(effective_denies(nt.shell@) =~= Set::<Seq<char>>::empty());
        assert(m@.tool_settings.dom() =~= Set::<Seq<char>>::empty());
        assert(r.tools_settings@.dom() =~= Set::<Seq<char>>::empty());
    }
}

impl KiroAgent {
    /// The name (the display form).
    pub fn to_string(&self) -> (r: String)
        ensures
            r == self.name,
    {
        self.name.clone()
    }

    /// The agent definition generated from a (merged) manifest:
    /// - name, description, prompt, model and tool aliases carry over;
    /// - the tool list is the declared one, or `*` when none is declared;
    /// - the allowed tools are the declared ones;
    /// - the resources are the declared ones, or the default agent's when
    ///   none are declared;
    /// - the hooks are the manifest's hooks in agent-file form;
    /// - the MCP servers carry over, their state becoming a `disabled` flag;
    /// - tool settings are as `settings_converted` describes;
    /// - the legacy MCP configuration is included only when declared so.
    pub fn from_manifest(value: &Manifest) -> (r: KiroAgent)
        ensures
            agent_made_from(*value, r),
    {
        let native = &value.native_tools;
        let mut settings: StringMap<ToolSetting> = StringMap::new();
        proof {
            reveal_strlit("aws");
            reveal_strlit("read");
            reveal_strlit("write");
            reveal_strlit("shell");
            assert("aws"@.len() == 3 && "read"@.len() == 4 && "write"@.len() == 5 && "shell"@.len() == 5);
            assert("write"@[0] != "shell"@[0]);
            assert("aws"@ != "read"@ && "aws"@ != "write"@ && "aws"@ != "shell"@);
            assert("read"@ != "write"@ && "read"@ != "shell"@ && "write"@ != "shell"@);
        }
        let aws = native.to_kiro_aws();
        if !aws.is_default() {
            settings.insert(String::from_str("aws"), ToolSetting::Aws(aws));
        }
        let read = native.to_kiro_read();
        if !read.is_default() {
            settings.insert(String::from_str("read"), ToolSetting::Read(read));
        }
        let write = native.to_kiro_write();
        if !write.is_default() {
            settings.insert(String::from_str("write"), ToolSetting::Write(write));
        }
        let shell = native.to_kiro_shell();
        if !shell.is_default() {
            settings.insert(String::from_str("shell"), ToolSetting::Shell(shell));
        }
        let ghost native_settings = settings@;
        let extra = json_settings(&value.tool_settings);
        settings.extend(extra);

        let tools = if value.tools.is_empty() {
            let mut t = StringSet::new();
            t.insert(String::from_str("*"));
            t
        } else {
            value.tools.duplicate()
        };
        proof {
            assert(set!["*"@] =~= Set::<Seq<char>>::empty().insert("*"@));
        }
        let allowed_tools = value.allowed_tools.duplicate();
        let declared = manifest_resources(value);
        let resources = if declared.len() == 0 {
            let mut d: Vec<KiroResource> = Vec::new();
            d.push(KiroResource::Location(String::from_str("file://README.md")));
            d.push(KiroResource::Location(String::from_str("file://AGENTS.md")));
            proof {
                assert(resource_views(d@) =~= default_resources());
            }
            d
        } else {
            declared
        };
        let mcp_servers = convert_servers(&value.mcp_servers);
        KiroAgent {
            name: value.name.clone(),
            description: clone_opt_string(&value.description),
            prompt: clone_opt_string(&value.prompt),
            mcp_servers,
            tools,
            tool_aliases: value.tool_aliases.duplicate(),
            allowed_tools,
            resources,
            hooks: value.hooks(),
            tools_settings: settings,
            model: clone_opt_string(&value.model),
            include_mcp_json: match value.include_mcp_json {
                Some(b) => b,
                None => false,
            },
        }
    }
}

/// Declared settings as JSON-text entries.
fn json_settings(m: &StringMap<String>) -> (r: StringMap<ToolSetting>)
    ensures
        r@.dom() == m@.dom(),
        forall|k: Seq<char>| #[trigger] r@.contains_key(k) ==> r@[k] == ToolSetting::Json(m@[k]),
{
    let mut r: StringMap<ToolSetting> = StringMap::new();
    let n = m.len();
    proof {
        m.lemma_dom();
    }
    let mut i: usize = 0;
    while i < n
        invariant
            n == m.ordered_keys().len(),
            i <= n,
            m.ordered_keys().to_set() == m@.dom(),
            r@.dom() == m.ordered_keys().take(i as int).to_set(),
            forall|k: Seq<char>| #[trigger] r@.contains_key(k) ==> r@[k] == ToolSetting::Json(m@[k]),
        decreases n - i,
    {
        let (k, v) = m.entry_at(i);
        r.insert(k.clone(), ToolSetting::Json(v.clone()));
        proof {
            let ks = m.ordered_keys();
            assert(ks.take(i + 1) =~= ks.take(i as int).push(ks[i as int]));
            ks.take(i as int).lemma_push_to_set_commute(ks[i as int]);
        }
        i = i + 1;
    }
    proof {
        assert(m.ordered_keys().take(n as int) =~= m.ordered_keys());
    }
    r
}

/// The declared MCP servers in agent-file form.
fn convert_servers(m: &StringMap<crate::kg_config::mcp::KgCustomToolConfig>) -> (r: StringMap<CustomToolConfig>)
    ensures
        servers_converted(r@, crate::merge::model_map(m@)),
{
    let mut r: StringMap<CustomToolConfig> = StringMap::new();
    let n = m.len();
    proof {
        m.lemma_dom();
    }
    let mut i: usize = 0;
    proof {
        let mm = crate::merge::model_map(m@);
        assert(mm.restrict(m.ordered_keys().take(0).to_set()).dom() =~= r@.dom());
        assert(r@.dom() =~= m.ordered_keys().take(0).to_set());
    }
    while i < n
        invariant
            n == m.ordered_keys().len(),
            i <= n,
            m.ordered_keys().to_set() == m@.dom(),
            r@.dom() == m.ordered_keys().take(i as int).to_set(),
            servers_converted(r@, crate::merge::model_map(m@).restrict(m.ordered_keys().take(i as int).to_set())),
        decreases n - i,
    {
        let (k, v) = m.entry_at(i);
        let c = CustomToolConfig::from_kg(v.clone());
        r.insert(k.clone(), c);
        proof {
            let ks = m.ordered_keys();
            assert(ks.take(i + 1) =~= ks.take(i as int).push(ks[i as int]));
            ks.take(i as int).lemma_push_to_set_commute(ks[i as int]);
            let mm = crate::merge::model_map(m@);
            assert(mm.restrict(ks.take(i + 1).to_set()).dom() =~= r@.dom());
        }
        i = i + 1;
    }
    proof {
        assert(m.ordered_keys().take(n as int) =~= m.ordered_keys());
        assert(crate::merge::model_map(m@).restrict(m@.dom()) =~= crate::merge::model_map(m@));
    }
    r
}

impl Default for KiroAgent {
    fn default() -> (r: Self)
        ensures
            r.name@ == default_agent_name(),
            r.description is Some && r.description->0@ == "Default agent"@,
            r.tools@ == set!["*"@],
            r.allowed_tools@ == Set::<Seq<char>>::empty(),
            resource_views(r.resources@) == default_resources(),
            r.include_mcp_json,
            r.model is None,
            r.prompt is None,
    {
        let mut tools = StringSet::new();
        tools.insert(String::from_str("*"));
        let mut resources: Vec<KiroResource> = Vec::new();
        resources.push(KiroResource::Location(String::from_str("file://README.md")));
        resources.push(KiroResource::Location(String::from_str("file://AGENTS.md")));
        proof {
            assert(set!["*"@] =~= Set::<Seq<char>>::empty().insert("*"@));
            assert(resource_views(resources@) =~= default_resources());
        }
        KiroAgent {
            name: String::from_str("kiro_default"),
            description: Some(String::from_str("Default agent")),
            prompt: None,
            mcp_servers: StringMap::new(),
            tools,
            tool_aliases: StringMap::new(),
            allowed_tools: StringSet::new(),
            resources,
            hooks: StringMap::new(),
            tools_settings: StringMap::new(),
            model: None,
            include_mcp_json: true,
        }
    }
}

} // verus!
