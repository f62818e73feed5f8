//! An agent as a manifest declares it, and how a child inherits from a parent.
use vstd::prelude::*;
use crate::kiro::hook::{prefer, KgHook, AgentHook, agent_hook_of, clone_opt_string, kg_hook_merged};
use crate::set::StringSet;
use crate::map::StringMap;
use crate::merge::{Merge, merge_maps, merge_maps_spec, model_map, merge_fn, copy_map};
use crate::kg_config::knowledge::{KgKnowledge, knowledge_merged};
use crate::kg_config::mcp::{KgCustomToolConfig, KgCustomToolConfigView, mcp_merged};
use crate::kg_config::native::{NativeTools, NativeToolsView, NativeToolView, native_tools_merged, native_tool_merged, native_tool_is_default, lemma_default_tool_empty, AwsTool, ReadTool, WriteTool, ExecuteShellTool};
use crate::kg_config::resources::{KgFileResource, KgSkillResource, LocationResourceView, resource_merged};
use crate::kg_config::subagent::{SubagentConfig, SubagentConfigView};

verus! {

/// One agent's declaration.
#[derive(Debug)]
pub struct Manifest {
    pub name: String,
    /// Whether this agent is a template. Templates are not written to disk
    /// and serve only as parent configurations for other agents to inherit
    /// from. Template status is never inherited.
    pub template: bool,
    pub description: Option<String>,
    pub inherits: StringSet,
    pub prompt: Option<String>,
    pub resources: StringMap<KgFileResource>,
    pub skills: StringMap<KgSkillResource>,
    pub knowledge: StringMap<KgKnowledge>,
    pub include_mcp_json: Option<bool>,
    pub tools: StringSet,
    pub allowed_tools: StringSet,
    pub model: Option<String>,
    /// Hooks by trigger name, then by hook name.
    pub hooks: StringMap<StringMap<KgHook>>,
    pub mcp_servers: StringMap<KgCustomToolConfig>,
    pub tool_aliases: StringMap<String>,
    pub native_tools: NativeTools,
    /// Further tool settings, each as JSON text.
    pub tool_settings: StringMap<String>,
    /// Keyboard shortcut for swapping to this agent
    pub keyboard_shortcut: Option<String>,
    /// Welcome message displayed when switching to this agent
    pub welcome_message: Option<String>,
    pub subagents: SubagentConfig,
}

/// The contents of a manifest.
pub struct ManifestView {
    pub name: String,
    pub template: bool,
    pub description: Option<String>,
    pub inherits: Set<Seq<char>>,
    pub prompt: Option<String>,
    pub resources: Map<Seq<char>, LocationResourceView>,
    pub skills: Map<Seq<char>, LocationResourceView>,
    pub knowledge: Map<Seq<char>, KgKnowledge>,
    pub include_mcp_json: Option<bool>,
    pub tools: Set<Seq<char>>,
    pub allowed_tools: Set<Seq<char>>,
    pub model: Option<String>,
    pub hooks: Map<Seq<char>, Map<Seq<char>, KgHook>>,
    pub mcp_servers: Map<Seq<char>, KgCustomToolConfigView>,
    pub tool_aliases: Map<Seq<char>, String>,
    pub native_tools: NativeToolsView,
    pub tool_settings: Map<Seq<char>, String>,
    pub keyboard_shortcut: Option<String>,
    pub welcome_message: Option<String>,
    pub subagents: SubagentConfigView,
}

impl View for Manifest {
    type V = ManifestView;

    open spec fn view(&self) -> ManifestView {
        ManifestView {
            name: self.name,
            template: self.template,
            description: self.description,
            inherits: self.inherits@,
            prompt: self.prompt,
            resources: model_map(self.resources@),
            skills: model_map(self.skills@),
            knowledge: model_map(self.knowledge@),
            include_mcp_json: self.include_mcp_json,
            tools: self.tools@,
            allowed_tools: self.allowed_tools@,
            model: self.model,
            hooks: model_map(self.hooks@),
            mcp_servers: model_map(self.mcp_servers@),
            tool_aliases: self.tool_aliases@,
            native_tools: self.native_tools@,
            tool_settings: self.tool_settings@,
            keyboard_shortcut: self.keyboard_shortcut,
            welcome_message: self.welcome_message,
            subagents: self.subagents@,
        }
    }
}

/// What a child's declaration becomes when merged with its parent's:
/// - its name and template flag stay (template status is never inherited);
/// - every optional setting it leaves unset comes from the parent;
/// - inherited, tool and allowed-tool sets are united;
/// - resources, skills, knowledge bases, hooks and MCP servers are united by
///   name, and an entry both declare is the child's merged with the parent's;
/// - tool aliases and tool settings are united by name, and on a name both
///   declare the child's value is kept;
/// - each built-in tool and the subagent lists merge with the parent's.
pub open spec fn manifest_merged(c: ManifestView, p: ManifestView) -> ManifestView {
    ManifestView {
        name: c.name,
        template: c.template,
        description: prefer(c.description, p.description),
        inherits: c.inherits.union(p.inherits),
        prompt: prefer(c.prompt, p.prompt),
        resources: merge_maps_spec(c.resources, p.resources, |a: LocationResourceView, b: LocationResourceView| resource_merged(a, b)),
        skills: merge_maps_spec(c.skills, p.skills, |a: LocationResourceView, b: LocationResourceView| resource_merged(a, b)),
        knowledge: merge_maps_spec(c.knowledge, p.knowledge, |a: KgKnowledge, b: KgKnowledge| knowledge_merged(a, b)),
        include_mcp_json: prefer(c.include_mcp_json, p.include_mcp_json),
        tools: c.tools.union(p.tools),
        allowed_tools: c.allowed_tools.union(p.allowed_tools),
        model: prefer(c.model, p.model),
        hooks: merge_maps_spec(c.hooks, p.hooks, merge_fn::<StringMap<KgHook>>()),
        mcp_servers: merge_maps_spec(c.mcp_servers, p.mcp_servers, |a: KgCustomToolConfigView, b: KgCustomToolConfigView| mcp_merged(a, b)),
        tool_aliases: p.tool_aliases.union_prefer_right(c.tool_aliases),
        native_tools: native_tools_merged(c.native_tools, p.native_tools),
        tool_settings: p.tool_settings.union_prefer_right(c.tool_settings),
        keyboard_shortcut: prefer(c.keyboard_shortcut, p.keyboard_shortcut),
        welcome_message: prefer(c.welcome_message, p.welcome_message),
        subagents: SubagentConfigView {
            allow: c.subagents.allow.union(p.subagents.allow),
            deny: c.subagents.deny.union(p.subagents.deny),
        },
    }
}

/// A merged declaration keeps the child's name and template flag and every
/// optional setting the child sets (the parent's fills only what the child
/// leaves unset); its parents, tools, allowed tools and subagent lists hold
/// the entries of either side; its tool aliases and tool settings hold the
/// names of either side, with the child's value on a shared name; its
/// resources, skills, knowledge bases, MCP servers and hooks hold the names
/// of either side, a shared name getting the child's entry merged with the
/// parent's; each built-in tool is the child's merged with the parent's.
pub proof fn lemma_manifest_child_wins(c: ManifestView, p: ManifestView)
    ensures
        manifest_merged(c, p).name == c.name,
        manifest_merged(c, p).template == c.template,
        c.description is Some ==> manifest_merged(c, p).description == c.description,
        c.description is None ==> manifest_merged(c, p).description == p.description,
        c.prompt is Some ==> manifest_merged(c, p).prompt == c.prompt,
        c.prompt is None ==> manifest_merged(c, p).prompt == p.prompt,
        c.model is Some ==> manifest_merged(c, p).model == c.model,
        c.model is None ==> manifest_merged(c, p).model == p.model,
        c.include_mcp_json is Some ==> manifest_merged(c, p).include_mcp_json == c.include_mcp_json,
        c.include_mcp_json is None ==> manifest_merged(c, p).include_mcp_json == p.include_mcp_json,
        c.keyboard_shortcut is Some ==> manifest_merged(c, p).keyboard_shortcut == c.keyboard_shortcut,
        c.keyboard_shortcut is None ==> manifest_merged(c, p).keyboard_shortcut == p.keyboard_shortcut,
        c.welcome_message is Some ==> manifest_merged(c, p).welcome_message == c.welcome_message,
        c.welcome_message is None ==> manifest_merged(c, p).welcome_message == p.welcome_message,
        forall|x: Seq<char>| manifest_merged(c, p).inherits.contains(x) <==> (c.inherits.contains(x) || p.inherits.contains(x)),
        forall|x: Seq<char>| manifest_merged(c, p).tools.contains(x) <==> (c.tools.contains(x) || p.tools.contains(x)),
        forall|x: Seq<char>| manifest_merged(c, p).allowed_tools.contains(x)
            <==> (c.allowed_tools.contains(x) || p.allowed_tools.contains(x)),
        forall|x: Seq<char>| manifest_merged(c, p).subagents.allow.contains(x)
            <==> (c.subagents.allow.contains(x) || p.subagents.allow.contains(x)),
        forall|x: Seq<char>| manifest_merged(c, p).subagents.deny.contains(x)
            <==> (c.subagents.deny.contains(x) || p.subagents.deny.contains(x)),
        forall|k: Seq<char>| #[trigger] manifest_merged(c, p).tool_aliases.contains_key(k)
            <==> (c.tool_aliases.contains_key(k) || p.tool_aliases.contains_key(k)),
        forall|k: Seq<char>| #[trigger] c.tool_aliases.contains_key(k) ==> manifest_merged(c, p).tool_aliases[k] == c.tool_aliases[k],
        forall|k: Seq<char>| p.tool_aliases.contains_key(k) && !c.tool_aliases.contains_key(k)
            ==> #[trigger] manifest_merged(c, p).tool_aliases[k] == p.tool_aliases[k],
        forall|k: Seq<char>| #[trigger] manifest_merged(c, p).tool_settings.contains_key(k)
            <==> (c.tool_settings.contains_key(k) || p.tool_settings.contains_key(k)),
        forall|k: Seq<char>| #[trigger] c.tool_settings.contains_key(k) ==> manifest_merged(c, p).tool_settings[k] == c.tool_settings[k],
        forall|k: Seq<char>| p.tool_settings.contains_key(k) && !c.tool_settings.contains_key(k)
            ==> #[trigger] manifest_merged(c, p).tool_settings[k] == p.tool_settings[k],
        forall|k: Seq<char>| #[trigger] manifest_merged(c, p).resources.contains_key(k)
            <==> (c.resources.contains_key(k) || p.resources.contains_key(k)),
        forall|k: Seq<char>| c.resources.contains_key(k) && p.resources.contains_key(k)
            ==> #[trigger] manifest_merged(c, p).resources[k] == resource_merged(c.resources[k], p.resources[k]),
        forall|k: Seq<char>| c.resources.contains_key(k) && !p.resources.contains_key(k)
            ==> #[trigger] manifest_merged(c, p).resources[k] == c.resources[k],
        forall|k: Seq<char>| !c.resources.contains_key(k) && p.resources.contains_key(k)
            ==> #[trigger] manifest_merged(c, p).resources[k] == p.resources[k],
        forall|k: Seq<char>| #[trigger] manifest_merged(c, p).skills.contains_key(k)
            <==> (c.skills.contains_key(k) || p.skills.contains_key(k)),
        forall|k: Seq<char>| c.skills.contains_key(k) && p.skills.contains_key(k)
            ==> #[trigger] manifest_merged(c, p).skills[k] == resource_merged(c.skills[k], p.skills[k]),
        forall|k: Seq<char>| #[trigger] manifest_merged(c, p).knowledge.contains_key(k)
            <==> (c.knowledge.contains_key(k) || p.knowledge.contains_key(k)),
        forall|k: Seq<char>| c.knowledge.contains_key(k) && p.knowledge.contains_key(k)
            ==> #[trigger] manifest_merged(c, p).knowledge[k] == knowledge_merged(c.knowledge[k], p.knowledge[k]),
        forall|k: Seq<char>| c.knowledge.contains_key(k) && !p.knowledge.contains_key(k)
            ==> #[trigger] manifest_merged(c, p).knowledge[k] == c.knowledge[k],
        forall|k: Seq<char>| #[trigger] manifest_merged(c, p).mcp_servers.contains_key(k)
            <==> (c.mcp_servers.contains_key(k) || p.mcp_servers.contains_key(k)),
        forall|k: Seq<char>| c.mcp_servers.contains_key(k) && p.mcp_servers.contains_key(k)
            ==> #[trigger] manifest_merged(c, p).mcp_servers[k] == mcp_merged(c.mcp_servers[k], p.mcp_servers[k]),
        forall|k: Seq<char>| c.mcp_servers.contains_key(k) && !p.mcp_servers.contains_key(k)
            ==> #[trigger] manifest_merged(c, p).mcp_servers[k] == c.mcp_servers[k],
        forall|t: Seq<char>| #[trigger] manifest_merged(c, p).hooks.contains_key(t)
            <==> (c.hooks.contains_key(t) || p.hooks.contains_key(t)),
        forall|t: Seq<char>, n: Seq<char>| c.hooks.contains_key(t) && p.hooks.contains_key(t)
            && c.hooks[t].contains_key(n) && p.hooks[t].contains_key(n)
            ==> #[trigger] manifest_merged(c, p).hooks[t][n] == kg_hook_merged(c.hooks[t][n], p.hooks[t][n]),
        forall|t: Seq<char>, n: Seq<char>| c.hooks.contains_key(t) && #[trigger] c.hooks[t].contains_key(n)
            && !(p.hooks.contains_key(t) && p.hooks[t].contains_key(n))
            ==> manifest_merged(c, p).hooks[t][n] == c.hooks[t][n],
        manifest_merged(c, p).native_tools.shell == native_tool_merged(c.native_tools.shell, p.native_tools.shell),
        manifest_merged(c, p).native_tools.aws == native_tool_merged(c.native_tools.aws, p.native_tools.aws),
        manifest_merged(c, p).native_tools.read == native_tool_merged(c.native_tools.read, p.native_tools.read),
        manifest_merged(c, p).native_tools.write == native_tool_merged(c.native_tools.write, p.native_tools.write),
        manifest_merged(c, p).native_tools.glob == native_tool_merged(c.native_tools.glob, p.native_tools.glob),
        manifest_merged(c, p).native_tools.grep == native_tool_merged(c.native_tools.grep, p.native_tools.grep),
        manifest_merged(c, p).native_tools.web_fetch == native_tool_merged(c.native_tools.web_fetch, p.native_tools.web_fetch),
{
    let r = manifest_merged(c, p);
    assert forall|t: Seq<char>, n: Seq<char>| c.hooks.contains_key(t) && p.hooks.contains_key(t)
        && c.hooks[t].contains_key(n) && p.hooks[t].contains_key(n)
        implies #[trigger] r.hooks[t][n] == kg_hook_merged(c.hooks[t][n], p.hooks[t][n]) by {
        assert(r.hooks[t] == merge_maps_spec(c.hooks[t], p.hooks[t], merge_fn::<KgHook>()));
    }
    assert forall|t: Seq<char>, n: Seq<char>| c.hooks.contains_key(t) && #[trigger] c.hooks[t].contains_key(n)
        && !(p.hooks.contains_key(t) && p.hooks[t].contains_key(n))
        implies r.hooks[t][n] == c.hooks[t][n] by {
        if p.hooks.contains_key(t) {
            assert(r.hooks[t] == merge_maps_spec(c.hooks[t], p.hooks[t], merge_fn::<KgHook>()));
        }
    }
}

/// Merging with a parent that declares nothing changes nothing.
pub proof fn lemma_merge_empty_parent(c: Manifest, p: Manifest)
    requires
        manifest_is_empty(p@),
    ensures
        manifest_merged(c@, p@) == c@,
{
    lemma_default_tools_empty(&p.native_tools);
    lemma_tools_merge_empty(c@.native_tools);
    let m = manifest_merged(c@, p@);
    assert(m.inherits =~= c@.inherits);
    assert(m.tools =~= c@.tools);
    assert(m.allowed_tools =~= c@.allowed_tools);
    assert(m.resources =~= c@.resources);
    assert(m.skills =~= c@.skills);
    assert(m.knowledge =~= c@.knowledge);
    assert(m.hooks =~= c@.hooks);
    assert(m.mcp_servers =~= c@.mcp_servers);
    assert(m.tool_aliases =~= c@.tool_aliases);
    assert(m.tool_settings =~= c@.tool_settings);
    assert(m.subagents.allow =~= c@.subagents.allow);
    assert(m.subagents.deny =~= c@.subagents.deny);
}

/// A child that declares nothing takes everything from its parent but its
/// own name and template flag.
pub proof fn lemma_merge_empty_child(c: Manifest, p: Manifest)
    requires
        manifest_is_empty(c@),
    ensures
        manifest_merged(c@, p@) == (ManifestView { name: c.name, template: c.template, ..p@ }),
{
    lemma_default_tools_empty(&c.native_tools);
    lemma_tools_merge_empty(p@.native_tools);
    let m = manifest_merged(c@, p@);
    assert(m.inherits =~= p@.inherits);
    assert(m.tools =~= p@.tools);
    assert(m.allowed_tools =~= p@.allowed_tools);
    assert(m.resources =~= p@.resources);
    assert(m.skills =~= p@.skills);
    assert(m.knowledge =~= p@.knowledge);
    assert(m.hooks =~= p@.hooks);
    assert(m.mcp_servers =~= p@.mcp_servers);
    assert(m.tool_aliases =~= p@.tool_aliases);
    assert(m.tool_settings =~= p@.tool_settings);
    assert(m.subagents.allow =~= p@.subagents.allow);
    assert(m.subagents.deny =~= p@.subagents.deny);
}

proof fn lemma_default_tools_empty(t: &NativeTools)
    requires
        native_tool_is_default(t@.shell),
        native_tool_is_default(t@.aws),
        native_tool_is_default(t@.read),
        native_tool_is_default(t@.write),
        native_tool_is_default(t@.glob),
        native_tool_is_default(t@.grep),
        native_tool_is_default(t@.web_fetch),
    ensures
        t@.shell == empty_tool(),
        t@.aws == empty_tool(),
        t@.read == empty_tool(),
        t@.write == empty_tool(),
        t@.glob == empty_tool(),
        t@.grep == empty_tool(),
        t@.web_fetch == empty_tool(),
{
    lemma_default_tool_empty(&t.shell);
    lemma_default_tool_empty(&t.aws);
    lemma_default_tool_empty(&t.read);
    lemma_default_tool_empty(&t.write);
    lemma_default_tool_empty(&t.glob);
    lemma_default_tool_empty(&t.grep);
    lemma_default_tool_empty(&t.web_fetch);
}

proof fn lemma_tool_merge_empty(t: NativeToolView)
    ensures
        native_tool_merged(t, empty_tool()) == t,
        native_tool_merged(empty_tool(), t) == t,
{
    assert(t.allows.union(Set::empty()) =~= t.allows);
    assert(t.denies.union(Set::empty()) =~= t.denies);
    assert(t.force_allow.union(Set::empty()) =~= t.force_allow);
    assert(Set::empty().union(t.allows) =~= t.allows);
    assert(Set::empty().union(t.denies) =~= t.denies);
    assert(Set::empty().union(t.force_allow) =~= t.force_allow);
}

proof fn lemma_tools_merge_empty(t: NativeToolsView)
    ensures
        native_tools_merged(t, NativeToolsView {
            shell: empty_tool(), aws: empty_tool(), read: empty_tool(), write: empty_tool(),
            glob: empty_tool(), grep: empty_tool(), web_fetch: empty_tool(),
        }) == t,
        native_tools_merged(NativeToolsView {
            shell: empty_tool(), aws: empty_tool(), read: empty_tool(), write: empty_tool(),
            glob: empty_tool(), grep: empty_tool(), web_fetch: empty_tool(),
        }, t) == t,
{
    lemma_tool_merge_empty(t.shell);
    lemma_tool_merge_empty(t.aws);
    lemma_tool_merge_empty(t.read);
    lemma_tool_merge_empty(t.write);
    lemma_tool_merge_empty(t.glob);
    lemma_tool_merge_empty(t.grep);
    lemma_tool_merge_empty(t.web_fetch);
}

/// A tool with empty lists and unset flags.
pub open spec fn empty_tool() -> NativeToolView {
    NativeToolView {
        allows: Set::empty(),
        denies: Set::empty(),
        force_allow: Set::empty(),
        auto_allow_readonly: None,
        deny_by_default: None,
    }
}

impl Manifest {
    /// An empty declaration with the given name and template flag.
    pub fn new(name: String, template: bool) -> (r: Self)
        ensures
            r@.name == name,
            r@.template == template,
            manifest_is_empty(r@),
    {
        let mut m = Manifest::default();
        m.name = name;
        m.template = template;
        m
    }

    /// The declaration that agent `name`'s own file makes: every setting of
    /// `file_source` carries over, but such a file names no parents, and the
    /// agent is a template exactly when `template` (its manifest's flag) says so.
    pub fn from_file_source(name: &str, file_source: Manifest, template: bool) -> (r: Self)
        ensures
            r.name@ == name@,
            r@ == (ManifestView { name: r.name, template, inherits: Set::empty(), ..file_source@ }),
    {
        let mut m = file_source;
        m.name = String::from_str(name);
        m.template = template;
        m.inherits = StringSet::new();
        m
    }

    /// Merges this (child) declaration with its parent's, `other`.
    pub fn merge(self, other: Manifest) -> (r: Self)
        ensures
            r@ == manifest_merged(self@, other@),
    {
        let mut s = self;
        let other = other;
        if s.include_mcp_json.is_none() && other.include_mcp_json.is_some() {
            s.include_mcp_json = other.include_mcp_json;
        }
        if s.description.is_none() && other.description.is_some() {
            s.description = other.description;
        }
        if s.prompt.is_none() && other.prompt.is_some() {
            s.prompt = other.prompt;
        }
        if s.model.is_none() && other.model.is_some() {
            s.model = other.model;
        }
        if s.keyboard_shortcut.is_none() && other.keyboard_shortcut.is_some() {
            s.keyboard_shortcut = other.keyboard_shortcut;
        }
        if s.welcome_message.is_none() && other.welcome_message.is_some() {
            s.welcome_message = other.welcome_message;
        }
        let Manifest {
            name, template, description, inherits, prompt, resources, skills, knowledge,
            include_mcp_json, tools, allowed_tools, model, hooks, mcp_servers, tool_aliases,
            native_tools, tool_settings, keyboard_shortcut, welcome_message, subagents,
        } = s;
        let mut inherits = inherits;
        inherits.extend(other.inherits);
        let mut tools = tools;
        tools.extend(other.tools);
        let mut allowed_tools = allowed_tools;
        allowed_tools.extend(other.allowed_tools);
        let mut parent_aliases = other.tool_aliases;
        parent_aliases.extend(tool_aliases);
        let tool_aliases = parent_aliases;
        let mut parent_settings = other.tool_settings;
        parent_settings.extend(tool_settings);
        let tool_settings = parent_settings;
        let r = Manifest {
            name,
            template,
            description,
            inherits,
            prompt,
            resources: merge_maps(resources, other.resources),
            skills: merge_maps(skills, other.skills),
            knowledge: merge_maps(knowledge, other.knowledge),
            include_mcp_json,
            tools,
            allowed_tools,
            model,
            hooks: merge_maps(hooks, other.hooks),
            mcp_servers: merge_maps(mcp_servers, other.mcp_servers),
            tool_aliases,
            native_tools: native_tools.merge(other.native_tools),
            tool_settings,
            keyboard_shortcut,
            welcome_message,
            subagents: subagents.merge(other.subagents),
        };
        proof {
            let c = self@;
            let p = other@;
            assert(r@.resources =~= manifest_merged(c, p).resources);
            assert(r@.skills =~= manifest_merged(c, p).skills);
            assert(r@.knowledge =~= manifest_merged(c, p).knowledge);
            assert(r@.mcp_servers =~= manifest_merged(c, p).mcp_servers);
        }
        r
    }

    /// A declaration with the same contents.
    pub fn duplicate(&self) -> (r: Self)
        ensures
            r@ == self@,
    {
        Manifest {
            name: self.name.clone(),
            template: self.template,
            description: clone_opt_string(&self.description),
            inherits: self.inherits.duplicate(),
            prompt: clone_opt_string(&self.prompt),
            resources: copy_map(&self.resources),
            skills: copy_map(&self.skills),
            knowledge: copy_map(&self.knowledge),
            include_mcp_json: self.include_mcp_json,
            tools: self.tools.duplicate(),
            allowed_tools: self.allowed_tools.duplicate(),
            model: clone_opt_string(&self.model),
            hooks: copy_map(&self.hooks),
            mcp_servers: copy_map(&self.mcp_servers),
            tool_aliases: self.tool_aliases.duplicate(),
            native_tools: self.native_tools.duplicate(),
            tool_settings: self.tool_settings.duplicate(),
            keyboard_shortcut: clone_opt_string(&self.keyboard_shortcut),
            welcome_message: clone_opt_string(&self.welcome_message),
            subagents: SubagentConfig {
                allow: self.subagents.allow.duplicate(),
                deny: self.subagents.deny.duplicate(),
            },
        }
    }

    /// The hooks of each trigger as the agent file lists them: for every
    /// trigger name, its hooks in ascending order of hook name.
    pub fn hooks(&self) -> (r: StringMap<Vec<AgentHook>>)
        ensures
            r@.dom() == self.hooks@.dom(),
            forall|t: Seq<char>| #[trigger] r@.contains_key(t) ==>
                r@[t]@ == agent_hooks_of(self.hooks@[t]@),
    {
        let mut r: StringMap<Vec<AgentHook>> = StringMap::new();
        let n = self.hooks.len();
        proof {
            self.hooks.lemma_dom();
        }
        let mut i: usize = 0;
        while i < n
            invariant
                n == self.hooks.ordered_keys().len(),
                i <= n,
                self.hooks.ordered_keys().to_set() == self.hooks@.dom(),
                r@.dom() == self.hooks.ordered_keys().take(i as int).to_set(),
                forall|t: Seq<char>| #[trigger] r@.contains_key(t) ==> r@[t]@ == agent_hooks_of(self.hooks@[t]@),
            decreases n - i,
        {
            let (trigger, by_name) = self.hooks.entry_at(i);
            let hooks = agent_hooks(by_name);
            r.insert(trigger.clone(), hooks);
            proof {
                let ks = self.hooks.ordered_keys();
                assert(ks.take(i + 1) =~= ks.take(i as int).push(ks[i as int]));
                ks.take(i as int).lemma_push_to_set_commute(ks[i as int]);
            }
            i = i + 1;
        }
        proof {
            assert(self.hooks.ordered_keys().take(n as int) =~= self.hooks.ordered_keys());
        }
        r
    }

    /// The agent's name (the display form).
    pub fn to_string(&self) -> (r: String)
        ensures
            r == self.name,
    {
        self.name.clone()
    }

    pub fn get_tool_aws(&self) -> (r: &AwsTool)
        ensures
            *r == self.native_tools.aws,
    {
        &self.native_tools.aws
    }

    pub fn get_tool_read(&self) -> (r: &ReadTool)
        ensures
            *r == self.native_tools.read,
    {
        &self.native_tools.read
    }

    pub fn get_tool_write(&self) -> (r: &WriteTool)
        ensures
            *r == self.native_tools.write,
    {
        &self.native_tools.write
    }

    pub fn get_tool_shell(&self) -> (r: &ExecuteShellTool)
        ensures
            *r == self.native_tools.shell,
    {
        &self.native_tools.shell
    }
}

/// The agent-file form of a trigger's hooks, in ascending order of name.
pub open spec fn agent_hooks_of(m: Map<Seq<char>, KgHook>) -> Seq<AgentHook> {
    ordered_keys_of(m).map_values(|k: Seq<char>| agent_hook_of(m[k]))
}

/// The keys of a finite map in ascending order.
pub open spec fn ordered_keys_of<V>(m: Map<Seq<char>, V>) -> Seq<Seq<char>> {
    choose|s: Seq<Seq<char>>| crate::set::sorted_strict(s) && s.to_set() == m.dom()
}

/// The agent-file hooks of one trigger, in ascending order of hook name.
pub fn agent_hooks(m: &StringMap<KgHook>) -> (r: Vec<AgentHook>)
    ensures
        r@ == agent_hooks_of(m@),
{
    let keys = m.keys();
    let n = m.len();
    let mut r: Vec<AgentHook> = Vec::new();
    let mut i: usize = 0;
    proof {
        assert(crate::set::sorted_strict(m.ordered_keys()) && m.ordered_keys().to_set() == m@.dom());
        let s = ordered_keys_of(m@);
        crate::set::lemma_sorted_unique(s, m.ordered_keys());
    }
    while i < n
        invariant
            n == m.ordered_keys().len(),
            i <= n,
            ordered_keys_of(m@) == m.ordered_keys(),
            r@ == m.ordered_keys().take(i as int).map_values(|k: Seq<char>| agent_hook_of(m@[k])),
        decreases n - i,
    {
        let (_k, h) = m.entry_at(i);
        r.push(h.to_agent_hook());
        proof {
            let ks = m.ordered_keys();
            assert(ks.take(i + 1) =~= ks.take(i as int).push(ks[i as int]));
            assert(r@ =~= ks.take(i + 1).map_values(|k: Seq<char>| agent_hook_of(m@[k])));
        }
        i = i + 1;
    }
    proof {
        assert(m.ordered_keys().take(n as int) =~= m.ordered_keys());
    }
    r
}

/// A declaration that sets nothing but possibly its name and template flag.
pub open spec fn manifest_is_empty(m: ManifestView) -> bool {
    &&& m.description is None
    &&& m.inherits == Set::<Seq<char>>::empty()
    &&& m.prompt is None
    &&& m.resources == Map::<Seq<char>, LocationResourceView>::empty()
    &&& m.skills == Map::<Seq<char>, LocationResourceView>::empty()
    &&& m.knowledge == Map::<Seq<char>, KgKnowledge>::empty()
    &&& m.include_mcp_json is None
    &&& m.tools == Set::<Seq<char>>::empty()
    &&& m.allowed_tools == Set::<Seq<char>>::empty()
    &&& m.model is None
    &&& m.hooks == Map::<Seq<char>, Map<Seq<char>, KgHook>>::empty()
    &&& m.mcp_servers == Map::<Seq<char>, KgCustomToolConfigView>::empty()
    &&& m.tool_aliases == Map::<Seq<char>, String>::empty()
    &&& crate::kg_config::native::native_tool_is_default(m.native_tools.shell)
    &&& crate::kg_config::native::native_tool_is_default(m.native_tools.aws)
    &&& crate::kg_config::native::native_tool_is_default(m.native_tools.read)
    &&& crate::kg_config::native::native_tool_is_default(m.native_tools.write)
    &&& crate::kg_config::native::native_tool_is_default(m.native_tools.glob)
    &&& crate::kg_config::native::native_tool_is_default(m.native_tools.grep)
    &&& crate::kg_config::native::native_tool_is_default(m.native_tools.web_fetch)
    &&& m.tool_settings == Map::<Seq<char>, String>::empty()
    &&& m.keyboard_shortcut is None
    &&& m.welcome_message is None
    &&& m.subagents.allow == Set::<Seq<char>>::empty()
    &&& m.subagents.deny == Set::<Seq<char>>::empty()
}

impl Default for Manifest {
    fn default() -> (r: Self)
        ensures
            r.name@.len() == 0,
            !r.template,
            manifest_is_empty(r@),
    {
        let r = Manifest {
            name: String::new(),
            template: false,
            description: None,
            inherits: StringSet::new(),
            prompt: None,
            resources: StringMap::new(),
            skills: StringMap::new(),
            knowledge: StringMap::new(),
            include_mcp_json: None,
            tools: StringSet::new(),
            allowed_tools: StringSet::new(),
            model: None,
            hooks: StringMap::new(),
            mcp_servers: StringMap::new(),
            tool_aliases: StringMap::new(),
            native_tools: NativeTools::default(),
            tool_settings: StringMap::new(),
            keyboard_shortcut: None,
            welcome_message: None,
            subagents: SubagentConfig::default(),
        };
        proof {
            assert(r@.resources =~= Map::<Seq<char>, LocationResourceView>::empty());
            assert(r@.skills =~= Map::<Seq<char>, LocationResourceView>::empty());
            assert(r@.knowledge =~= Map::<Seq<char>, KgKnowledge>::empty());
            assert(r@.hooks =~= Map::<Seq<char>, Map<Seq<char>, KgHook>>::empty());
            assert(r@.mcp_servers =~= Map::<Seq<char>, KgCustomToolConfigView>::empty());
        }
        r
    }
}

impl Clone for Manifest {
    fn clone(&self) -> (r: Self)
        ensures
            r@ == self@,
    {
        self.duplicate()
    }
}

} // verus!
