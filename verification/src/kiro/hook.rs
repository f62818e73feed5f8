//! Hooks: commands an agent runs on lifecycle events.
use vstd::prelude::*;
use crate::merge::Merge;

verus! {

/// The lifecycle events that trigger hooks.
#[derive(Clone, Copy, Debug, PartialEq, Eq, Structural)]
pub enum HookTrigger {
    /// Triggered during agent spawn
    AgentSpawn,
    /// Triggered per user message submission
    UserPromptSubmit,
    /// Triggered before tool execution
    PreToolUse,
    /// Triggered after tool execution
    PostToolUse,
    /// Triggered when the assistant finishes responding
    Stop,
}

impl HookTrigger {
    /// The name the agent format uses for the trigger.
    pub open spec fn name_spec(self) -> Seq<char> {
        match self {
            HookTrigger::AgentSpawn => "agentSpawn"@,
            HookTrigger::UserPromptSubmit => "userPromptSubmit"@,
            HookTrigger::PreToolUse => "preToolUse"@,
            HookTrigger::PostToolUse => "postToolUse"@,
            HookTrigger::Stop => "stop"@,
        }
    }

    /// The name the agent format uses for the trigger (its display form).
    pub fn to_string(&self) -> (r: String)
        ensures
            r@ == self.name_spec(),
    {
        match self {
            HookTrigger::AgentSpawn => String::from_str("agentSpawn"),
            HookTrigger::UserPromptSubmit => String::from_str("userPromptSubmit"),
            HookTrigger::PreToolUse => String::from_str("preToolUse"),
            HookTrigger::PostToolUse => String::from_str("postToolUse"),
            HookTrigger::Stop => String::from_str("stop"),
        }
    }
}

/// A hook as the generated agent file holds it.
#[derive(Default, Debug, Clone, Eq, PartialEq)]
pub struct AgentHook {
    /// The command to run when the hook is triggered
    pub command: String,
    /// Max time the hook can run before it throws a timeout error
    pub timeout_ms: Option<u64>,
    /// Max output size of the hook before it is truncated
    pub max_output_size: Option<u32>,
    /// How long the hook output is cached before it will be executed again
    pub cache_ttl_seconds: Option<u64>,
    /// Optional glob matcher for hook
    pub matcher: Option<String>,
}

/// A hook as a manifest declares it.
#[derive(Debug, Eq, PartialEq)]
pub struct KgHook {
    /// The command to run when the hook is triggered
    pub command: String,
    /// The trigger's name
    pub hook_type: String,
    /// Max time the hook can run before it throws a timeout error
    pub timeout_ms: Option<u64>,
    /// Max output size of the hook before it is truncated
    pub max_output_size: Option<u32>,
    /// How long the hook output is cached before it will be executed again
    pub cache_ttl_seconds: Option<u64>,
    /// Optional glob matcher for hook
    pub matcher: Option<String>,
}

/// `child` if it is set, else `parent`.
pub open spec fn prefer<T>(child: Option<T>, parent: Option<T>) -> Option<T> {
    if child is Some {
        child
    } else {
        parent
    }
}

/// The hook a child's hook becomes when merged with its parent's: each unset
/// setting and an empty command come from the parent; the type stays.
pub open spec fn kg_hook_merged(c: KgHook, p: KgHook) -> KgHook {
    KgHook {
        command: if c.command@.len() == 0 { p.command } else { c.command },
        hook_type: c.hook_type,
        timeout_ms: prefer(c.timeout_ms, p.timeout_ms),
        max_output_size: prefer(c.max_output_size, p.max_output_size),
        cache_ttl_seconds: prefer(c.cache_ttl_seconds, p.cache_ttl_seconds),
        matcher: prefer(c.matcher, p.matcher),
    }
}

impl KgHook {
    /// Merges this (child) hook with the parent's `o`.
    pub fn merge(self, o: Self) -> (r: Self)
        ensures
            r == kg_hook_merged(self, o),
    {
        let mut s = self;
        if s.matcher.is_none() && o.matcher.is_some() {
            s.matcher = o.matcher;
        }
        if s.timeout_ms.is_none() && o.timeout_ms.is_some() {
            s.timeout_ms = o.timeout_ms;
        }
        if s.max_output_size.is_none() && o.max_output_size.is_some() {
            s.max_output_size = o.max_output_size;
        }
        if s.cache_ttl_seconds.is_none() && o.cache_ttl_seconds.is_some() {
            s.cache_ttl_seconds = o.cache_ttl_seconds;
        }
        if s.command.as_str().unicode_len() == 0 {
            s.command = o.command;
        }
        s
    }

    /// The hook as the agent file holds it.
    pub fn to_agent_hook(&self) -> (r: AgentHook)
        ensures
            r == agent_hook_of(*self),
    {
        AgentHook {
            command: self.command.clone(),
            matcher: clone_opt_string(&self.matcher),
            timeout_ms: self.timeout_ms,
            max_output_size: self.max_output_size,
            cache_ttl_seconds: self.cache_ttl_seconds,
        }
    }
}

/// The agent-file form of a manifest hook.
pub open spec fn agent_hook_of(h: KgHook) -> AgentHook {
    AgentHook {
        command: h.command,
        timeout_ms: h.timeout_ms,
        max_output_size: h.max_output_size,
        cache_ttl_seconds: h.cache_ttl_seconds,
        matcher: h.matcher,
    }
}

/// The agent-file form of a hook keeps every setting of the manifest hook:
/// its command, matcher, timeout, output limit and cache lifetime.
pub proof fn lemma_agent_hook_keeps_settings(h: KgHook)
    ensures
        agent_hook_of(h).command == h.command,
        agent_hook_of(h).matcher == h.matcher,
        agent_hook_of(h).timeout_ms == h.timeout_ms,
        agent_hook_of(h).max_output_size == h.max_output_size,
        agent_hook_of(h).cache_ttl_seconds == h.cache_ttl_seconds,
{
}

/// A merged hook keeps each setting the child sets and its non-empty
/// command; the parent's fills only what the child leaves unset or empty.
pub proof fn lemma_hook_child_wins(c: KgHook, p: KgHook)
    ensures
        kg_hook_merged(c, p).hook_type == c.hook_type,
        c.command@.len() > 0 ==> kg_hook_merged(c, p).command == c.command,
        c.command@.len() == 0 ==> kg_hook_merged(c, p).command == p.command,
        c.matcher is Some ==> kg_hook_merged(c, p).matcher == c.matcher,
        c.matcher is None ==> kg_hook_merged(c, p).matcher == p.matcher,
        c.timeout_ms is Some ==> kg_hook_merged(c, p).timeout_ms == c.timeout_ms,
        c.timeout_ms is None ==> kg_hook_merged(c, p).timeout_ms == p.timeout_ms,
        c.max_output_size is Some ==> kg_hook_merged(c, p).max_output_size == c.max_output_size,
        c.max_output_size is None ==> kg_hook_merged(c, p).max_output_size == p.max_output_size,
        c.cache_ttl_seconds is Some ==> kg_hook_merged(c, p).cache_ttl_seconds == c.cache_ttl_seconds,
        c.cache_ttl_seconds is None ==> kg_hook_merged(c, p).cache_ttl_seconds == p.cache_ttl_seconds,
{
}

/// A copy of an optional string.
pub fn clone_opt_string(o: &Option<String>) -> (r: Option<String>)
    ensures
        r == *o,
{
    match o {
        Some(s) => Some(s.clone()),
        None => None,
    }
}

impl Clone for KgHook {
    fn clone(&self) -> (r: Self)
        ensures
            r == *self,
    {
        KgHook {
            command: self.command.clone(),
            hook_type: self.hook_type.clone(),
            timeout_ms: self.timeout_ms,
            max_output_size: self.max_output_size,
            cache_ttl_seconds: self.cache_ttl_seconds,
            matcher: clone_opt_string(&self.matcher),
        }
    }
}

impl Default for KgHook {
    fn default() -> (r: Self)
        ensures
            r.command@.len() == 0,
            r.hook_type@.len() == 0,
            r.timeout_ms is None,
            r.max_output_size is None,
            r.cache_ttl_seconds is None,
            r.matcher is None,
    {
        KgHook {
            command: String::new(),
            hook_type: String::new(),
            timeout_ms: None,
            max_output_size: None,
            cache_ttl_seconds: None,
            matcher: None,
        }
    }
}

impl Merge for KgHook {
    type Model = KgHook;

    open spec fn model(&self) -> KgHook {
        *self
    }

    open spec fn merge_model(child: KgHook, parent: KgHook) -> KgHook {
        kg_hook_merged(child, parent)
    }

    fn merge_parent(self, parent: Self) -> (r: Self) {
        self.merge(parent)
    }

    fn copy(&self) -> (r: Self) {
        self.clone()
    }
}

} // verus!
