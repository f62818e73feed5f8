//! Hooks by trigger, as the legacy manifest format declares them.
use vstd::prelude::*;
use crate::agent::hook::{Hook, HookTrigger, hook_merged};
use crate::map::StringMap;
use crate::merge::{merge_maps, merge_maps_spec, model_map, merge_fn};

verus! {

/// Each trigger's hooks, by hook name.
#[derive(Debug)]
pub struct HookPart {
    pub agent_spawn: StringMap<Hook>,
    pub user_prompt_submit: StringMap<Hook>,
    pub pre_tool_use: StringMap<Hook>,
    pub post_tool_use: StringMap<Hook>,
    pub stop: StringMap<Hook>,
}

impl HookPart {
    /// The hooks of one trigger.
    pub open spec fn of(self, t: HookTrigger) -> StringMap<Hook> {
        match t {
            HookTrigger::AgentSpawn => self.agent_spawn,
            HookTrigger::UserPromptSubmit => self.user_prompt_submit,
            HookTrigger::PreToolUse => self.pre_tool_use,
            HookTrigger::PostToolUse => self.post_tool_use,
            HookTrigger::Stop => self.stop,
        }
    }

    /// The hooks of `trigger`, in ascending order of hook name.
    pub fn hooks(&self, trigger: &HookTrigger) -> (r: Vec<Hook>)
        ensures
            r@ == self.of(*trigger).ordered_keys().map_values(|k: Seq<char>| self.of(*trigger)@[k]),
    {
        let m = match trigger {
            HookTrigger::AgentSpawn => &self.agent_spawn,
            HookTrigger::UserPromptSubmit => &self.user_prompt_submit,
            HookTrigger::PreToolUse => &self.pre_tool_use,
            HookTrigger::PostToolUse => &self.post_tool_use,
            HookTrigger::Stop => &self.stop,
        };
        let ghost f = |k: Seq<char>| m@[k];
        let n = m.len();
        let mut r: Vec<Hook> = Vec::new();
        let mut i: usize = 0;
        while i < n
            invariant
                n == m.ordered_keys().len(),
                f == (|k: Seq<char>| m@[k]),
                i <= n,
                r@ == m.ordered_keys().take(i as int).map_values(f),
            decreases n - i,
        {
            let (_k, h) = m.entry_at(i);
            r.push(h.clone());
            proof {
                let ks = m.ordered_keys();
                assert(ks.take(i + 1) =~= ks.take(i as int).push(ks[i as int]));
                assert(r@ =~= ks.take(i + 1).map_values(f));
            }
            i = i + 1;
        }
        proof {
            assert(m.ordered_keys().take(n as int) =~= m.ordered_keys());
        }
        r
    }

    /// Merges this (child) part with the parent's `other`, trigger by
    /// trigger: hooks of either are kept, and a hook both name is the child's
    /// merged with the parent's.
    pub fn merge(self, other: Self) -> (r: Self)
        ensures
            r.agent_spawn@ == hooks_merged(self.agent_spawn@, other.agent_spawn@),
            r.user_prompt_submit@ == hooks_merged(self.user_prompt_submit@, other.user_prompt_submit@),
            r.pre_tool_use@ == hooks_merged(self.pre_tool_use@, other.pre_tool_use@),
            r.post_tool_use@ == hooks_merged(self.post_tool_use@, other.post_tool_use@),
            r.stop@ == hooks_merged(self.stop@, other.stop@),
    {
        HookPart {
            agent_spawn: merge_hooks(self.agent_spawn, other.agent_spawn),
            user_prompt_submit: merge_hooks(self.user_prompt_submit, other.user_prompt_submit),
            pre_tool_use: merge_hooks(self.pre_tool_use, other.pre_tool_use),
            post_tool_use: merge_hooks(self.post_tool_use, other.post_tool_use),
            stop: merge_hooks(self.stop, other.stop),
        }
    }
}

/// The hooks of a child and its parent, by name: a name only one declares
/// keeps its hook; a shared name has the child's hook merged with the
/// parent's.
pub open spec fn hooks_merged(base: Map<Seq<char>, Hook>, other: Map<Seq<char>, Hook>) -> Map<Seq<char>, Hook> {
    merge_maps_spec(base, other, |c: Hook, p: Hook| hook_merged(c, p))
}

/// Merges a child's hooks with its parent's.
pub fn merge_hooks(base: StringMap<Hook>, other: StringMap<Hook>) -> (r: StringMap<Hook>)
    ensures
        r@ == hooks_merged(base@, other@),
{
    if base.is_empty() {
        proof {
            assert(hooks_merged(base@, other@) =~= other@);
        }
        return other;
    }
    if other.is_empty() {
        proof {
            assert(hooks_merged(base@, other@) =~= base@);
        }
        return base;
    }
    let ghost b = base@;
    let ghost o = other@;
    let r = merge_maps(base, other);
    proof {
        assert(model_map(b) =~= b);
        assert(model_map(o) =~= o);
        assert(model_map(r@) =~= r@);
        assert(merge_maps_spec(b, o, merge_fn::<Hook>()) =~= hooks_merged(b, o));
    }
    r
}

impl Default for HookPart {
    fn default() -> (r: Self)
        ensures
            r.agent_spawn@ == Map::<Seq<char>, Hook>::empty(),
            r.user_prompt_submit@ == Map::<Seq<char>, Hook>::empty(),
            r.pre_tool_use@ == Map::<Seq<char>, Hook>::empty(),
            r.post_tool_use@ == Map::<Seq<char>, Hook>::empty(),
            r.stop@ == Map::<Seq<char>, Hook>::empty(),
    {
        HookPart {
            agent_spawn: StringMap::new(),
            user_prompt_submit: StringMap::new(),
            pre_tool_use: StringMap::new(),
            post_tool_use: StringMap::new(),
            stop: StringMap::new(),
        }
    }
}

} // verus!
