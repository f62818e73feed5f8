//! Hooks of the legacy agent format.
use vstd::prelude::*;
use crate::kiro::hook::{prefer, clone_opt_string};
use crate::merge::Merge;

pub use crate::kiro::hook::HookTrigger;

verus! {

/// A hook as the legacy agent file holds it.
#[derive(Default, Debug, Clone, Eq, PartialEq)]
pub struct AgentHook {
    /// The command to run when the hook is triggered
    pub command: String,
    /// Optional glob matcher for hook
    pub matcher: Option<String>,
}

/// A hook as the legacy format declares it.
#[derive(Debug, Eq, PartialEq)]
pub struct Hook {
    /// The command to run when the hook is triggered
    pub command: String,
    /// The trigger's name
    pub hook_type: String,
    /// Optional glob matcher for hook
    pub matcher: Option<String>,
}

/// What a child's hook becomes when merged with its parent's: an unset
/// matcher and an empty command come from the parent; the type stays.
pub open spec fn hook_merged(c: Hook, p: Hook) -> Hook {
    Hook {
        command: if c.command@.len() == 0 { p.command } else { c.command },
        hook_type: c.hook_type,
        matcher: prefer(c.matcher, p.matcher),
    }
}

impl Hook {
    /// Merges this (child) hook with the parent's `o`.
    pub fn merge(self, o: Self) -> (r: Self)
        ensures
            r == hook_merged(self, o),
    {
        let mut s = self;
        if s.matcher.is_none() && o.matcher.is_some() {
            s.matcher = o.matcher;
        }
        if s.command.as_str().unicode_len() == 0 {
            s.command = o.command;
        }
        s
    }
}

impl Clone for Hook {
    fn clone(&self) -> (r: Self)
        ensures
            r == *self,
    {
        Hook {
            command: self.command.clone(),
            hook_type: self.hook_type.clone(),
            matcher: clone_opt_string(&self.matcher),
        }
    }
}

impl Default for Hook {
    fn default() -> (r: Self)
        ensures
            r.command@.len() == 0,
            r.hook_type@.len() == 0,
            r.matcher is None,
    {
        Hook { command: String::new(), hook_type: String::new(), matcher: None }
    }
}

impl Merge for Hook {
    type Model = Hook;

    open spec fn model(&self) -> Hook {
        *self
    }

    open spec fn merge_model(child: Hook, parent: Hook) -> Hook {
        hook_merged(child, parent)
    }

    fn merge_parent(self, parent: Self) -> (r: Self) {
        self.merge(parent)
    }

    fn copy(&self) -> (r: Self) {
        self.clone()
    }
}

} // verus!
