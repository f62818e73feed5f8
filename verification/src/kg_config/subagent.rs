//! Which subagents an agent may call.
use vstd::prelude::*;
use crate::set::StringSet;

verus! {

/// Allow and deny lists for subagents.
#[derive(Clone, Debug, PartialEq, Eq)]
pub struct SubagentConfig {
    pub allow: StringSet,
    pub deny: StringSet,
}

/// The allow and deny sets.
pub struct SubagentConfigView {
    pub allow: Set<Seq<char>>,
    pub deny: Set<Seq<char>>,
}

impl View for SubagentConfig {
    type V = SubagentConfigView;

    open spec fn view(&self) -> SubagentConfigView {
        SubagentConfigView { allow: self.allow@, deny: self.deny@ }
    }
}

impl SubagentConfig {
    /// Merging unites the allow lists and the deny lists.
    pub fn merge(self, other: Self) -> (r: Self)
        ensures
            r@.allow == self@.allow.union(other@.allow),
            r@.deny == self@.deny.union(other@.deny),
    {
        let mut s = self;
        if !other.allow.is_empty() {
            s.allow.extend(other.allow);
        } else {
            assert(s.allow@.union(other.allow@) =~= s.allow@);
        }
        if !other.deny.is_empty() {
            s.deny.extend(other.deny);
        } else {
            assert(s.deny@.union(other.deny@) =~= s.deny@);
        }
        s
    }

    /// Whether both lists are empty (the default configuration).
    pub fn is_default(&self) -> (b: bool)
        ensures
            b == (self@.allow.len() == 0 && self@.deny.len() == 0),
    {
        proof {
            self.allow.lemma_view();
            self.deny.lemma_view();
        }
        self.allow.len() == 0 && self.deny.len() == 0
    }
}

impl Default for SubagentConfig {
    fn default() -> (r: Self)
        ensures
            r@.allow == Set::<Seq<char>>::empty(),
            r@.deny == Set::<Seq<char>>::empty(),
    {
        SubagentConfig { allow: StringSet::new(), deny: StringSet::new() }
    }
}

} // verus!
