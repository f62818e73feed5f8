//! Knowledge bases an agent can consult.
use vstd::prelude::*;
use crate::kiro::hook::{prefer, clone_opt_string};
use crate::merge::Merge;

verus! {

/// A knowledge base as a manifest declares it.
#[derive(Debug, PartialEq, Eq, Hash)]
pub struct KgKnowledge {
    pub source: Option<String>,
    pub description: Option<String>,
    pub index_type: Option<String>,
    pub auto_update: Option<bool>,
}

/// Each setting the child leaves unset comes from the parent.
pub open spec fn knowledge_merged(c: KgKnowledge, p: KgKnowledge) -> KgKnowledge {
    KgKnowledge {
        source: prefer(c.source, p.source),
        description: prefer(c.description, p.description),
        index_type: prefer(c.index_type, p.index_type),
        auto_update: prefer(c.auto_update, p.auto_update),
    }
}

/// A merged knowledge base keeps every setting the child sets, and takes
/// the parent's only where the child leaves one unset.
pub proof fn lemma_knowledge_child_wins(c: KgKnowledge, p: KgKnowledge)
    ensures
        c.source is Some ==> knowledge_merged(c, p).source == c.source,
        c.source is None ==> knowledge_merged(c, p).source == p.source,
        c.description is Some ==> knowledge_merged(c, p).description == c.description,
        c.description is None ==> knowledge_merged(c, p).description == p.description,
        c.index_type is Some ==> knowledge_merged(c, p).index_type == c.index_type,
        c.index_type is None ==> knowledge_merged(c, p).index_type == p.index_type,
        c.auto_update is Some ==> knowledge_merged(c, p).auto_update == c.auto_update,
        c.auto_update is None ==> knowledge_merged(c, p).auto_update == p.auto_update,
{
}

impl KgKnowledge {
    /// Merges this (child) knowledge base with the parent's `other`.
    pub fn merge(self, other: Self) -> (r: Self)
        ensures
            r == knowledge_merged(self, other),
    {
        let mut s = self;
        if s.source.is_none() && other.source.is_some() {
            s.source = other.source;
        }
        if s.description.is_none() && other.description.is_some() {
            s.description = other.description;
        }
        if s.index_type.is_none() && other.index_type.is_some() {
            s.index_type = other.index_type;
        }
        if s.auto_update.is_none() && other.auto_update.is_some() {
            s.auto_update = other.auto_update;
        }
        s
    }
}

impl Clone for KgKnowledge {
    fn clone(&self) -> (r: Self)
        ensures
            r == *self,
    {
        KgKnowledge {
            source: clone_opt_string(&self.source),
            description: clone_opt_string(&self.description),
            index_type: clone_opt_string(&self.index_type),
            auto_update: self.auto_update,
        }
    }
}

impl Merge for KgKnowledge {
    type Model = KgKnowledge;

    open spec fn model(&self) -> KgKnowledge {
        *self
    }

    open spec fn merge_model(child: KgKnowledge, parent: KgKnowledge) -> KgKnowledge {
        knowledge_merged(child, parent)
    }

    fn merge_parent(self, parent: Self) -> (r: Self) {
        self.merge(parent)
    }

    fn copy(&self) -> (r: Self) {
        self.clone()
    }
}

} // verus!
