//! Analysing existing agent files before bootstrapping: what they share.
use vstd::prelude::*;
use crate::map::StringMap;
use crate::set::StringSet;

verus! {

/// What the analysis reads of one existing agent file: where it is, and the
/// settings compared across agents.
pub struct AnalysisAgent {
    pub source: String,
    pub path: String,
    pub allowed_tools: StringSet,
    /// MCP tools the agent uses.
    pub other_tools: StringSet,
    /// The shell commands it allows, when it has shell settings.
    pub shell: Option<StringSet>,
    pub resources: StringSet,
    /// The names of its knowledge bases.
    pub knowledge: StringSet,
}

/// Settings shared by two or more agents, each with the agents sharing it.
pub struct Overlap {
    pub allowed_tools: StringMap<StringSet>,
    pub mcp_servers: StringMap<StringSet>,
    pub shell_commands: StringMap<StringSet>,
    pub resources: StringMap<StringSet>,
}

/// Counts over all agents.
pub struct Summary {
    pub total_agents: usize,
    pub total_mcp_servers: usize,
    pub agents_with_shell_settings: usize,
    pub agents_with_knowledge: usize,
}

/// The analysis of a set of agent files.
pub struct Analysis {
    pub agents: StringMap<AnalysisAgent>,
    pub overlap: Overlap,
    pub summary: Summary,
}

/// The names whose values include `v`.
pub open spec fn holders(m: Map<Seq<char>, StringSet>, v: Seq<char>) -> Set<Seq<char>> {
    m.dom().filter(|n: Seq<char>| m[n]@.contains(v))
}

/// For each value held under two or more names, those names.
pub fn overlap_index(m: &StringMap<StringSet>) -> (r: StringMap<StringSet>)
    ensures
        forall|v: Seq<char>| #[trigger] r@.contains_key(v) <==> holders(m@, v).len() >= 2,
        forall|v: Seq<char>| #[trigger] r@.contains_key(v) ==> r@[v]@ == holders(m@, v),
{
    let mut inverse: StringMap<StringSet> = StringMap::new();
    let n = m.len();
    proof {
        m.lemma_dom();
    }
    let mut i: usize = 0;
    while i < n
        invariant
            n == m.ordered_keys().len(),
            m.ordered_keys().to_set() == m@.dom(),
            m@.dom().finite(),
            i <= n,
            forall|v: Seq<char>| #[trigger] inverse@.contains_key(v) ==>
                inverse@[v]@ == m.ordered_keys().take(i as int).to_set().filter(|k: Seq<char>| m@[k]@.contains(v)),
            forall|v: Seq<char>| !#[trigger] inverse@.contains_key(v) ==>
                m.ordered_keys().take(i as int).to_set().filter(|k: Seq<char>| m@[k]@.contains(v)) == Set::<Seq<char>>::empty(),
        decreases n - i,
    {
        let (name, values) = m.entry_at(i);
        let ghost ks = m.ordered_keys();
        let ghost before = inverse@;
        proof {
            assert(ks.take(i + 1) =~= ks.take(i as int).push(name@));
            ks.take(i as int).lemma_push_to_set_commute(name@);
            values.lemma_view();
        }
        let items = values.as_vec();
        let mut j: usize = 0;
        while j < items.len()
            invariant
                ks == m.ordered_keys(),
                i < n,
                n == ks.len(),
                name@ == ks[i as int],
                m@.contains_key(name@),
                m@[name@] == *values,
                crate::set::views(items@) == values.ordered(),
                values.ordered().to_set() == values@,
                j <= items.len(),
                forall|v: Seq<char>| #[trigger] inverse@.contains_key(v) ==>
                    inverse@[v]@ == ks.take(i as int).to_set().filter(|k: Seq<char>| m@[k]@.contains(v)).union(
                        if values.ordered().take(j as int).contains(v) { set![name@] } else { Set::empty() }),
                forall|v: Seq<char>| !#[trigger] inverse@.contains_key(v) ==>
                    ks.take(i as int).to_set().filter(|k: Seq<char>| m@[k]@.contains(v)) == Set::<Seq<char>>::empty()
                    && !values.ordered().take(j as int).contains(v),
            decreases items.len() - j,
        {
            let v = &items[j];
            let ghost prev = inverse@;
            let mut holders_set = match inverse.remove(v.as_str()) {
                Some(s) => s,
                None => StringSet::new(),
            };
            holders_set.insert(name.clone());
            inverse.insert(v.clone(), holders_set);
            proof {
                let o = values.ordered();
                assert(o[j as int] == v@);
                assert(o.take(j + 1) =~= o.take(j as int).push(v@));
                assert forall|w: Seq<char>| #[trigger] inverse@.contains_key(w) implies
                    inverse@[w]@ == ks.take(i as int).to_set().filter(|k: Seq<char>| m@[k]@.contains(w)).union(
                        if o.take(j + 1).contains(w) { set![name@] } else { Set::empty() }) by {
                    let base = ks.take(i as int).to_set().filter(|k: Seq<char>| m@[k]@.contains(w));
                    if w == v@ {
                        assert(o.take(j + 1)[j as int] == w);
                        if prev.contains_key(w) {
                            if o.take(j as int).contains(w) {
                                assert(inverse@[w]@ =~= base.union(set![name@]));
                            } else {
                                assert(inverse@[w]@ =~= base.union(set![name@]));
                            }
                        } else {
                            assert(inverse@[w]@ =~= base.union(set![name@]));
                        }
                    } else {
                        assert(o.take(j + 1).contains(w) == o.take(j as int).contains(w)) by {
                            if o.take(j + 1).contains(w) {
                                let t = o.take(j + 1);
                                let q = choose|q: int| 0 <= q < t.len() && #[trigger] t[q] == w;
                                assert(o.take(j as int)[q] == w);
                            }
                            if o.take(j as int).contains(w) {
                                let t = o.take(j as int);
                                let q = choose|q: int| 0 <= q < t.len() && #[trigger] t[q] == w;
                                assert(o.take(j + 1)[q] == w);
                            }
                        }
                    }
                }
                assert forall|w: Seq<char>| !#[trigger] inverse@.contains_key(w) implies
                    ks.take(i as int).to_set().filter(|k: Seq<char>| m@[k]@.contains(w)) == Set::<Seq<char>>::empty()
                    && !o.take(j + 1).contains(w) by {
                    assert(w != v@);
                    if o.take(j + 1).contains(w) {
                        let t = o.take(j + 1);
                        let q = choose|q: int| 0 <= q < t.len() && #[trigger] t[q] == w;
                        assert(o.take(j as int)[q] == w);
                    }
                }
            }
            j = j + 1;
        }
        proof {
            let o = values.ordered();
            assert(o.take(items.len() as int) =~= o);
            assert forall|v: Seq<char>| #[trigger] inverse@.contains_key(v) implies
                inverse@[v]@ == ks.take(i + 1).to_set().filter(|k: Seq<char>| m@[k]@.contains(v)) by {
                let a = ks.take(i as int).to_set().filter(|k: Seq<char>| m@[k]@.contains(v));
                let b = ks.take(i + 1).to_set().filter(|k: Seq<char>| m@[k]@.contains(v));
                assert(o.contains(v) == values@.contains(v));
                assert(b =~= a.union(if o.contains(v) { set![name@] } else { Set::empty() }));
            }
            assert forall|v: Seq<char>| !#[trigger] inverse@.contains_key(v) implies
                ks.take(i + 1).to_set().filter(|k: Seq<char>| m@[k]@.contains(v)) == Set::<Seq<char>>::empty() by {
                let b = ks.take(i + 1).to_set().filter(|k: Seq<char>| m@[k]@.contains(v));
                assert(o.contains(v) == values@.contains(v));
                assert(b =~= Set::<Seq<char>>::empty());
            }
        }
        i = i + 1;
    }
    proof {
        assert(m.ordered_keys().take(n as int) =~= m.ordered_keys());
    }
    // Keep the values held under two names or more.
    let mut r: StringMap<StringSet> = StringMap::new();
    let count = inverse.len();
    proof {
        inverse.lemma_dom();
    }
    let mut k: usize = 0;
    while k < count
        invariant
            count == inverse.ordered_keys().len(),
            inverse.ordered_keys().to_set() == inverse@.dom(),
            k <= count,
            m@.dom().finite(),
            forall|v: Seq<char>| #[trigger] inverse@.contains_key(v) ==> inverse@[v]@ == holders(m@, v),
            forall|v: Seq<char>| !#[trigger] inverse@.contains_key(v) ==> holders(m@, v) == Set::<Seq<char>>::empty(),
            forall|v: Seq<char>| #[trigger] r@.contains_key(v) <==>
                inverse.ordered_keys().take(k as int).contains(v) && holders(m@, v).len() >= 2,
            forall|v: Seq<char>| #[trigger] r@.contains_key(v) ==> r@[v]@ == holders(m@, v),
        decreases count - k,
    {
        let (v, s) = inverse.entry_at(k);
        let ghost ks = inverse.ordered_keys();
        proof {
            assert(ks.take(k + 1) =~= ks.take(k as int).push(v@));
        }
        if s.len() > 1 {
            r.insert(v.clone(), s.duplicate());
        }
        proof {
            assert forall|w: Seq<char>| #[trigger] r@.contains_key(w) <==>
                ks.take(k + 1).contains(w) && holders(m@, w).len() >= 2 by {
                if w == v@ {
                    assert(ks.take(k + 1)[k as int] == w);
                } else {
                    if ks.take(k + 1).contains(w) {
                        let t = ks.take(k + 1);
                        let q = choose|q: int| 0 <= q < t.len() && #[trigger] t[q] == w;
                        assert(ks.take(k as int)[q] == w);
                    }
                    if ks.take(k as int).contains(w) {
                        let t = ks.take(k as int);
                        let q = choose|q: int| 0 <= q < t.len() && #[trigger] t[q] == w;
                        assert(ks.take(k + 1)[q] == w);
                    }
                }
            }
        }
        k = k + 1;
    }
    proof {
        assert(inverse.ordered_keys().take(count as int) =~= inverse.ordered_keys());
        assert forall|v: Seq<char>| #[trigger] r@.contains_key(v) <==> holders(m@, v).len() >= 2 by {
            if holders(m@, v).len() >= 2 {
                if !inverse@.contains_key(v) {
                    assert(holders(m@, v).len() == 0);
                }
                assert(inverse.ordered_keys().to_set().contains(v));
            }
        }
    }
    r
}

/// The settings compared across agents.
#[derive(Copy, Clone, Debug, PartialEq, Eq, Structural)]
pub enum Compared {
    AllowedTools,
    McpTools,
    ShellCommands,
    Resources,
}

/// The values of one compared setting of an agent (no shell commands
/// without shell settings).
pub open spec fn compared_values(a: AnalysisAgent, c: Compared) -> Set<Seq<char>> {
    match c {
        Compared::AllowedTools => a.allowed_tools@,
        Compared::McpTools => a.other_tools@,
        Compared::ShellCommands => match a.shell {
            Some(s) => s@,
            None => Set::empty(),
        },
        Compared::Resources => a.resources@,
    }
}

/// Each compared setting reads its own field of the agent: allowed tools,
/// MCP tools, the allowed shell commands (none without shell settings), or
/// resources.
pub proof fn lemma_compared_fields(a: AnalysisAgent, v: Seq<char>)
    ensures
        compared_values(a, Compared::AllowedTools).contains(v) <==> a.allowed_tools@.contains(v),
        compared_values(a, Compared::McpTools).contains(v) <==> a.other_tools@.contains(v),
        compared_values(a, Compared::ShellCommands).contains(v) <==> (a.shell is Some && a.shell->0@.contains(v)),
        compared_values(a, Compared::Resources).contains(v) <==> a.resources@.contains(v),
{
}

/// A value is reported as shared in a setting exactly when at least two
/// agents hold it there, and then with exactly those agents.
pub proof fn lemma_overlap_shared(agents: Map<Seq<char>, AnalysisAgent>, c: Compared, r: Map<Seq<char>, StringSet>, v: Seq<char>)
    requires
        overlap_of(agents, c, r),
    ensures
        r.contains_key(v) <==> agents.dom().filter(|n: Seq<char>| compared_values(agents[n], c).contains(v)).len() >= 2,
        r.contains_key(v) ==> forall|n: Seq<char>| r[v]@.contains(n)
            <==> (agents.contains_key(n) && compared_values(agents[n], c).contains(v)),
{
    assert(sharing(agents, c, v) == agents.dom().filter(|n: Seq<char>| compared_values(agents[n], c).contains(v)));
    if r.contains_key(v) {
        assert(r[v]@ == sharing(agents, c, v));
    }
}

/// The agents whose compared setting includes `v`.
pub open spec fn sharing(agents: Map<Seq<char>, AnalysisAgent>, c: Compared, v: Seq<char>) -> Set<Seq<char>> {
    agents.dom().filter(|n: Seq<char>| compared_values(agents[n], c).contains(v))
}

/// `r` maps each value that two or more agents share in setting `c` to the
/// agents sharing it.
pub open spec fn overlap_of(agents: Map<Seq<char>, AnalysisAgent>, c: Compared, r: Map<Seq<char>, StringSet>) -> bool {
    &&& forall|v: Seq<char>| #[trigger] r.contains_key(v) <==> sharing(agents, c, v).len() >= 2
    &&& forall|v: Seq<char>| #[trigger] r.contains_key(v) ==> r[v]@ == sharing(agents, c, v)
}

fn compared(a: &AnalysisAgent, c: Compared) -> (r: StringSet)
    ensures
        r@ == compared_values(*a, c),
{
    match c {
        Compared::AllowedTools => a.allowed_tools.duplicate(),
        Compared::McpTools => a.other_tools.duplicate(),
        Compared::ShellCommands => match &a.shell {
            Some(s) => s.duplicate(),
            None => StringSet::new(),
        },
        Compared::Resources => a.resources.duplicate(),
    }
}

/// For each value two or more agents share in setting `c`, those agents.
pub fn overlap(agents: &StringMap<AnalysisAgent>, c: Compared) -> (r: StringMap<StringSet>)
    ensures
        overlap_of(agents@, c, r@),
{
    let mut projected: StringMap<StringSet> = StringMap::new();
    let n = agents.len();
    proof {
        agents.lemma_dom();
    }
    let mut i: usize = 0;
    while i < n
        invariant
            n == agents.ordered_keys().len(),
            agents.ordered_keys().to_set() == agents@.dom(),
            i <= n,
            projected@.dom() == agents.ordered_keys().take(i as int).to_set(),
            forall|k: Seq<char>| #[trigger] projected@.contains_key(k) ==> projected@[k]@ == compared_values(agents@[k], c),
        decreases n - i,
    {
        let (name, a) = agents.entry_at(i);
        projected.insert(name.clone(), compared(a, c));
        proof {
            let ks = agents.ordered_keys();
            assert(ks.take(i + 1) =~= ks.take(i as int).push(name@));
            ks.take(i as int).lemma_push_to_set_commute(name@);
        }
        i = i + 1;
    }
    proof {
        assert(agents.ordered_keys().take(n as int) =~= agents.ordered_keys());
    }
    let r = overlap_index(&projected);
    proof {
        assert forall|v: Seq<char>| holders(projected@, v) == sharing(agents@, c, v) by {
            assert(holders(projected@, v) =~= sharing(agents@, c, v));
        }
    }
    r
}

/// Allowed tools shared by two or more agents.
pub fn overlap_allowed_tools(agents: &StringMap<AnalysisAgent>) -> (r: StringMap<StringSet>)
    ensures
        overlap_of(agents@, Compared::AllowedTools, r@),
{
    overlap(agents, Compared::AllowedTools)
}

/// MCP tools shared by two or more agents.
pub fn overlap_mcp(agents: &StringMap<AnalysisAgent>) -> (r: StringMap<StringSet>)
    ensures
        overlap_of(agents@, Compared::McpTools, r@),
{
    overlap(agents, Compared::McpTools)
}

/// Allowed shell commands shared by two or more agents.
pub fn overlap_shell(agents: &StringMap<AnalysisAgent>) -> (r: StringMap<StringSet>)
    ensures
        overlap_of(agents@, Compared::ShellCommands, r@),
{
    overlap(agents, Compared::ShellCommands)
}

/// Resources shared by two or more agents.
pub fn overlap_resources(agents: &StringMap<AnalysisAgent>) -> (r: StringMap<StringSet>)
    ensures
        overlap_of(agents@, Compared::Resources, r@),
{
    overlap(agents, Compared::Resources)
}

/// The analysis of `agents`: what they share, and the number of agents, of
/// distinct MCP tools, of agents with shell settings and of agents with
/// knowledge bases.
pub fn build_analysis(agents: StringMap<AnalysisAgent>) -> (r: Analysis)
    ensures
        r.agents@ == agents@,
        overlap_of(agents@, Compared::AllowedTools, r.overlap.allowed_tools@),
        overlap_of(agents@, Compared::McpTools, r.overlap.mcp_servers@),
        overlap_of(agents@, Compared::ShellCommands, r.overlap.shell_commands@),
        overlap_of(agents@, Compared::Resources, r.overlap.resources@),
        r.summary.total_agents == agents@.len(),
        r.summary.total_mcp_servers == all_mcp_tools(agents@).len(),
        r.summary.agents_with_shell_settings == agents@.dom().filter(|n: Seq<char>| agents@[n].shell is Some).len(),
        r.summary.agents_with_knowledge == agents@.dom().filter(|n: Seq<char>| agents@[n].knowledge@.len() > 0).len(),
{
    let overlap = Overlap {
        allowed_tools: overlap_allowed_tools(&agents),
        mcp_servers: overlap_mcp(&agents),
        shell_commands: overlap_shell(&agents),
        resources: overlap_resources(&agents),
    };
    let mut mcp_tools = StringSet::new();
    let mut with_shell: usize = 0;
    let mut with_knowledge: usize = 0;
    let n = agents.len();
    let key_list = agents.keys();
    proof {
        agents.lemma_dom();
    }
    let ghost ks = agents.ordered_keys();
    let ghost shell_pred = |n: Seq<char>| agents@[n].shell is Some;
    let ghost know_pred = |n: Seq<char>| agents@[n].knowledge@.len() > 0;
    let mut i: usize = 0;
    proof {
        assert(ks.take(0).to_set() =~= Set::<Seq<char>>::empty());
        assert(ks.take(0).to_set().filter(shell_pred) =~= Set::<Seq<char>>::empty());
        assert(ks.take(0).to_set().filter(know_pred) =~= Set::<Seq<char>>::empty());
        assert(union_of_mcp(agents@, ks.take(0)) =~= Set::<Seq<char>>::empty());
    }
    while i < n
        invariant
            ks == agents.ordered_keys(),
            n == ks.len(),
            ks.to_set() == agents@.dom(),
            ks.no_duplicates(),
            shell_pred == (|n: Seq<char>| agents@[n].shell is Some),
            know_pred == (|n: Seq<char>| agents@[n].knowledge@.len() > 0),
            i <= n,
            mcp_tools@ == union_of_mcp(agents@, ks.take(i as int)),
            with_shell == ks.take(i as int).to_set().filter(shell_pred).len(),
            with_knowledge == ks.take(i as int).to_set().filter(know_pred).len(),
            with_shell <= i,
            with_knowledge <= i,
        decreases n - i,
    {
        let (name, a) = agents.entry_at(i);
        let ghost t = ks.take(i as int);
        proof {
            assert(ks.take(i + 1) =~= t.push(name@));
            t.lemma_push_to_set_commute(name@);
            assert(!t.to_set().contains(name@)) by {
                if t.contains(name@) {
                    let q = choose|q: int| 0 <= q < t.len() && #[trigger] t[q] == name@;
                    assert(ks[q] == ks[i as int]);
                }
            }
            vstd::seq_lib::seq_to_set_is_finite(t);
        }
        mcp_tools.union_with(&a.other_tools);
        if a.shell.is_some() {
            proof {
                assert(t.push(name@).to_set().filter(shell_pred) =~= t.to_set().filter(shell_pred).insert(name@));
            }
            with_shell = with_shell + 1;
        } else {
            proof {
                assert(t.push(name@).to_set().filter(shell_pred) =~= t.to_set().filter(shell_pred));
            }
        }
        proof {
            a.knowledge.lemma_view();
        }
        if a.knowledge.len() > 0 {
            proof {
                assert(t.push(name@).to_set().filter(know_pred) =~= t.to_set().filter(know_pred).insert(name@));
            }
            with_knowledge = with_knowledge + 1;
        } else {
            proof {
                assert(t.push(name@).to_set().filter(know_pred) =~= t.to_set().filter(know_pred));
            }
        }
        proof {
            assert(union_of_mcp(agents@, ks.take(i + 1)) == union_of_mcp(agents@, t).union(agents@[name@].other_tools@)) by {
                assert(ks.take(i + 1).drop_last() =~= t);
            }
        }
        i = i + 1;
    }
    proof {
        assert(ks.take(n as int) =~= ks);
        lemma_union_of_mcp(agents@, ks);
    }
    let total_agents = agents.len();
    let total_mcp_servers = mcp_tools.len();
    Analysis {
        agents,
        overlap,
        summary: Summary {
            total_agents,
            total_mcp_servers,
            agents_with_shell_settings: with_shell,
            agents_with_knowledge: with_knowledge,
        },
    }
}

/// The MCP tools used by the agents named in `names`.
pub open spec fn union_of_mcp(agents: Map<Seq<char>, AnalysisAgent>, names: Seq<Seq<char>>) -> Set<Seq<char>>
    decreases names.len(),
{
    if names.len() == 0 {
        Set::empty()
    } else {
        union_of_mcp(agents, names.drop_last()).union(agents[names.last()].other_tools@)
    }
}

/// The MCP tools used by any agent.
pub open spec fn all_mcp_tools(agents: Map<Seq<char>, AnalysisAgent>) -> Set<Seq<char>> {
    Set::new(|v: Seq<char>| exists|n: Seq<char>| agents.contains_key(n) && #[trigger] agents[n].other_tools@.contains(v))
}

proof fn lemma_union_of_mcp(agents: Map<Seq<char>, AnalysisAgent>, names: Seq<Seq<char>>)
    requires
        names.to_set() == agents.dom(),
    ensures
        union_of_mcp(agents, names) == all_mcp_tools(agents),
{
    lemma_union_of_mcp_members(agents, names);
    assert(union_of_mcp(agents, names) =~= all_mcp_tools(agents));
}

proof fn lemma_union_of_mcp_members(agents: Map<Seq<char>, AnalysisAgent>, names: Seq<Seq<char>>)
    ensures
        forall|v: Seq<char>| #[trigger] union_of_mcp(agents, names).contains(v) <==>
            exists|q: int| 0 <= q < names.len() && #[trigger] agents[names[q]].other_tools@.contains(v),
    decreases names.len(),
{
    if names.len() > 0 {
        lemma_union_of_mcp_members(agents, names.drop_last());
        assert forall|v: Seq<char>| #[trigger] union_of_mcp(agents, names).contains(v) <==>
            exists|q: int| 0 <= q < names.len() && #[trigger] agents[names[q]].other_tools@.contains(v) by {
            assert(union_of_mcp(agents, names) == union_of_mcp(agents, names.drop_last()).union(agents[names.last()].other_tools@));
            assert(names.last() == names[names.len() - 1]);
            if union_of_mcp(agents, names).contains(v) {
                if union_of_mcp(agents, names.drop_last()).contains(v) {
                    let q = choose|q: int| 0 <= q < names.drop_last().len() && #[trigger] agents[names.drop_last()[q]].other_tools@.contains(v);
                    assert(agents[names[q]].other_tools@.contains(v));
                } else {
                    assert(agents[names[names.len() - 1]].other_tools@.contains(v));
                }
            }
            if exists|q: int| 0 <= q < names.len() && #[trigger] agents[names[q]].other_tools@.contains(v) {
                let q = choose|q: int| 0 <= q < names.len() && #[trigger] agents[names[q]].other_tools@.contains(v);
                if q < names.len() - 1 {
                    assert(names.drop_last()[q] == names[q]);
                    assert(agents[names.drop_last()[q]].other_tools@.contains(v));
                }
            }
        }
    }
}

} // verus!
