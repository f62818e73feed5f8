//! Discovered agents, their inheritance, and what is written for them.
use vstd::prelude::*;
use crate::map::StringMap;
use crate::source::AgentSourceSlots;
use crate::generator::graph::Graph;
use crate::kg_config::manifest::Manifest;
use crate::kiro::{KiroAgent, agent_made_from};
use crate::generator::merge::names_are_keys;
use crate::kiro::tools::ToolTarget;
use crate::set::views;
use crate::text::{concat, decimal, decimal_string, join, join_seq, join_path, path_joined};

pub mod graph;
pub mod merge;
pub mod config_location;
pub mod discover;

verus! {

/// The inheritance graph of a set of discovered agents: each agent points at
/// the names its merged declaration inherits from.
pub open spec fn graph_of(agents: Map<Seq<char>, AgentSourceSlots>) -> Graph {
    Map::new(|k: Seq<char>| agents.contains_key(k), |k: Seq<char>| agents[k].merged.inherits@)
}

/// The agents of a list of discovered sources, each under its own name; a
/// later source replaces an earlier one of the same name.
pub open spec fn slots_map(s: Seq<AgentSourceSlots>) -> Map<Seq<char>, AgentSourceSlots>
    decreases s.len(),
{
    if s.len() == 0 {
        Map::empty()
    } else {
        slots_map(s.drop_last()).insert(s.last().name@, s.last())
    }
}

/// The discovered agents, by name, and where global agent files live.
pub struct Generator {
    pub global_path: String,
    pub agents: StringMap<AgentSourceSlots>,
}

impl Generator {
    /// The inheritance graph of the discovered agents.
    pub open spec fn graph(&self) -> Graph {
        graph_of(self.agents@)
    }

    /// A generator over the discovered `sources`, keyed by agent name.
    pub fn new(global_path: String, sources: Vec<AgentSourceSlots>) -> (r: Self)
        ensures
            r.agents@ == slots_map(sources@),
            r.global_path == global_path,
            (forall|i: int| 0 <= i < sources@.len() ==> (#[trigger] sources@[i]).merged.name@ == sources@[i].name@)
                ==> names_are_keys(r.agents@),
    {
        proof {
            if forall|i: int| 0 <= i < sources@.len() ==> (#[trigger] sources@[i]).merged.name@ == sources@[i].name@ {
                lemma_slots_map_names(sources@);
            }
        }
        let mut agents: StringMap<AgentSourceSlots> = StringMap::new();
        let mut sources = sources;
        let ghost all = sources@;
        let mut rest: Vec<AgentSourceSlots> = Vec::new();
        // Take the sources from the back, then insert them front to back.
        while sources.len() > 0
            invariant
                all == sources@ + rest@.reverse(),
            decreases sources.len(),
        {
            let s = sources.pop().unwrap();
            proof {
                assert(all == sources@ + rest@.push(s).reverse()) by {
                    assert(rest@.push(s).reverse() =~= seq![s] + rest@.reverse());
                }
            }
            rest.push(s);
        }
        assert(all =~= rest@.reverse());
        while rest.len() > 0
            invariant
                agents@ == slots_map(all.take(all.len() - rest@.len())),
                rest@.reverse() == all.skip(all.len() - rest@.len()),
                rest@.len() <= all.len(),
            decreases rest.len(),
        {
            let ghost k = all.len() - rest@.len();
            let s = rest.pop().unwrap();
            proof {
                assert(s == all[k]) by {
                    assert(all.skip(k)[0] == all[k]);
                }
                assert(all.take(k + 1).drop_last() =~= all.take(k));
                assert(rest@.reverse() =~= all.skip(k + 1)) by {
                    assert forall|i: int| 0 <= i < rest@.len() implies rest@.reverse()[i] == all.skip(k + 1)[i] by {
                        assert(all.skip(k)[i + 1] == all[k + 1 + i]);
                    }
                }
            }
            let name = s.name.clone();
            agents.insert(name, s);
        }
        assert(all.take(all.len() as int) =~= all);
        Generator { global_path, agents }
    }
}

/// Sources each named as their own declaration is give agents named after
/// their keys.
pub proof fn lemma_slots_map_names(s: Seq<AgentSourceSlots>)
    requires
        forall|i: int| 0 <= i < s.len() ==> (#[trigger] s[i]).merged.name@ == s[i].name@,
    ensures
        names_are_keys(slots_map(s)),
    decreases s.len(),
{
    if s.len() > 0 {
        let t = s.drop_last();
        assert forall|i: int| 0 <= i < t.len() implies (#[trigger] t[i]).merged.name@ == t[i].name@ by {
            assert(t[i] == s[i]);
        }
        lemma_slots_map_names(t);
        let m = slots_map(s);
        assert forall|k: Seq<char>| #[trigger] m.contains_key(k) implies m[k].merged.name@ == k by {
            if k != s.last().name@ {
                assert(slots_map(t).contains_key(k));
            }
        }
    }
}

/// How a generated agent compares with the file already on disk.
#[derive(Debug)]
pub enum AgentDiff {
    New,
    Same,
    Changed(String),
}

impl AgentDiff {
    /// The comparison as shown to users.
    pub fn to_string(&self) -> (r: String)
        ensures
            r@ == match *self {
                AgentDiff::New => "new agent"@,
                AgentDiff::Same => "no changes"@,
                AgentDiff::Changed(s) => s@,
            },
    {
        match self {
            AgentDiff::New => String::from_str("new agent"),
            AgentDiff::Same => String::from_str("no changes"),
            AgentDiff::Changed(s) => s.clone(),
        }
    }
}

/// An agent ready to be written: its resolved declaration, the agent file
/// made from it, whether it is written at all, and the directory it goes to.
pub struct AgentResult {
    pub kiro_agent: KiroAgent,
    pub agent: Manifest,
    pub writable: bool,
    pub destination: String,
}

/// The force-allowed entries of a built-in tool, in ascending order; only the
/// read, write and shell tools have any.
pub open spec fn force_allow_spec(agent: Manifest, target: ToolTarget) -> Seq<Seq<char>> {
    match target {
        ToolTarget::Read => agent.native_tools.read.force_allow.ordered(),
        ToolTarget::Write => agent.native_tools.write.force_allow.ordered(),
        ToolTarget::Shell => agent.native_tools.shell.force_allow.ordered(),
        _ => Seq::empty(),
    }
}

impl AgentResult {
    /// The resolved agent `agent`, to be written under `destination`, with
    /// the agent definition made from it: templates are never written.
    pub fn new(agent: Manifest, destination: String) -> (r: Self)
        ensures
            r.agent == agent,
            r.writable == !agent.template,
            r.destination == destination,
            agent_made_from(agent, r.kiro_agent),
    {
        let kiro_agent = KiroAgent::from_manifest(&agent);
        let writable = !agent.template;
        AgentResult { kiro_agent, agent, writable, destination }
    }

    pub fn is_template(&self) -> (b: bool)
        ensures
            b == self.agent.template,
    {
        self.agent.template
    }

    /// The force-allowed entries of the tool `target`.
    pub fn force_allow(&self, target: &ToolTarget) -> (r: Vec<String>)
        ensures
            views(r@) == force_allow_spec(self.agent, *target),
    {
        match target {
            ToolTarget::Read => self.agent.native_tools.read.force_allow.as_vec().clone(),
            ToolTarget::Write => self.agent.native_tools.write.force_allow.as_vec().clone(),
            ToolTarget::Shell => self.agent.native_tools.shell.force_allow.as_vec().clone(),
            _ => Vec::new(),
        }
    }
}

/// The discovered agents in order of name.
pub open spec fn agents_in_order(g: Generator) -> Seq<AgentSourceSlots> {
    g.agents.ordered_keys().map_values(|k: Seq<char>| g.agents@[k])
}

/// Whether a local layer declared the agent.
pub open spec fn has_local(a: AgentSourceSlots) -> bool {
    a.local_manifest.path is Some || a.local_agent_file.path is Some
}

/// Whether agent `name` is discovered and declared by a local layer.
pub open spec fn is_local_spec(agents: Map<Seq<char>, AgentSourceSlots>, name: Seq<char>) -> bool {
    agents.contains_key(name) && has_local(agents[name])
}

/// Whether some discovered agent is declared by a local layer.
pub open spec fn any_local(agents: Map<Seq<char>, AgentSourceSlots>) -> bool {
    exists|k: Seq<char>| #[trigger] is_local_spec(agents, k)
}

/// `a` is in the current scope: every agent when none is local, else only
/// the local ones.
pub open spec fn in_scope_spec(agents: Map<Seq<char>, AgentSourceSlots>, a: Manifest) -> bool {
    !any_local(agents) || is_local_spec(agents, a.name@)
}

/// The directory agent files are written to, for a local agent or, given
/// the home directory, for a global one.
pub open spec fn destination_spec(local: bool, home: Option<String>) -> Seq<char> {
    if local {
        ".kiro/agents"@
    } else {
        match home {
            Some(h) => path_joined(path_joined(h@, ".kiro"@), "agents"@),
            None => ".kiro/agents"@,
        }
    }
}

/// A local agent is written to the project's `.kiro/agents`; a global one
/// to `<home>/.kiro/agents` (the project's directory when no home directory
/// is known).
pub proof fn lemma_destination(home: String)
    ensures
        destination_spec(true, Some(home)) == ".kiro/agents"@,
        destination_spec(true, None) == ".kiro/agents"@,
        destination_spec(false, None) == ".kiro/agents"@,
        home@.len() > 0 && home@.last() != '/' && home@[0] == '/'
            ==> destination_spec(false, Some(home)) == home@ + "/.kiro/agents"@,
{
    reveal_strlit(".kiro/agents");
    reveal_strlit(".kiro");
    reveal_strlit("agents");
    reveal_strlit("/.kiro/agents");
    if home@.len() > 0 && home@.last() != '/' && home@[0] == '/' {
        let a = path_joined(home@, ".kiro"@);
        assert(a =~= home@ + "/"@ + ".kiro"@) by { reveal_strlit("/"); }
        assert(a.last() == 'o');
        assert(path_joined(a, "agents"@) =~= home@ + "/.kiro/agents"@) by { reveal_strlit("/"); }
    }
}

/// The current user's home directory, as `dirs::home_dir` finds it.
#[verifier::external_body]
pub(crate) fn home_dir() -> (r: Option<String>)
    ensures
        r is Some ==> r->0@.len() > 0,
{
    match dirs::home_dir() {
        Some(p) => Some(p.to_string_lossy().into_owned()),
        None => None,
    }
}

impl Generator {
    fn values_where(&self, template: bool) -> (r: Vec<&AgentSourceSlots>)
        ensures
            r@.map_values(|a: &AgentSourceSlots| *a)
                == agents_in_order(*self).filter(|a: AgentSourceSlots| a.merged.template == template),
    {
        let ghost vals = agents_in_order(*self);
        let ghost pred = |a: AgentSourceSlots| a.merged.template == template;
        let n = self.agents.len();
        let mut r: Vec<&AgentSourceSlots> = Vec::new();
        let mut i: usize = 0;
        proof {
            reveal(Seq::filter);
            assert(vals.take(0) =~= Seq::<AgentSourceSlots>::empty());
            assert(r@.map_values(|a: &AgentSourceSlots| *a) =~= Seq::<AgentSourceSlots>::empty());
        }
        while i < n
            invariant
                n == self.agents.ordered_keys().len(),
                vals == agents_in_order(*self),
                pred == (|a: AgentSourceSlots| a.merged.template == template),
                i <= n,
                r@.map_values(|a: &AgentSourceSlots| *a) == vals.take(i as int).filter(pred),
            decreases n - i,
        {
            let (_k, a) = self.agents.entry_at(i);
            proof {
                reveal(Seq::filter);
                assert(vals.take(i + 1).drop_last() =~= vals.take(i as int));
                assert(vals.take(i + 1).last() == *a);
            }
            if a.merged.template == template {
                r.push(a);
                proof {
                    assert(r@.map_values(|a: &AgentSourceSlots| *a)
                        =~= vals.take(i as int).filter(pred).push(*a));
                }
            }
            i = i + 1;
        }
        proof {
            assert(vals.take(n as int) =~= vals);
        }
        r
    }

    /// The agents that are not templates, in order of name.
    pub fn concrete_agents(&self) -> (r: Vec<&AgentSourceSlots>)
        ensures
            r@.map_values(|a: &AgentSourceSlots| *a)
                == agents_in_order(*self).filter(|a: AgentSourceSlots| a.merged.template == false),
    {
        self.values_where(false)
    }

    /// The templates, in order of name.
    pub fn template_agents(&self) -> (r: Vec<&AgentSourceSlots>)
        ensures
            r@.map_values(|a: &AgentSourceSlots| *a)
                == agents_in_order(*self).filter(|a: AgentSourceSlots| a.merged.template == true),
    {
        self.values_where(true)
    }

    /// Whether some agent is declared by a local layer.
    pub fn contains_local_agents(&self) -> (b: bool)
        ensures
            b == any_local(self.agents@),
    {
        let n = self.agents.len();
        proof {
            self.agents.lemma_dom();
        }
        let mut i: usize = 0;
        while i < n
            invariant
                n == self.agents.ordered_keys().len(),
                self.agents.ordered_keys().to_set() == self.agents@.dom(),
                i <= n,
                forall|j: int| 0 <= j < i ==> !is_local_spec(self.agents@, #[trigger] self.agents.ordered_keys()[j]),
            decreases n - i,
        {
            let (k, a) = self.agents.entry_at(i);
            if a.has_local() {
                proof {
                    assert(is_local_spec(self.agents@, k@));
                }
                return true;
            }
            i = i + 1;
        }
        proof {
            assert forall|k: Seq<char>| !#[trigger] is_local_spec(self.agents@, k) by {
                if self.agents@.contains_key(k) {
                    assert(self.agents.ordered_keys().to_set().contains(k));
                    let j = choose|j: int| 0 <= j < n && self.agents.ordered_keys()[j] == k;
                    assert(!is_local_spec(self.agents@, self.agents.ordered_keys()[j]));
                }
            }
        }
        false
    }

    /// Whether agent `agent_name` is declared by a local layer.
    pub fn is_local(&self, agent_name: &str) -> (b: bool)
        ensures
            b == is_local_spec(self.agents@, agent_name@),
    {
        match self.agents.get(agent_name) {
            Some(s) => s.has_local(),
            None => false,
        }
    }

    /// The directory that agent `agent_name`'s file goes to, given the home
    /// directory: the project's `.kiro/agents` for a local agent, else the
    /// one under `home` (the project's where there is no home directory).
    pub fn destination_dir_in(&self, agent_name: &str, home: Option<String>) -> (r: String)
        ensures
            r@ == destination_spec(is_local_spec(self.agents@, agent_name@), home),
    {
        if self.is_local(agent_name) {
            String::from_str(".kiro/agents")
        } else {
            match home {
                Some(h) => {
                    let kiro = join_path(h.as_str(), ".kiro");
                    join_path(kiro.as_str(), "agents")
                },
                None => String::from_str(".kiro/agents"),
            }
        }
    }

    /// The directory that agent `agent_name`'s file goes to.
    pub fn destination_dir(&self, agent_name: &str) -> (r: String)
        ensures
            is_local_spec(self.agents@, agent_name@) ==> r@ == ".kiro/agents"@,
            exists|home: Option<String>| r@ == destination_spec(is_local_spec(self.agents@, agent_name@), home),
    {
        let home = home_dir();
        let r = self.destination_dir_in(agent_name, home);
        proof {
            assert(r@ == destination_spec(is_local_spec(self.agents@, agent_name@), home));
        }
        r
    }

    /// The agents in the current scope, in their order: all of them when no
    /// agent is local, else only the local ones.
    pub fn in_scope(&self, agents: Vec<Manifest>) -> (r: Vec<Manifest>)
        ensures
            r@ == agents@.filter(|a: Manifest| in_scope_spec(self.agents@, a)),
    {
        let all_agents = !self.contains_local_agents();
        let ghost pred = |a: Manifest| in_scope_spec(self.agents@, a);
        let mut agents = agents;
        let ghost src = agents@;
        let mut rev: Vec<Manifest> = Vec::new();
        while agents.len() > 0
            invariant
                src == agents@ + rev@.reverse(),
            decreases agents.len(),
        {
            let a = agents.pop().unwrap();
            proof {
                assert(rev@.push(a).reverse() =~= seq![a] + rev@.reverse());
            }
            rev.push(a);
        }
        let mut r: Vec<Manifest> = Vec::new();
        proof {
            reveal(Seq::filter);
            assert(src =~= rev@.reverse());
            assert(src.take(0) =~= Seq::<Manifest>::empty());
        }
        while rev.len() > 0
            invariant
                pred == (|a: Manifest| in_scope_spec(self.agents@, a)),
                all_agents == !any_local(self.agents@),
                rev@.len() <= src.len(),
                rev@.reverse() == src.skip(src.len() - rev@.len()),
                r@ == src.take(src.len() - rev@.len()).filter(pred),
            decreases rev.len(),
        {
            let ghost k = src.len() - rev@.len();
            let a = rev.pop().unwrap();
            proof {
                reveal(Seq::filter);
                assert(a == src[k]) by {
                    assert(src.skip(k)[0] == src[k]);
                }
                assert(rev@.reverse() =~= src.skip(k + 1)) by {
                    assert forall|i: int| 0 <= i < rev@.len() implies rev@.reverse()[i] == src.skip(k + 1)[i] by {
                        assert(src.skip(k)[i + 1] == src[k + 1 + i]);
                    }
                }
                assert(src.take(k + 1).drop_last() =~= src.take(k));
                assert(src.take(k + 1).last() == a);
            }
            if all_agents || self.is_local(a.name.as_str()) {
                r.push(a);
            }
        }
        proof {
            assert(src.take(src.len() as int) =~= src);
        }
        r
    }
}

/// `agents` narrowed to the names in `filter`, in their order; all of them
/// when the filter is empty.
pub fn filter_agents(agents: Vec<Manifest>, filter: &[String]) -> (r: Vec<Manifest>)
    ensures
        r@ == (if filter@.len() == 0 {
            agents@
        } else {
            agents@.filter(|a: Manifest| views(filter@).contains(a.name@))
        }),
{
    if filter.len() == 0 {
        return agents;
    }
    let ghost pred = |a: Manifest| views(filter@).contains(a.name@);
    let mut agents = agents;
    let ghost src = agents@;
    let mut rev: Vec<Manifest> = Vec::new();
    while agents.len() > 0
        invariant
            src == agents@ + rev@.reverse(),
        decreases agents.len(),
    {
        let a = agents.pop().unwrap();
        proof {
            assert(rev@.push(a).reverse() =~= seq![a] + rev@.reverse());
        }
        rev.push(a);
    }
    let mut r: Vec<Manifest> = Vec::new();
    proof {
        reveal(Seq::filter);
        assert(src =~= rev@.reverse());
        assert(src.take(0) =~= Seq::<Manifest>::empty());
    }
    while rev.len() > 0
        invariant
            pred == (|a: Manifest| views(filter@).contains(a.name@)),
            rev@.len() <= src.len(),
            rev@.reverse() == src.skip(src.len() - rev@.len()),
            r@ == src.take(src.len() - rev@.len()).filter(pred),
        decreases rev.len(),
    {
        let ghost k = src.len() - rev@.len();
        let a = rev.pop().unwrap();
        proof {
            reveal(Seq::filter);
            assert(a == src[k]) by {
                assert(src.skip(k)[0] == src[k]);
            }
            assert(rev@.reverse() =~= src.skip(k + 1)) by {
                assert forall|i: int| 0 <= i < rev@.len() implies rev@.reverse()[i] == src.skip(k + 1)[i] by {
                    assert(src.skip(k)[i + 1] == src[k + 1 + i]);
                }
            }
            assert(src.take(k + 1).drop_last() =~= src.take(k));
            assert(src.take(k + 1).last() == a);
        }
        if name_listed(filter, a.name.as_str()) {
            r.push(a);
        }
    }
    proof {
        assert(src.take(src.len() as int) =~= src);
    }
    r
}

fn name_listed(names: &[String], name: &str) -> (b: bool)
    ensures
        b == views(names@).contains(name@),
{
    let mut i: usize = 0;
    while i < names.len()
        invariant
            i <= names.len(),
            forall|k: int| 0 <= k < i ==> names@[k]@ != name@,
        decreases names.len() - i,
    {
        if crate::text::str_eq(names[i].as_str(), name) {
            proof {
                assert(views(names@)[i as int] == name@);
            }
            return true;
        }
        i = i + 1;
    }
    proof {
        if views(names@).contains(name@) {
            let k = choose|k: int| 0 <= k < views(names@).len() && views(names@)[k] == name@;
            assert(names@[k]@ == name@);
        }
    }
    false
}

/// The names of `filter` that name none of the available agents, each once,
/// in the order of the filter.
pub open spec fn missing_names(available: Seq<Seq<char>>, filter: Seq<Seq<char>>) -> Seq<Seq<char>>
    decreases filter.len(),
{
    if filter.len() == 0 {
        Seq::empty()
    } else {
        let m = missing_names(available, filter.drop_last());
        if available.contains(filter.last()) || m.contains(filter.last()) {
            m
        } else {
            m.push(filter.last())
        }
    }
}

/// The names of agents.
pub open spec fn agent_names(agents: Seq<Manifest>) -> Seq<Seq<char>> {
    agents.map_values(|a: Manifest| a.name@)
}

/// The missing names are exactly the names asked for that are not
/// available, each listed once.
pub proof fn lemma_missing_names(available: Seq<Seq<char>>, filter: Seq<Seq<char>>)
    ensures
        forall|x: Seq<char>| missing_names(available, filter).contains(x) <==> (filter.contains(x) && !available.contains(x)),
        missing_names(available, filter).no_duplicates(),
    decreases filter.len(),
{
    if filter.len() > 0 {
        let f = filter.drop_last();
        lemma_missing_names(available, f);
        let m = missing_names(available, f);
        let y = filter.last();
        assert forall|x: Seq<char>| filter.contains(x) <==> (f.contains(x) || x == y) by {
            if filter.contains(x) {
                let k = choose|k: int| 0 <= k < filter.len() && filter[k] == x;
                if k < filter.len() - 1 {
                    assert(f[k] == x);
                }
            }
            if f.contains(x) {
                let k = choose|k: int| 0 <= k < f.len() && f[k] == x;
                assert(filter[k] == x);
            }
            if x == y {
                assert(filter[filter.len() - 1] == x);
            }
        }
        if !(available.contains(y) || m.contains(y)) {
            let r = m.push(y);
            assert forall|x: Seq<char>| r.contains(x) <==> (m.contains(x) || x == y) by {
                if r.contains(x) {
                    let k = choose|k: int| 0 <= k < r.len() && r[k] == x;
                    if k < m.len() {
                        assert(m[k] == x);
                    }
                }
                if m.contains(x) {
                    let k = choose|k: int| 0 <= k < m.len() && m[k] == x;
                    assert(r[k] == x);
                }
                if x == y {
                    assert(r[m.len() as int] == y);
                }
            }
            assert forall|a: int, b: int| 0 <= a < r.len() && 0 <= b < r.len() && a != b implies r[a] != r[b] by {
                if a == m.len() && b < m.len() {
                    assert(m[b] == r[b]);
                    assert(m.contains(r[b]));
                } else if b == m.len() && a < m.len() {
                    assert(m[a] == r[a]);
                    assert(m.contains(r[a]));
                }
            }
        }
    }
}

/// The names asked for in `filter` that no agent of `agents` has.
pub fn missing_agents(agents: &[Manifest], filter: &[String]) -> (r: Vec<String>)
    ensures
        views(r@) == missing_names(agent_names(agents@), views(filter@)),
{
    let ghost avail = agent_names(agents@);
    let ghost f = views(filter@);
    let mut available: Vec<String> = Vec::new();
    let mut i: usize = 0;
    while i < agents.len()
        invariant
            i <= agents.len(),
            avail == agent_names(agents@),
            views(available@) == avail.take(i as int),
        decreases agents.len() - i,
    {
        let ghost before = available@;
        available.push(agents[i].name.clone());
        proof {
            assert(avail[i as int] == agents@[i as int].name@);
            assert(views(available@) =~= views(before).push(agents@[i as int].name@));
            assert(avail.take(i + 1) =~= avail.take(i as int).push(avail[i as int]));
            assert(views(available@) =~= avail.take(i + 1));
        }
        i = i + 1;
    }
    proof {
        assert(avail.take(agents.len() as int) =~= avail);
    }
    let mut missing: Vec<String> = Vec::new();
    let mut j: usize = 0;
    proof {
        assert(f.take(0) =~= Seq::<Seq<char>>::empty());
    }
    while j < filter.len()
        invariant
            j <= filter.len(),
            f == views(filter@),
            views(available@) == avail,
            views(missing@) == missing_names(avail, f.take(j as int)),
        decreases filter.len() - j,
    {
        let name = &filter[j];
        proof {
            assert(f.take(j + 1).drop_last() =~= f.take(j as int));
            assert(f.take(j + 1).last() == name@);
        }
        if !crate::set::list_contains(&available, name.as_str()) && !crate::set::list_contains(&missing, name.as_str()) {
            missing.push(name.clone());
            proof {
                assert(views(missing@) =~= missing_names(avail, f.take(j as int)).push(name@));
            }
        }
        j = j + 1;
    }
    proof {
        assert(f.take(filter.len() as int) =~= f);
    }
    missing
}

/// The line that ends a diff: how many agents changed, and which names
/// asked for were not found.
pub open spec fn diff_summary_spec(changed: nat, unchanged: nat, missing: Seq<Seq<char>>) -> Seq<char> {
    let head = if changed == 0 {
        "No changes ("@ + decimal(unchanged) + " agents checked)"@
    } else {
        decimal(changed) + " changed, "@ + decimal(unchanged) + " unchanged"@
    };
    if missing.len() == 0 {
        head
    } else {
        let label = if missing.len() == 1 {
            "agent not found in current scope"@
        } else {
            "agents not found in current scope"@
        };
        head + "; "@ + label + ": "@ + join_seq(missing, ", "@)
    }
}

pub fn diff_summary(changed: usize, unchanged: usize, missing: &[String]) -> (r: String)
    ensures
        r@ == diff_summary_spec(changed as nat, unchanged as nat, views(missing@)),
{
    let mut summary = if changed == 0 {
        let mut s = concat("No changes (", decimal_string(unchanged).as_str());
        s.append(" agents checked)");
        s
    } else {
        let mut s = concat(decimal_string(changed).as_str(), " changed, ");
        s.append(decimal_string(unchanged).as_str());
        s.append(" unchanged");
        s
    };
    if missing.len() > 0 {
        let label = if missing.len() == 1 {
            "agent not found in current scope"
        } else {
            "agents not found in current scope"
        };
        summary.append("; ");
        summary.append(label);
        summary.append(": ");
        let joined = join(missing, ", ");
        summary.append(joined.as_str());
        proof {
            assert(missing@.map_values(|x: String| x@) =~= views(missing@));
        }
    }
    summary
}

} // verus!
