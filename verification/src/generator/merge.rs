//! Resolving an agent's inheritance chain and merging it with its ancestors.
use vstd::prelude::*;
use crate::set::{StringSet, views, sorted_strict, lemma_sorted_unique, list_contains};
use crate::generator::{Generator, graph_of};
use crate::source::AgentSourceSlots;
use crate::kg_config::manifest::{Manifest, ManifestView, manifest_merged};
use crate::text::concat;
use crate::kiro::hook::prefer;
use crate::generator::discover::{first_set, lemma_first_set_concat};
use crate::generator::graph::{Graph, edge, reaches, closed_from, acyclic_from, ordered_of, fold_parents, chain_spec, append_absent, lemma_edge_reaches, lemma_reaches_trans, lemma_edge_then_reaches, lemma_first_step, ancestors, parents_first, lemma_ancestors_via_parents};

verus! {

/// Why an agent's inheritance chain could not be resolved.
#[derive(Debug, PartialEq, Eq)]
pub enum InheritanceError {
    /// An agent that is inherited from (or asked for) is not declared.
    NotFound(String),
    /// The agent inherits from itself, directly or through others.
    Circular(String),
}

impl InheritanceError {
    /// The error as shown to users.
    pub fn message(&self) -> (r: String)
        ensures
            r@ == match *self {
                InheritanceError::NotFound(n) => "Agent '"@ + n@ + "' not found"@,
                InheritanceError::Circular(n) => "Circular inheritance detected: "@ + n@ + " already in chain"@,
            },
    {
        match self {
            InheritanceError::NotFound(n) => {
                let mut r = concat("Agent '", n.as_str());
                r.append("' not found");
                r
            },
            InheritanceError::Circular(n) => {
                let mut r = concat("Circular inheritance detected: ", n.as_str());
                r.append(" already in chain");
                r
            },
        }
    }
}

/// The inheritance chain of agent `x` among `agents`.
pub open spec fn inheritance_chain_spec(agents: Map<Seq<char>, AgentSourceSlots>, x: Seq<char>) -> Seq<Seq<char>> {
    chain_spec(graph_of(agents), x, agents.len())
}

/// `m` merged with the declarations of the agents of `chain`, the last one
/// first: each merge keeps what is already set and fills the rest from the
/// next ancestor.
pub open spec fn merge_chain(agents: Map<Seq<char>, AgentSourceSlots>, m: ManifestView, chain: Seq<Seq<char>>) -> ManifestView
    decreases chain.len(),
{
    if chain.len() == 0 {
        m
    } else {
        merge_chain(agents, manifest_merged(m, agents[chain.last()].merged@), chain.drop_last())
    }
}

/// Agent `x` with everything it inherits.
pub open spec fn resolved_agent(agents: Map<Seq<char>, AgentSourceSlots>, x: Seq<char>) -> ManifestView {
    merge_chain(agents, agents[x].merged@, inheritance_chain_spec(agents, x))
}

proof fn lemma_merge_chain_field(
    agents: Map<Seq<char>, AgentSourceSlots>,
    m: ManifestView,
    chain: Seq<Seq<char>>,
    field: spec_fn(ManifestView) -> Option<String>,
)
    requires
        forall|c: ManifestView, p: ManifestView| #[trigger] field(manifest_merged(c, p)) == prefer(field(c), field(p)),
    ensures
        field(merge_chain(agents, m, chain))
            == first_set(seq![field(m)] + chain.reverse().map_values(|k: Seq<char>| field(agents[k].merged@))),
    decreases chain.len(),
{
    let f = |k: Seq<char>| field(agents[k].merged@);
    if chain.len() == 0 {
        let s = seq![field(m)] + chain.reverse().map_values(f);
        assert(s =~= seq![field(m)]);
        assert(s.skip(1) =~= Seq::<Option<String>>::empty());
        assert(first_set(s.skip(1)) == None::<String>);
    } else {
        let last = chain.last();
        let mm = manifest_merged(m, agents[last].merged@);
        lemma_merge_chain_field(agents, mm, chain.drop_last(), field);
        let tail = chain.drop_last().reverse().map_values(f);
        assert(chain.reverse().map_values(f) =~= seq![f(last)] + tail);
        lemma_first_set_concat(seq![field(mm)], tail);
        lemma_first_set_concat(seq![field(m), f(last)], tail);
        assert(seq![field(m)] + chain.reverse().map_values(f) =~= seq![field(m), f(last)] + tail);
        let two = seq![field(m), f(last)];
        assert(two.skip(1) =~= seq![f(last)]);
        assert(seq![f(last)].skip(1) =~= Seq::<Option<String>>::empty());
        assert(seq![field(mm)].skip(1) =~= Seq::<Option<String>>::empty());
        assert(first_set(Seq::<Option<String>>::empty()) == None::<String>);
    }
}

/// Inheritance precedence: each optional setting (description, prompt,
/// model) of a resolved agent is its own when it sets one; otherwise it is
/// that of the nearest agent of its inheritance chain that sets it, the
/// chain being read from its last entry (the nearest) to its first.
pub proof fn lemma_resolved_precedence(agents: Map<Seq<char>, AgentSourceSlots>, x: Seq<char>)
    ensures
        ({
            let own = agents[x].merged@;
            let up = inheritance_chain_spec(agents, x).reverse();
            let r = resolved_agent(agents, x);
            &&& r.description == (if own.description is Some { own.description }
                else { first_set(up.map_values(|k: Seq<char>| agents[k].merged@.description)) })
            &&& r.prompt == (if own.prompt is Some { own.prompt }
                else { first_set(up.map_values(|k: Seq<char>| agents[k].merged@.prompt)) })
            &&& r.model == (if own.model is Some { own.model }
                else { first_set(up.map_values(|k: Seq<char>| agents[k].merged@.model)) })
        }),
{
    let own = agents[x].merged@;
    let chain = inheritance_chain_spec(agents, x);
    let up = chain.reverse();
    lemma_merge_chain_field(agents, own, chain, |m: ManifestView| m.description);
    lemma_merge_chain_field(agents, own, chain, |m: ManifestView| m.prompt);
    lemma_merge_chain_field(agents, own, chain, |m: ManifestView| m.model);
    lemma_first_set_concat(seq![own.description], up.map_values(|k: Seq<char>| agents[k].merged@.description));
    lemma_first_set_concat(seq![own.prompt], up.map_values(|k: Seq<char>| agents[k].merged@.prompt));
    lemma_first_set_concat(seq![own.model], up.map_values(|k: Seq<char>| agents[k].merged@.model));
    assert(seq![own.description].skip(1) =~= Seq::<Option<String>>::empty());
    assert(seq![own.prompt].skip(1) =~= Seq::<Option<String>>::empty());
    assert(seq![own.model].skip(1) =~= Seq::<Option<String>>::empty());
    assert(first_set(Seq::<Option<String>>::empty()) == None::<String>);
    assert(up.map_values(|k: Seq<char>| (|m: ManifestView| m.description)(agents[k].merged@))
        =~= up.map_values(|k: Seq<char>| agents[k].merged@.description));
    assert(up.map_values(|k: Seq<char>| (|m: ManifestView| m.prompt)(agents[k].merged@))
        =~= up.map_values(|k: Seq<char>| agents[k].merged@.prompt));
    assert(up.map_values(|k: Seq<char>| (|m: ManifestView| m.model)(agents[k].merged@))
        =~= up.map_values(|k: Seq<char>| agents[k].merged@.model));
}

/// Agent `x` is declared, and nothing undeclared and no cycle is reached
/// from it.
pub open spec fn well_founded(g: Graph, x: Seq<char>) -> bool {
    g.contains_key(x) && closed_from(g, x) && acyclic_from(g, x)
}

proof fn lemma_merge_chain_keeps(agents: Map<Seq<char>, AgentSourceSlots>, m: ManifestView, chain: Seq<Seq<char>>)
    ensures
        merge_chain(agents, m, chain).template == m.template,
        merge_chain(agents, m, chain).name == m.name,
    decreases chain.len(),
{
    if chain.len() > 0 {
        lemma_merge_chain_keeps(agents, manifest_merged(m, agents[chain.last()].merged@), chain.drop_last());
    }
}

/// Every agent's declaration is named after the key it is found under, as
/// discovery names each agent after its key.
pub open spec fn names_are_keys(agents: Map<Seq<char>, AgentSourceSlots>) -> bool {
    forall|k: Seq<char>| #[trigger] agents.contains_key(k) ==> agents[k].merged.name@ == k
}

/// Template status is never inherited: a resolved agent keeps its own name
/// and template flag, whatever it inherits from.
pub proof fn lemma_template_not_inherited(agents: Map<Seq<char>, AgentSourceSlots>, x: Seq<char>)
    ensures
        resolved_agent(agents, x).template == agents[x].merged.template,
        resolved_agent(agents, x).name == agents[x].merged.name,
{
    lemma_merge_chain_keeps(agents, agents[x].merged@, inheritance_chain_spec(agents, x));
}

/// An agent that inherits from nothing resolves to its own declaration.
pub proof fn lemma_no_parents_resolves_to_self(agents: Map<Seq<char>, AgentSourceSlots>, x: Seq<char>)
    requires
        agents.contains_key(x),
        agents[x].merged.inherits@ == Set::<Seq<char>>::empty(),
    ensures
        inheritance_chain_spec(agents, x) == Seq::<Seq<char>>::empty(),
        resolved_agent(agents, x) == agents[x].merged@,
{
    let g = graph_of(agents);
    assert(g[x] == Set::<Seq<char>>::empty());
    let e = Seq::<Seq<char>>::empty();
    assert(sorted_strict(e) && e.to_set() == Set::<Seq<char>>::empty()) by {
        assert(e.to_set() =~= Set::<Seq<char>>::empty());
    }
    let o = ordered_of(g[x]);
    if o.len() > 0 {
        assert(o.to_set().contains(o[0]));
    }
    assert(o =~= e);
}

/// From `x`, nothing undeclared and no cycle is reached, `x` is not among
/// `visited`, and nothing in `visited` is reached.
pub open spec fn resolvable(g: Graph, x: Seq<char>, visited: Set<Seq<char>>) -> bool {
    &&& closed_from(g, x)
    &&& acyclic_from(g, x)
    &&& !visited.contains(x)
    &&& forall|w: Seq<char>| #[trigger] visited.contains(w) ==> !reaches(g, x, w)
}

/// What an error from resolving `x` with `visited` says of the graph.
pub open spec fn error_explained(g: Graph, x: Seq<char>, visited: Set<Seq<char>>, e: InheritanceError) -> bool {
    match e {
        InheritanceError::NotFound(n) => reaches(g, x, n@) && !g.contains_key(n@),
        InheritanceError::Circular(n) => (n@ == x || reaches(g, x, n@)) && (visited.contains(n@) || reaches(g, n@, n@)),
    }
}

proof fn lemma_parent_unresolvable(g: Graph, x: Seq<char>, p: Seq<char>, v: Set<Seq<char>>)
    requires
        edge(g, x, p),
        !resolvable(g, p, v.insert(x)),
    ensures
        !resolvable(g, x, v),
{
    if resolvable(g, x, v) {
        lemma_edge_reaches(g, x, p);
        assert forall|y: Seq<char>| #[trigger] reaches(g, p, y) implies g.contains_key(y) && !reaches(g, y, y) by {
            lemma_reaches_trans(g, x, p, y);
        }
        assert(!reaches(g, p, p));
        assert(!v.insert(x).contains(p)) by {
            if p == x {
                assert(reaches(g, x, x));
            }
        }
        assert forall|w: Seq<char>| #[trigger] v.insert(x).contains(w) implies !reaches(g, p, w) by {
            if reaches(g, p, w) {
                lemma_reaches_trans(g, x, p, w);
            }
        }
        assert(resolvable(g, p, v.insert(x)));
    }
}

proof fn lemma_parent_error(g: Graph, x: Seq<char>, p: Seq<char>, v: Set<Seq<char>>, e: InheritanceError)
    requires
        edge(g, x, p),
        error_explained(g, p, v.insert(x), e),
    ensures
        error_explained(g, x, v, e),
{
    match e {
        InheritanceError::NotFound(n) => {
            lemma_edge_then_reaches(g, x, p, n@);
        },
        InheritanceError::Circular(n) => {
            lemma_edge_then_reaches(g, x, p, n@);
            if n@ == x {
                assert(reaches(g, n@, n@));
            }
        },
    }
}

proof fn lemma_resolvable_from_parents(g: Graph, x: Seq<char>, v: Set<Seq<char>>, ps: Seq<Seq<char>>)
    requires
        g.contains_key(x),
        ps.to_set() == g[x],
        !v.contains(x),
        forall|k: int| 0 <= k < ps.len() ==> g.contains_key(#[trigger] ps[k]) && resolvable(g, ps[k], v.insert(x)),
    ensures
        resolvable(g, x, v),
{
    assert forall|y: Seq<char>| #[trigger] reaches(g, x, y) implies g.contains_key(y) && !reaches(g, y, y) && y != x
        && !v.contains(y) by {
        let b = lemma_first_step(g, x, y);
        assert(ps.to_set().contains(b));
        let k = choose|k: int| 0 <= k < ps.len() && ps[k] == b;
        assert(g.contains_key(ps[k]) && resolvable(g, ps[k], v.insert(x)));
        if y != b {
            assert(!reaches(g, b, y) || !v.insert(x).contains(y));
        } else {
            assert(!v.insert(x).contains(b));
        }
    }
    assert(!reaches(g, x, x));
}

/// The agents among the first `i` of `ps` and everything they inherit from.
pub open spec fn covered(g: Graph, ps: Seq<Seq<char>>, i: int) -> Set<Seq<char>> {
    Set::new(|y: Seq<char>| exists|k: int| 0 <= k < i && (y == ps[k] || reaches(g, #[trigger] ps[k], y)))
}

proof fn lemma_covered_step(g: Graph, ps: Seq<Seq<char>>, i: int)
    requires
        0 <= i < ps.len(),
    ensures
        covered(g, ps, i + 1) == covered(g, ps, i).union(ancestors(g, ps[i]).insert(ps[i])),
{
    let a = covered(g, ps, i + 1);
    let b = covered(g, ps, i).union(ancestors(g, ps[i]).insert(ps[i]));
    assert forall|y: Seq<char>| a.contains(y) <==> b.contains(y) by {
        if a.contains(y) {
            let k = choose|k: int| 0 <= k < i + 1 && (y == ps[k] || reaches(g, #[trigger] ps[k], y));
            if k < i {
                assert(covered(g, ps, i).contains(y));
            }
        }
        if covered(g, ps, i).contains(y) {
            let k = choose|k: int| 0 <= k < i && (y == ps[k] || reaches(g, #[trigger] ps[k], y));
            assert(0 <= k < i + 1 && (y == ps[k] || reaches(g, ps[k], y)));
        }
        if y == ps[i] || reaches(g, ps[i], y) {
            assert(0 <= i < i + 1 && (y == ps[i] || reaches(g, ps[i], y)));
        }
    }
    assert(a =~= b);
}

proof fn lemma_covered_all(g: Graph, x: Seq<char>, ps: Seq<Seq<char>>)
    requires
        g.contains_key(x),
        ps.to_set() == g[x],
    ensures
        covered(g, ps, ps.len() as int) == ancestors(g, x),
{
    let a = covered(g, ps, ps.len() as int);
    assert forall|y: Seq<char>| a.contains(y) <==> reaches(g, x, y) by {
        lemma_ancestors_via_parents(g, x, y);
        if a.contains(y) {
            let k = choose|k: int| 0 <= k < ps.len() && (y == ps[k] || reaches(g, #[trigger] ps[k], y));
            assert(ps.to_set().contains(ps[k]));
        }
        if reaches(g, x, y) {
            let q = choose|q: Seq<char>| #[trigger] g[x].contains(q) && (y == q || reaches(g, q, y));
            assert(ps.to_set().contains(q));
            let k = choose|k: int| 0 <= k < ps.len() && ps[k] == q;
            assert(0 <= k < ps.len() && (y == ps[k] || reaches(g, ps[k], y)));
        }
    }
    assert(a =~= ancestors(g, x));
}

proof fn lemma_push_parents_first(g: Graph, s: Seq<Seq<char>>, c: Seq<char>)
    requires
        parents_first(g, s),
        forall|q: Seq<char>| #[trigger] edge(g, c, q) ==> s.contains(q),
    ensures
        parents_first(g, s.push(c)),
{
    let t = s.push(c);
    assert forall|a: int, q: Seq<char>| 0 <= a < t.len() && #[trigger] edge(g, t[a], q) implies t.take(a).contains(q) by {
        if a < s.len() {
            assert(t.take(a) =~= s.take(a));
        } else {
            assert(t.take(a) =~= s);
        }
    }
}

impl Generator {
    /// The inheritance chain of `x` when the agents in `visited` are being
    /// resolved: for each agent `x` inherits from, in ascending order, that
    /// agent's own chain (names already listed are skipped) and then the agent.
    /// On success `visited` is left as it was.
    fn resolve(&self, x: &String, visited: &mut StringSet) -> (r: Result<Vec<String>, InheritanceError>)
        requires
            self.agents@.contains_key(x@),
            old(visited)@.subset_of(self.agents@.dom()),
        ensures
            r is Ok <==> resolvable(self.graph(), x@, old(visited)@),
            r is Ok ==> final(visited)@ == old(visited)@,
            r is Ok ==> views(r->Ok_0@).no_duplicates(),
            r is Ok ==> views(r->Ok_0@).to_set() == ancestors(self.graph(), x@),
            r is Ok ==> parents_first(self.graph(), views(r->Ok_0@)),
            r is Ok ==> views(r->Ok_0@) == chain_spec(
                self.graph(),
                x@,
                (self.agents@.len() - old(visited)@.len()) as nat,
            ),
            r is Err ==> error_explained(self.graph(), x@, old(visited)@, r->Err_0),
        decreases self.agents@.len() - old(visited)@.len(),
    {
        let ghost g = self.graph();
        let ghost v0 = visited@;
        proof {
            self.agents.lemma_dom();
            vstd::set_lib::lemma_len_subset(v0, self.agents@.dom());
        }
        if visited.contains(x.as_str()) {
            return Err(InheritanceError::Circular(x.clone()));
        }
        visited.insert(x.clone());
        proof {
            vstd::set_lib::lemma_len_subset(visited@, self.agents@.dom());
        }
        let ghost fuel: nat = (self.agents@.len() - v0.len()) as nat;
        let slots = match self.agents.get(x.as_str()) {
            Some(s) => s,
            None => {
                return Err(InheritanceError::NotFound(x.clone()));
            },
        };
        let parents = slots.merged.inherits.as_vec();
        let ghost ps = views(parents@);
        proof {
            assert(g[x@] == slots.merged.inherits@);
            let o = ordered_of(g[x@]);
            assert(sorted_strict(ps) && ps.to_set() == g[x@]);
            lemma_sorted_unique(o, ps);
        }
        let mut chain: Vec<String> = Vec::new();
        proof {
            assert(views(chain@) =~= Seq::<Seq<char>>::empty());
            assert(covered(g, ps, 0) =~= Set::<Seq<char>>::empty());
            assert(ps.take(0) =~= Seq::<Seq<char>>::empty());
        }
        let mut i: usize = 0;
        while i < parents.len()
            invariant
                g == self.graph(),
                self.agents@.contains_key(x@),
                v0 == old(visited)@,
                v0.subset_of(self.agents@.dom()),
                self.agents@.dom().finite(),
                v0.finite(),
                !v0.contains(x@),
                visited@ == v0.insert(x@),
                visited@.subset_of(self.agents@.dom()),
                fuel == self.agents@.len() - v0.len(),
                fuel >= 1,
                ps == views(parents@),
                ps == ordered_of(g[x@]),
                ps.to_set() == g[x@],
                i <= parents.len(),
                views(chain@) == fold_parents(g, ps.take(i as int), (fuel - 1) as nat),
                views(chain@).no_duplicates(),
                parents_first(g, views(chain@)),
                views(chain@).to_set() == covered(g, ps, i as int),
                forall|k: int| 0 <= k < i ==> g.contains_key(#[trigger] ps[k]) && resolvable(g, ps[k], v0.insert(x@)),
            decreases parents.len() - i,
        {
            let p = &parents[i];
            proof {
                assert(ps[i as int] == p@);
                assert(ps.to_set().contains(p@));
                assert(edge(g, x@, p@));
            }
            if !self.agents.contains_key(p.as_str()) {
                proof {
                    lemma_edge_reaches(g, x@, p@);
                }
                return Err(InheritanceError::NotFound(p.clone()));
            }
            proof {
                vstd::set_lib::lemma_len_subset(visited@, self.agents@.dom());
                assert(visited@.len() == v0.len() + 1);
            }
            let ghost before_call = visited@;
            let pc = match self.resolve(p, visited) {
                Ok(c) => c,
                Err(e) => {
                    proof {
                        assert(before_call == v0.insert(x@));
                        assert(!resolvable(g, p@, before_call));
                        assert(error_explained(g, p@, before_call, e));
                        lemma_parent_unresolvable(g, x@, p@, v0);
                        lemma_parent_error(g, x@, p@, v0, e);
                    }
                    return Err(e);
                },
            };
            proof {
                assert(v0.insert(x@).len() == v0.len() + 1);
            }
            let ghost before = views(chain@);
            let ghost pcs = views(pc@);
            let mut j: usize = 0;
            while j < pc.len()
                invariant
                    j <= pc.len(),
                    pcs == views(pc@),
                    views(chain@) == append_absent(before, pcs.take(j as int)),
                    views(chain@).no_duplicates(),
                    parents_first(g, views(chain@)),
                    parents_first(g, pcs),
                    views(chain@).to_set() == before.to_set().union(pcs.take(j as int).to_set()),
                decreases pc.len() - j,
            {
                proof {
                    let c = views(pc@);
                    assert(c.take(j + 1).drop_last() =~= c.take(j as int));
                    assert(c.take(j + 1).last() == pc@[j as int]@);
                }
                let ghost cur = views(chain@);
                proof {
                    let c = pcs[j as int];
                    assert(pcs.take(j + 1) =~= pcs.take(j as int).push(c));
                    pcs.take(j as int).lemma_push_to_set_commute(c);
                    assert forall|q: Seq<char>| #[trigger] edge(g, c, q) implies cur.contains(q) by {
                        assert(pcs.take(j as int).contains(q));
                        assert(pcs.take(j as int).to_set().contains(q));
                        assert(cur.to_set().contains(q));
                    }
                }
                if !list_contains(&chain, pc[j].as_str()) {
                    chain.push(pc[j].clone());
                    proof {
                        assert(views(chain@) =~= cur.push(pcs[j as int]));
                        lemma_push_parents_first(g, cur, pcs[j as int]);
                        cur.lemma_push_to_set_commute(pcs[j as int]);
                        assert(views(chain@).to_set() =~= before.to_set().union(pcs.take(j + 1).to_set()));
                    }
                } else {
                    proof {
                        assert(cur.to_set().contains(pcs[j as int]));
                        assert(views(chain@).to_set() =~= before.to_set().union(pcs.take(j + 1).to_set()));
                    }
                }
                j = j + 1;
            }
            proof {
                assert(pcs.take(pcs.len() as int) =~= pcs);
            }
            let ghost mid = views(chain@);
            proof {
                assert forall|q: Seq<char>| #[trigger] edge(g, p@, q) implies mid.contains(q) by {
                    lemma_edge_reaches(g, p@, q);
                    assert(pcs.to_set().contains(q));
                    assert(mid.to_set().contains(q));
                }
                lemma_covered_step(g, ps, i as int);
                assert(ps[i as int] == p@);
            }
            if !list_contains(&chain, p.as_str()) {
                chain.push(p.clone());
                proof {
                    assert(views(chain@) =~= mid.push(p@));
                    lemma_push_parents_first(g, mid, p@);
                    mid.lemma_push_to_set_commute(p@);
                    assert(views(chain@).to_set() =~= covered(g, ps, i + 1));
                }
            } else {
                proof {
                    assert(mid.to_set().contains(p@));
                    assert(views(chain@).to_set() =~= covered(g, ps, i + 1));
                }
            }
            proof {
                assert(ps.take(i + 1).drop_last() =~= ps.take(i as int));
                assert(ps.take(i + 1).last() == p@);
            }
            i = i + 1;
        }
        proof {
            assert(ps.take(i as int) =~= ps);
            lemma_resolvable_from_parents(g, x@, v0, ps);
            lemma_covered_all(g, x@, ps);
        }
        visited.remove(x.as_str());
        proof {
            assert(visited@ =~= v0);
        }
        Ok(chain)
    }

    /// The inheritance chain of agent `name`: every agent it inherits from,
    /// directly or through others, each once and after everything it
    /// inherits from.
    pub fn inheritance_chain(&self, name: &str) -> (r: Result<Vec<String>, InheritanceError>)
        ensures
            !self.agents@.contains_key(name@) ==> r is Err && r->Err_0 is NotFound && r->Err_0->NotFound_0@ == name@,
            r is Ok <==> well_founded(self.graph(), name@),
            r is Ok ==> views(r->Ok_0@) == inheritance_chain_spec(self.agents@, name@),
            r is Ok ==> views(r->Ok_0@).no_duplicates(),
            r is Ok ==> views(r->Ok_0@).to_set() == ancestors(self.graph(), name@),
            r is Ok ==> parents_first(self.graph(), views(r->Ok_0@)),
            r is Err && self.agents@.contains_key(name@) ==> error_explained(self.graph(), name@, Set::empty(), r->Err_0),
    {
        if !self.agents.contains_key(name) {
            return Err(InheritanceError::NotFound(String::from_str(name)));
        }
        let key = String::from_str(name);
        let mut visited = StringSet::new();
        let r = self.resolve(&key, &mut visited);
        proof {
            assert(self.agents@.len() - Set::<Seq<char>>::empty().len() == self.agents@.len());
            assert(resolvable(self.graph(), name@, Set::empty()) == (closed_from(self.graph(), name@) && acyclic_from(self.graph(), name@)));
        }
        r
    }

    /// The inheritance chain of agent `name`, or nothing where it cannot be
    /// resolved.
    pub fn inheritance_chain_safe(&self, name: &str) -> (r: Vec<String>)
        ensures
            well_founded(self.graph(), name@) ==> views(r@) == inheritance_chain_spec(self.agents@, name@),
            well_founded(self.graph(), name@) ==> views(r@).to_set() == ancestors(self.graph(), name@),
            !well_founded(self.graph(), name@) ==> r@.len() == 0,
    {
        match self.inheritance_chain(name) {
            Ok(c) => c,
            Err(_) => Vec::new(),
        }
    }

    /// Every agent merged with everything it inherits, in order of key
    /// (which is the order of name, since discovery names each agent after
    /// its key); or the first agent's error where one cannot be resolved.
    pub fn merge(&self) -> (r: Result<Vec<Manifest>, InheritanceError>)
        ensures
            r is Ok <==> forall|k: Seq<char>| #[trigger] self.agents@.contains_key(k) ==> well_founded(self.graph(), k),
            r is Ok ==> r->Ok_0@.len() == self.agents.ordered_keys().len(),
            r is Ok ==> forall|i: int| 0 <= i < r->Ok_0@.len() ==>
                (#[trigger] r->Ok_0@[i])@ == resolved_agent(self.agents@, self.agents.ordered_keys()[i]),
            r is Err ==> exists|k: Seq<char>| #[trigger] self.agents@.contains_key(k) && !well_founded(self.graph(), k)
                && error_explained(self.graph(), k, Set::empty(), r->Err_0),
            r is Ok && names_are_keys(self.agents@) ==> forall|i: int| 0 <= i < r->Ok_0@.len() ==>
                (#[trigger] r->Ok_0@[i]).name@ == self.agents.ordered_keys()[i],
            r is Ok && names_are_keys(self.agents@) ==> sorted_strict(r->Ok_0@.map_values(|m: Manifest| m.name@)),
    {
        let ghost g = self.graph();
        let n = self.agents.len();
        proof {
            self.agents.lemma_dom();
        }
        let mut out: Vec<Manifest> = Vec::new();
        let mut i: usize = 0;
        while i < n
            invariant
                g == self.graph(),
                n == self.agents.ordered_keys().len(),
                self.agents.ordered_keys().to_set() == self.agents@.dom(),
                i <= n,
                out@.len() == i,
                forall|k: int| 0 <= k < i ==> well_founded(g, #[trigger] self.agents.ordered_keys()[k]),
                forall|k: int| 0 <= k < i ==>
                    (#[trigger] out@[k])@ == resolved_agent(self.agents@, self.agents.ordered_keys()[k]),
            decreases n - i,
        {
            let (key, slots) = self.agents.entry_at(i);
            let mut visited = StringSet::new();
            let chain = match self.resolve(key, &mut visited) {
                Ok(c) => c,
                Err(e) => {
                    proof {
                        assert(self.agents@.contains_key(key@) && !well_founded(g, key@));
                    }
                    return Err(e);
                },
            };
            let ghost cs = views(chain@);
            let mut merged = slots.merged.clone();
            let mut j: usize = chain.len();
            proof {
                assert(cs.take(j as int) =~= cs);
            }
            while j > 0
                invariant
                    g == self.graph(),
                    j <= chain@.len(),
                    cs == views(chain@),
                    cs.to_set() == ancestors(g, key@),
                    closed_from(g, key@),
                    merge_chain(self.agents@, merged@, cs.take(j as int)) == merge_chain(self.agents@, slots.merged@, cs),
                decreases j,
            {
                let ghost before = merged@;
                proof {
                    assert(cs.to_set().contains(cs[j - 1]));
                    assert(cs.take(j as int).drop_last() =~= cs.take(j - 1));
                }
                match self.agents.get(chain[j - 1].as_str()) {
                    Some(parent) => {
                        merged = merged.merge(parent.merged.clone());
                    },
                    None => {},
                }
                j = j - 1;
            }
            proof {
                assert(cs.take(0) =~= Seq::<Seq<char>>::empty());
                assert(self.agents@[key@] == *slots);
            }
            out.push(merged);
            proof {
                assert(out@[i as int]@ == resolved_agent(self.agents@, self.agents.ordered_keys()[i as int]));
            }
            i = i + 1;
        }
        self.agents.lemma_ordered();
        proof {
            assert forall|k: Seq<char>| #[trigger] self.agents@.contains_key(k) implies well_founded(g, k) by {
                assert(self.agents.ordered_keys().to_set().contains(k));
                let m = choose|m: int| 0 <= m < n && self.agents.ordered_keys()[m] == k;
                assert(well_founded(g, self.agents.ordered_keys()[m]));
            }
            if names_are_keys(self.agents@) {
                let ks = self.agents.ordered_keys();
                assert forall|i: int| 0 <= i < out@.len() implies (#[trigger] out@[i]).name@ == ks[i] by {
                    assert(ks.to_set().contains(ks[i]));
                    lemma_template_not_inherited(self.agents@, ks[i]);
                }
                assert(out@.map_values(|m: Manifest| m.name@) =~= ks);
            }
        }
        Ok(out)
    }
}

} // verus!
