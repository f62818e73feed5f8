//! Which agents inherit from each agent.
use vstd::prelude::*;
use crate::generator::{Generator, graph_of};
use crate::generator::graph::{reaches, ancestors};
use crate::generator::merge::well_founded;
use crate::map::StringMap;
use crate::set::{StringSet, views};
use crate::source::AgentSourceSlots;

verus! {

/// Agent `n` resolves and inherits from `p`, directly or through others.
pub open spec fn depends(agents: Map<Seq<char>, AgentSourceSlots>, n: Seq<char>, p: Seq<char>) -> bool {
    agents.contains_key(n) && well_founded(graph_of(agents), n) && reaches(graph_of(agents), n, p)
}

/// `inv` lists `m` among the agents that inherit from `p`.
pub open spec fn listed(inv: Map<Seq<char>, StringSet>, p: Seq<char>, m: Seq<char>) -> bool {
    inv.contains_key(p) && inv[p]@.contains(m)
}

/// For each agent that others inherit from, the agents that inherit from it,
/// directly or through others. Agents whose chain does not resolve are left
/// out.
pub fn dependencies(generator: &Generator) -> (r: StringMap<StringSet>)
    ensures
        forall|p: Seq<char>, n: Seq<char>|
            #![trigger listed(r@, p, n)]
            #![trigger depends(generator.agents@, n, p)]
            listed(r@, p, n) <==> depends(generator.agents@, n, p),
        forall|p: Seq<char>| #[trigger] r@.contains_key(p) ==> r@[p]@ != Set::<Seq<char>>::empty(),
{
    let ghost agents = generator.agents@;
    let mut inverse: StringMap<StringSet> = StringMap::new();
    let n = generator.agents.len();
    let mut i: usize = 0;
    proof {
        generator.agents.lemma_dom();
    }
    while i < n
        invariant
            agents == generator.agents@,
            n == generator.agents.ordered_keys().len(),
            generator.agents.ordered_keys().to_set() == agents.dom(),
            i <= n,
            forall|p: Seq<char>, m: Seq<char>|
                #![trigger listed(inverse@, p, m)]
                #![trigger depends(agents, m, p)]
                listed(inverse@, p, m)
                    <==> (generator.agents.ordered_keys().take(i as int).contains(m) && depends(agents, m, p)),
            forall|p: Seq<char>| #[trigger] inverse@.contains_key(p) ==> inverse@[p]@ != Set::<Seq<char>>::empty(),
        decreases n - i,
    {
        let (name, _slots) = generator.agents.entry_at(i);
        let ghost ks = generator.agents.ordered_keys();
        let chain = generator.inheritance_chain_safe(name.as_str());
        let ghost cs = views(chain@);
        proof {
            assert(ks.take(i + 1) =~= ks.take(i as int).push(name@));
        }
        let mut j: usize = 0;
        while j < chain.len()
            invariant
                agents == generator.agents@,
                ks == generator.agents.ordered_keys(),
                i < n,
                n == ks.len(),
                name@ == ks[i as int],
                cs == views(chain@),
                j <= chain@.len(),
                well_founded(graph_of(agents), name@) ==> cs.to_set() == ancestors(graph_of(agents), name@),
                !well_founded(graph_of(agents), name@) ==> chain@.len() == 0,
                agents.contains_key(name@),
                forall|p: Seq<char>, m: Seq<char>|
                    #![trigger listed(inverse@, p, m)]
                    #![trigger depends(agents, m, p)]
                    listed(inverse@, p, m)
                        <==> ((ks.take(i as int).contains(m) && depends(agents, m, p))
                            || (m == name@ && cs.take(j as int).contains(p))),
                forall|p: Seq<char>| #[trigger] inverse@.contains_key(p) ==> inverse@[p]@ != Set::<Seq<char>>::empty(),
            decreases chain.len() - j,
        {
            let p = &chain[j];
            let ghost before = inverse@;
            let mut set = match inverse.remove(p.as_str()) {
                Some(s) => s,
                None => StringSet::new(),
            };
            set.insert(name.clone());
            inverse.insert(p.clone(), set);
            proof {
                assert(cs[j as int] == p@);
                assert(cs.take(j + 1) =~= cs.take(j as int).push(p@));
                assert forall|q: Seq<char>, m: Seq<char>|
                    #![trigger listed(inverse@, q, m)]
                    #![trigger depends(agents, m, q)]
                    listed(inverse@, q, m)
                        <==> ((ks.take(i as int).contains(m) && depends(agents, m, q))
                            || (m == name@ && cs.take(j + 1).contains(q))) by {
                    assert(listed(before, q, m) <==> ((ks.take(i as int).contains(m) && depends(agents, m, q))
                            || (m == name@ && cs.take(j as int).contains(q))));
                    if q == p@ {
                        if m == name@ {
                            assert(cs.take(j + 1)[j as int] == q);
                        }
                    } else {
                        assert(listed(inverse@, q, m) == listed(before, q, m));
                        if m == name@ && cs.take(j + 1).contains(q) {
                            let t = cs.take(j + 1);
                            let w = choose|w: int| 0 <= w < t.len() && #[trigger] t[w] == q;
                            assert(cs.take(j as int)[w] == q);
                        }
                    }
                }
                assert forall|q: Seq<char>| #[trigger] inverse@.contains_key(q) implies inverse@[q]@ != Set::<Seq<char>>::empty() by {
                    if q == p@ {
                        assert(inverse@[q]@.contains(name@));
                    }
                }
            }
            j = j + 1;
        }
        proof {
            assert(cs.take(chain@.len() as int) =~= cs);
            assert forall|p: Seq<char>, m: Seq<char>|
                #![trigger listed(inverse@, p, m)]
                #![trigger depends(agents, m, p)]
                listed(inverse@, p, m)
                    <==> (ks.take(i + 1).contains(m) && depends(agents, m, p)) by {
                if m == name@ {
                    if well_founded(graph_of(agents), name@) {
                        assert(cs.to_set().contains(p) == ancestors(graph_of(agents), name@).contains(p));
                    } else {
                        assert(cs =~= Seq::<Seq<char>>::empty());
                    }
                    assert(ks.take(i + 1)[i as int] == m);
                } else {
                    if ks.take(i + 1).contains(m) {
                        let t = ks.take(i + 1);
                        let w = choose|w: int| 0 <= w < t.len() && #[trigger] t[w] == m;
                        assert(ks.take(i as int)[w] == m);
                    }
                    if ks.take(i as int).contains(m) {
                        let t = ks.take(i as int);
                        let w = choose|w: int| 0 <= w < t.len() && #[trigger] t[w] == m;
                        assert(ks.take(i + 1)[w] == m);
                    }
                }
            }
        }
        i = i + 1;
    }
    proof {
        assert(generator.agents.ordered_keys().take(n as int) =~= generator.agents.ordered_keys());
        assert forall|p: Seq<char>, m: Seq<char>|
            #![trigger listed(inverse@, p, m)]
            #![trigger depends(agents, m, p)]
            listed(inverse@, p, m) <==> depends(agents, m, p) by {
            if depends(agents, m, p) {
                assert(generator.agents.ordered_keys().to_set().contains(m));
            }
        }
    }
    inverse
}

} // verus!
