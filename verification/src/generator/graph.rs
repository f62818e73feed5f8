//! The inheritance graph: each agent points at the agents it inherits from.
use vstd::prelude::*;
use crate::set::sorted_strict;

verus! {

/// Agent names mapped to the names they inherit from.
pub type Graph = Map<Seq<char>, Set<Seq<char>>>;

/// `a` is a declared agent that inherits from `b`.
pub open spec fn edge(g: Graph, a: Seq<char>, b: Seq<char>) -> bool {
    g.contains_key(a) && g[a].contains(b)
}

/// Position `i` of `p` is followed by an agent it inherits from.
pub open spec fn step(g: Graph, p: Seq<Seq<char>>, i: int) -> bool {
    edge(g, p[i], p[i + 1])
}

/// `p` follows inheritance edges from its first name to its last.
pub open spec fn is_walk(g: Graph, p: Seq<Seq<char>>) -> bool {
    p.len() >= 1 && forall|i: int| 0 <= i < p.len() - 1 ==> #[trigger] step(g, p, i)
}

/// `b` is reached from `a` by following one or more inheritance edges.
pub open spec fn reaches(g: Graph, a: Seq<char>, b: Seq<char>) -> bool {
    exists|p: Seq<Seq<char>>| #[trigger] is_walk(g, p) && p.len() >= 2 && p[0] == a && p[p.len() - 1] == b
}

/// The agents `x` inherits from, directly or through others.
pub open spec fn ancestors(g: Graph, x: Seq<char>) -> Set<Seq<char>> {
    Set::new(|y: Seq<char>| reaches(g, x, y))
}

/// Every agent reached from `x` is declared.
pub open spec fn closed_from(g: Graph, x: Seq<char>) -> bool {
    forall|y: Seq<char>| #[trigger] reaches(g, x, y) ==> g.contains_key(y)
}

/// No agent reached from `x`, nor `x` itself, reaches itself.
pub open spec fn acyclic_from(g: Graph, x: Seq<char>) -> bool {
    &&& !reaches(g, x, x)
    &&& forall|y: Seq<char>| #[trigger] reaches(g, x, y) ==> !reaches(g, y, y)
}

/// Every agent that an element of `chain` inherits from comes earlier in it.
pub open spec fn parents_first(g: Graph, chain: Seq<Seq<char>>) -> bool {
    forall|a: int, q: Seq<char>| 0 <= a < chain.len() && #[trigger] edge(g, chain[a], q)
        ==> chain.take(a).contains(q)
}

pub proof fn lemma_edge_reaches(g: Graph, a: Seq<char>, b: Seq<char>)
    requires
        edge(g, a, b),
    ensures
        reaches(g, a, b),
{
    let p = seq![a, b];
    assert(step(g, p, 0));
    assert(is_walk(g, p));
}

pub proof fn lemma_reaches_trans(g: Graph, a: Seq<char>, b: Seq<char>, c: Seq<char>)
    requires
        reaches(g, a, b),
        reaches(g, b, c),
    ensures
        reaches(g, a, c),
{
    let p1 = choose|p: Seq<Seq<char>>| #[trigger] is_walk(g, p) && p.len() >= 2 && p[0] == a && p[p.len() - 1] == b;
    let p2 = choose|p: Seq<Seq<char>>| #[trigger] is_walk(g, p) && p.len() >= 2 && p[0] == b && p[p.len() - 1] == c;
    let w = p1 + p2.skip(1);
    assert forall|i: int| 0 <= i < w.len() - 1 implies #[trigger] step(g, w, i) by {
        if i < p1.len() - 1 {
            assert(step(g, p1, i));
            assert(w[i] == p1[i] && w[i + 1] == p1[i + 1]);
        } else if i == p1.len() - 1 {
            assert(step(g, p2, 0));
            assert(w[i] == p1[i] && w[i + 1] == p2[1]);
        } else {
            let k = i - p1.len() + 1;
            assert(step(g, p2, k));
            assert(w[i] == p2[k] && w[i + 1] == p2[k + 1]);
        }
    }
    assert(is_walk(g, w));
    assert(w[0] == a);
    assert(w[w.len() - 1] == c);
}

pub proof fn lemma_edge_then_reaches(g: Graph, a: Seq<char>, b: Seq<char>, c: Seq<char>)
    requires
        edge(g, a, b),
        b == c || reaches(g, b, c),
    ensures
        reaches(g, a, c),
{
    lemma_edge_reaches(g, a, b);
    if b != c {
        lemma_reaches_trans(g, a, b, c);
    }
}

/// A walk from `a` to `c` starts with an edge from `a`.
pub proof fn lemma_first_step(g: Graph, a: Seq<char>, c: Seq<char>) -> (b: Seq<char>)
    requires
        reaches(g, a, c),
    ensures
        edge(g, a, b),
        b == c || reaches(g, b, c),
{
    let p = choose|p: Seq<Seq<char>>| #[trigger] is_walk(g, p) && p.len() >= 2 && p[0] == a && p[p.len() - 1] == c;
    assert(step(g, p, 0));
    let b = p[1];
    if p.len() > 2 {
        let q = p.skip(1);
        assert forall|i: int| 0 <= i < q.len() - 1 implies #[trigger] step(g, q, i) by {
            assert(step(g, p, i + 1));
        }
        assert(is_walk(g, q));
        assert(q[q.len() - 1] == c);
    }
    b
}

/// The ancestors of `x` are its parents and their ancestors.
pub proof fn lemma_ancestors_via_parents(g: Graph, x: Seq<char>, y: Seq<char>)
    requires
        g.contains_key(x),
    ensures
        reaches(g, x, y) <==> exists|q: Seq<char>| #[trigger] g[x].contains(q) && (y == q || reaches(g, q, y)),
{
    if reaches(g, x, y) {
        let b = lemma_first_step(g, x, y);
        assert(g[x].contains(b));
    }
    if exists|q: Seq<char>| #[trigger] g[x].contains(q) && (y == q || reaches(g, q, y)) {
        let q = choose|q: Seq<char>| #[trigger] g[x].contains(q) && (y == q || reaches(g, q, y));
        lemma_edge_then_reaches(g, x, q, y);
    }
}

/// `acc` with `x` appended unless already present.
pub open spec fn add_absent(acc: Seq<Seq<char>>, x: Seq<char>) -> Seq<Seq<char>> {
    if acc.contains(x) {
        acc
    } else {
        acc.push(x)
    }
}

/// `acc` followed by the elements of `c` it lacks, in `c`'s order.
pub open spec fn append_absent(acc: Seq<Seq<char>>, c: Seq<Seq<char>>) -> Seq<Seq<char>>
    decreases c.len(),
{
    if c.len() == 0 {
        acc
    } else {
        add_absent(append_absent(acc, c.drop_last()), c.last())
    }
}

/// The elements of a finite set in ascending order.
pub open spec fn ordered_of(s: Set<Seq<char>>) -> Seq<Seq<char>> {
    choose|o: Seq<Seq<char>>| sorted_strict(o) && o.to_set() == s
}

/// The inheritance chain of `x`: for each parent in ascending order, the
/// parent's own chain (skipping names already listed) followed by the parent
/// itself. `fuel` bounds the depth.
pub open spec fn chain_spec(g: Graph, x: Seq<char>, fuel: nat) -> Seq<Seq<char>>
    decreases fuel, 0nat,
{
    if fuel == 0 || !g.contains_key(x) {
        Seq::empty()
    } else {
        fold_parents(g, ordered_of(g[x]), (fuel - 1) as nat)
    }
}

/// The chain contributed by the parents `ps`, in order.
pub open spec fn fold_parents(g: Graph, ps: Seq<Seq<char>>, fuel: nat) -> Seq<Seq<char>>
    decreases fuel, ps.len() + 1,
{
    if ps.len() == 0 {
        Seq::empty()
    } else {
        add_absent(append_absent(fold_parents(g, ps.drop_last(), fuel), chain_spec(g, ps.last(), fuel)), ps.last())
    }
}

} // verus!
