//! Child-over-parent merging of configuration values, and of maps of them.
use vstd::prelude::*;
use crate::map::StringMap;

verus! {

/// A configuration value that a child merges with its parent's.
pub trait Merge: Sized {
    /// The mathematical value the merge is stated over.
    type Model;

    spec fn model(&self) -> Self::Model;

    /// The model of `child` merged with `parent`.
    spec fn merge_model(child: Self::Model, parent: Self::Model) -> Self::Model;

    /// Merges `self` (the child) with `parent`.
    fn merge_parent(self, parent: Self) -> (r: Self)
        ensures
            r.model() == Self::merge_model(self.model(), parent.model()),
    ;

    /// A value with the same model.
    fn copy(&self) -> (r: Self)
        ensures
            r.model() == self.model(),
    ;
}

/// A map whose values are copies of this map's values.
pub fn copy_map<V: Merge>(m: &StringMap<V>) -> (r: StringMap<V>)
    ensures
        model_map(r@) == model_map(m@),
{
    let mut r: StringMap<V> = StringMap::new();
    let n = m.len();
    let mut i: usize = 0;
    proof {
        m.lemma_dom();
    }
    while i < n
        invariant
            n == m.ordered_keys().len(),
            i <= n,
            m.ordered_keys().to_set() == m@.dom(),
            r@.dom() == m.ordered_keys().take(i as int).to_set(),
            forall|k: Seq<char>| #[trigger] r@.contains_key(k) ==> r@[k].model() == m@[k].model(),
        decreases n - i,
    {
        let (k, v) = m.entry_at(i);
        let kc = k.clone();
        let vc = v.copy();
        r.insert(kc, vc);
        proof {
            let ks = m.ordered_keys();
            assert(ks.take(i + 1) =~= ks.take(i as int).push(ks[i as int]));
            ks.take(i as int).lemma_push_to_set_commute(ks[i as int]);
        }
        i = i + 1;
    }
    proof {
        assert(m.ordered_keys().take(n as int) =~= m.ordered_keys());
        assert(model_map(r@) =~= model_map(m@));
    }
    r
}

/// Keys of either map; a shared key maps to the child's value merged with
/// the parent's by `f`, any other key keeps its value.
pub open spec fn merge_maps_spec<W>(
    child: Map<Seq<char>, W>,
    parent: Map<Seq<char>, W>,
    f: spec_fn(W, W) -> W,
) -> Map<Seq<char>, W> {
    Map::new(
        |k: Seq<char>| child.contains_key(k) || parent.contains_key(k),
        |k: Seq<char>|
            if child.contains_key(k) && parent.contains_key(k) {
                f(child[k], parent[k])
            } else if child.contains_key(k) {
                child[k]
            } else {
                parent[k]
            },
    )
}

/// Merging two maps keeps every key of either; a key only one declares
/// keeps that map's value, and a shared key gets the child's value merged
/// with the parent's.
pub proof fn lemma_merge_maps_entries<W>(child: Map<Seq<char>, W>, parent: Map<Seq<char>, W>, f: spec_fn(W, W) -> W)
    ensures
        forall|k: Seq<char>| #[trigger] merge_maps_spec(child, parent, f).contains_key(k)
            <==> (child.contains_key(k) || parent.contains_key(k)),
        forall|k: Seq<char>| child.contains_key(k) && parent.contains_key(k)
            ==> #[trigger] merge_maps_spec(child, parent, f)[k] == f(child[k], parent[k]),
        forall|k: Seq<char>| child.contains_key(k) && !parent.contains_key(k)
            ==> #[trigger] merge_maps_spec(child, parent, f)[k] == child[k],
        forall|k: Seq<char>| !child.contains_key(k) && parent.contains_key(k)
            ==> #[trigger] merge_maps_spec(child, parent, f)[k] == parent[k],
{
}

/// The models of the values of a map.
pub open spec fn model_map<V: Merge>(m: Map<Seq<char>, V>) -> Map<Seq<char>, V::Model> {
    m.map_values(|v: V| v.model())
}

/// The model merge of `V`, as a function value.
pub open spec fn merge_fn<V: Merge>() -> spec_fn(V::Model, V::Model) -> V::Model {
    |a: V::Model, b: V::Model| V::merge_model(a, b)
}

/// Merges the child's map with the parent's: shared keys merge their
/// values (child first), other keys are kept from whichever map has them.
pub fn merge_maps<V: Merge>(child: StringMap<V>, parent: StringMap<V>) -> (r: StringMap<V>)
    ensures
        model_map(r@) == merge_maps_spec(model_map(child@), model_map(parent@), merge_fn::<V>()),
{
    let ghost target = merge_maps_spec(model_map(child@), model_map(parent@), merge_fn::<V>());
    let mut acc = child;
    let mut rest = parent;
    proof {
        rest.lemma_dom();
        assert(merge_maps_spec(model_map(acc@), model_map(rest@), merge_fn::<V>()) =~= target);
    }
    while !rest.is_empty()
        invariant
            merge_maps_spec(model_map(acc@), model_map(rest@), merge_fn::<V>()) == target,
            rest@.dom().finite(),
        decreases rest@.dom().len(),
    {
        let ghost prev_acc = acc@;
        let ghost prev_rest = rest@;
        let popped = rest.pop_last();
        if let Some((k, pv)) = popped {
            let ghost kv = k@;
            let existing = acc.remove(k.as_str());
            match existing {
                Some(cv) => {
                    let merged = cv.merge_parent(pv);
                    acc.insert(k, merged);
                },
                None => {
                    acc.insert(k, pv);
                },
            }
            proof {
                rest.lemma_dom();
                let lhs = merge_maps_spec(model_map(acc@), model_map(rest@), merge_fn::<V>());
                let rhs = merge_maps_spec(model_map(prev_acc), model_map(prev_rest), merge_fn::<V>());
                assert(lhs.dom() =~= rhs.dom());
                assert forall|x: Seq<char>| #[trigger] lhs.contains_key(x) implies lhs[x] == rhs[x] by {
                    if x == kv {
                    } else {
                        assert(acc@.contains_key(x) == prev_acc.contains_key(x));
                        assert(rest@.contains_key(x) == prev_rest.contains_key(x));
                    }
                }
                assert(lhs =~= rhs);
            }
        }
    }
    proof {
        assert(rest@ =~= Map::<Seq<char>, V>::empty());
        assert(merge_maps_spec(model_map(acc@), model_map(rest@), merge_fn::<V>()) =~= model_map(acc@));
    }
    acc
}

impl<V: Merge> Merge for StringMap<V> {
    type Model = Map<Seq<char>, V::Model>;

    open spec fn model(&self) -> Map<Seq<char>, V::Model> {
        model_map(self@)
    }

    open spec fn merge_model(child: Map<Seq<char>, V::Model>, parent: Map<Seq<char>, V::Model>) -> Map<Seq<char>, V::Model> {
        merge_maps_spec(child, parent, merge_fn::<V>())
    }

    fn merge_parent(self, parent: Self) -> (r: Self) {
        merge_maps(self, parent)
    }

    fn copy(&self) -> (r: Self) {
        copy_map(self)
    }
}

impl<V: Merge> Clone for StringMap<V> {
    fn clone(&self) -> (r: Self)
        ensures
            model_map(r@) == model_map(self@),
    {
        copy_map(self)
    }
}

} // verus!
