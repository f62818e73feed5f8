//! A map keyed by strings, kept in ascending key order.
use vstd::prelude::*;
use crate::text::{Order, compare_str, seq_lt, lemma_seq_lt_irreflexive, lemma_seq_lt_transitive};
use crate::set::{sorted_strict, lemma_sorted_no_duplicates, lemma_insert_to_set, lemma_remove_to_set, views};

verus! {

/// The keys of a sequence of entries.
pub open spec fn entry_keys<V>(e: Seq<(String, V)>) -> Seq<Seq<char>> {
    e.map_values(|p: (String, V)| p.0@)
}

/// The map made of entries whose keys do not repeat.
pub open spec fn entries_map<V>(e: Seq<(String, V)>) -> Map<Seq<char>, V> {
    Map::new(
        |k: Seq<char>| entry_keys(e).contains(k),
        |k: Seq<char>| e[entry_keys(e).index_of(k)].1,
    )
}

/// With distinct keys, the entry at `i` is what the map holds for its key.
pub proof fn lemma_entries_map_at<V>(e: Seq<(String, V)>, i: int)
    requires
        entry_keys(e).no_duplicates(),
        0 <= i < e.len(),
    ensures
        entries_map(e).contains_key(e[i].0@),
        entries_map(e)[e[i].0@] == e[i].1,
{
    let ks = entry_keys(e);
    assert(ks[i] == e[i].0@);
    assert(ks.contains(e[i].0@));
    let j = ks.index_of(e[i].0@);
    assert(ks[j] == e[i].0@);
}

/// Entries with distinct keys, lifted through an insertion at position `j`.
proof fn lemma_entries_map_insert<V>(e: Seq<(String, V)>, j: int, k: String, v: V)
    requires
        entry_keys(e).no_duplicates(),
        !entry_keys(e).contains(k@),
        0 <= j <= e.len(),
    ensures
        entry_keys(e.insert(j, (k, v))) == entry_keys(e).insert(j, k@),
        entry_keys(e.insert(j, (k, v))).no_duplicates(),
        entries_map(e.insert(j, (k, v))) == entries_map(e).insert(k@, v),
{
    let t = e.insert(j, (k, v));
    let ks = entry_keys(e);
    let kt = entry_keys(t);
    assert(kt =~= ks.insert(j, k@));
    assert forall|a: int, b: int| 0 <= a < kt.len() && 0 <= b < kt.len() && a != b implies kt[a] != kt[b] by {
        if a == j {
            if b < j { assert(ks.contains(ks[b])); } else { assert(ks.contains(ks[b - 1])); }
        } else if b == j {
            if a < j { assert(ks.contains(ks[a])); } else { assert(ks.contains(ks[a - 1])); }
        } else {
            let a2 = if a < j { a } else { a - 1 };
            let b2 = if b < j { b } else { b - 1 };
            assert(kt[a] == ks[a2] && kt[b] == ks[b2]);
        }
    }
    lemma_insert_to_set(ks, j, k@);
    assert forall|x: Seq<char>| #[trigger] entries_map(t).contains_key(x) <==> entries_map(e).insert(k@, v).contains_key(x) by {
        assert(kt.to_set().contains(x) == kt.contains(x));
        assert(ks.to_set().contains(x) == ks.contains(x));
    }
    assert forall|x: Seq<char>| #[trigger] entries_map(t).contains_key(x) implies entries_map(t)[x] == entries_map(e).insert(k@, v)[x] by {
        let i = kt.index_of(x);
        assert(kt[i] == x);
        lemma_entries_map_at(t, i);
        if i == j {
        } else if i < j {
            lemma_entries_map_at(e, i);
        } else {
            lemma_entries_map_at(e, i - 1);
        }
    }
    assert(entries_map(t) =~= entries_map(e).insert(k@, v));
}

proof fn lemma_entries_map_remove<V>(e: Seq<(String, V)>, j: int)
    requires
        entry_keys(e).no_duplicates(),
        0 <= j < e.len(),
    ensures
        entry_keys(e.remove(j)) == entry_keys(e).remove(j),
        entry_keys(e.remove(j)).no_duplicates(),
        entries_map(e.remove(j)) == entries_map(e).remove(e[j].0@),
{
    let t = e.remove(j);
    let ks = entry_keys(e);
    let kt = entry_keys(t);
    assert(kt =~= ks.remove(j));
    assert forall|a: int, b: int| 0 <= a < kt.len() && 0 <= b < kt.len() && a != b implies kt[a] != kt[b] by {
        let a2 = if a < j { a } else { a + 1 };
        let b2 = if b < j { b } else { b + 1 };
        assert(kt[a] == ks[a2] && kt[b] == ks[b2]);
    }
    lemma_remove_to_set(ks, j);
    assert(ks[j] == e[j].0@);
    assert forall|x: Seq<char>| #[trigger] entries_map(t).contains_key(x) <==> entries_map(e).remove(e[j].0@).contains_key(x) by {
        assert(kt.to_set().contains(x) == kt.contains(x));
        assert(ks.to_set().contains(x) == ks.contains(x));
    }
    assert forall|x: Seq<char>| #[trigger] entries_map(t).contains_key(x) implies entries_map(t)[x] == entries_map(e).remove(e[j].0@)[x] by {
        let i = kt.index_of(x);
        assert(kt[i] == x);
        lemma_entries_map_at(t, i);
        if i < j {
            lemma_entries_map_at(e, i);
        } else {
            lemma_entries_map_at(e, i + 1);
        }
    }
    assert(entries_map(t) =~= entries_map(e).remove(e[j].0@));
}

/// A finite map from strings to values, held in ascending key order.
#[derive(Debug, PartialEq, Eq)]
pub struct StringMap<V> {
    entries: Vec<(String, V)>,
}

impl<V> View for StringMap<V> {
    type V = Map<Seq<char>, V>;

    closed spec fn view(&self) -> Map<Seq<char>, V> {
        entries_map(self.entries@)
    }
}

impl<V> StringMap<V> {
    /// The keys in ascending order.
    pub closed spec fn ordered_keys(&self) -> Seq<Seq<char>> {
        entry_keys(self.entries@)
    }

    #[verifier::type_invariant]
    closed spec fn inv(&self) -> bool {
        sorted_strict(entry_keys(self.entries@))
    }

    /// The keys are held in strictly ascending order, each once; they are
    /// exactly the map's keys. (Called for its contract; it does no work.)
    pub fn lemma_ordered(&self)
        ensures
            sorted_strict(self.ordered_keys()),
            self.ordered_keys().no_duplicates(),
            self.ordered_keys().to_set() == self@.dom(),
            self@.dom().finite(),
            self@.len() == self.ordered_keys().len(),
    {
        proof {
            use_type_invariant(self);
            let ks = self.ordered_keys();
            lemma_sorted_no_duplicates(ks);
            ks.unique_seq_to_set();
            vstd::seq_lib::seq_to_set_is_finite(ks);
            assert(ks.to_set() =~= self@.dom());
        }
    }

    /// The key set is the set of ordered keys, and it is finite.
    pub proof fn lemma_dom(&self)
        ensures
            self.ordered_keys().to_set() == self@.dom(),
            self@.dom().finite(),
    {
        assert(self.ordered_keys().to_set() =~= self@.dom());
        vstd::seq_lib::seq_to_set_is_finite(self.ordered_keys());
    }

    /// The empty map.
    pub fn new() -> (r: Self)
        ensures
            r@ == Map::<Seq<char>, V>::empty(),
            r.ordered_keys() == Seq::<Seq<char>>::empty(),
    {
        let r = StringMap { entries: Vec::new() };
        assert(entry_keys(r.entries@) =~= Seq::<Seq<char>>::empty());
        assert(r@ =~= Map::<Seq<char>, V>::empty());
        r
    }

    /// The number of entries.
    pub fn len(&self) -> (n: usize)
        ensures
            n == self@.len(),
            n == self.ordered_keys().len(),
    {
        self.lemma_ordered();
        self.entries.len()
    }

    /// Whether there are no entries.
    pub fn is_empty(&self) -> (b: bool)
        ensures
            b == (self@.dom() == Set::<Seq<char>>::empty()),
    {
        self.lemma_ordered();
        proof {
            if self.entries.len() > 0 {
                assert(self@.dom().contains(self.ordered_keys()[0]));
            } else {
                assert(self@.dom() =~= Set::<Seq<char>>::empty());
            }
        }
        self.entries.len() == 0
    }

    fn find(&self, k: &str) -> (r: (usize, bool))
        ensures
            r.0 <= self.ordered_keys().len(),
            r.1 ==> r.0 < self.ordered_keys().len() && self.ordered_keys()[r.0 as int] == k@,
            forall|i: int| 0 <= i < r.0 ==> seq_lt(#[trigger] self.ordered_keys()[i], k@),
            !r.1 ==> forall|i: int| r.0 <= i < self.ordered_keys().len() ==> seq_lt(k@, #[trigger] self.ordered_keys()[i]),
            !r.1 ==> !self@.contains_key(k@),
    {
        proof {
            use_type_invariant(self);
        }
        let ghost ks = entry_keys(self.entries@);
        let mut i: usize = 0;
        while i < self.entries.len()
            invariant
                i <= self.entries.len(),
                ks == entry_keys(self.entries@),
                sorted_strict(ks),
                forall|j: int| 0 <= j < i ==> seq_lt(#[trigger] ks[j], k@),
            decreases self.entries.len() - i,
        {
            match compare_str(self.entries[i].0.as_str(), k) {
                Order::Less => {},
                Order::Equal => {
                    return (i, true);
                },
                Order::Greater => {
                    proof {
                        assert forall|j: int| i <= j < ks.len() implies seq_lt(k@, #[trigger] ks[j]) by {
                            if j > i {
                                lemma_seq_lt_transitive(k@, ks[i as int], ks[j]);
                            }
                        }
                        if ks.contains(k@) {
                            let j = choose|j: int| 0 <= j < ks.len() && ks[j] == k@;
                            lemma_seq_lt_irreflexive(k@);
                        }
                    }
                    return (i, false);
                },
            }
            i = i + 1;
        }
        proof {
            if ks.contains(k@) {
                let j = choose|j: int| 0 <= j < ks.len() && ks[j] == k@;
                lemma_seq_lt_irreflexive(k@);
            }
        }
        (i, false)
    }

    /// Whether `k` is a key.
    pub fn contains_key(&self, k: &str) -> (b: bool)
        ensures
            b == self@.contains_key(k@),
    {
        let (i, found) = self.find(k);
        proof {
            if found {
                assert(entry_keys(self.entries@).contains(k@));
            }
        }
        found
    }

    /// The value under `k`, if any.
    pub fn get(&self, k: &str) -> (r: Option<&V>)
        ensures
            r is Some == self@.contains_key(k@),
            r is Some ==> *r->0 == self@[k@],
    {
        let (i, found) = self.find(k);
        self.lemma_ordered();
        if found {
            proof {
                lemma_entries_map_at(self.entries@, i as int);
            }
            Some(&self.entries[i].1)
        } else {
            None
        }
    }

    /// Sets the value under `k`; returns the value it replaced.
    pub fn insert(&mut self, k: String, v: V) -> (old_v: Option<V>)
        ensures
            final(self)@ == old(self)@.insert(k@, v),
            old_v is Some == old(self)@.contains_key(k@),
            old_v is Some ==> old_v->0 == old(self)@[k@],
    {
        let (i, found) = self.find(k.as_str());
        self.lemma_ordered();
        let ghost before = self.entries@;
        let ghost kv = k@;
        let mut entries: Vec<(String, V)> = Vec::new();
        std::mem::swap(&mut entries, &mut self.entries);
        if found {
            let old_entry = entries.remove(i);
            proof {
                lemma_entries_map_at(before, i as int);
                lemma_entries_map_remove(before, i as int);
                let mid = before.remove(i as int);
                assert(entries@ == mid);
                assert(!entry_keys(mid).contains(kv)) by {
                    if entry_keys(mid).contains(kv) {
                        let j = choose|j: int| 0 <= j < entry_keys(mid).len() && entry_keys(mid)[j] == kv;
                        let j2 = if j < i { j } else { j + 1 };
                        assert(entry_keys(before)[j2] == kv);
                        assert(entry_keys(before)[i as int] == kv);
                    }
                }
                lemma_entries_map_insert(mid, i as int, k, v);
                assert(entries_map(before).remove(kv).insert(kv, v) =~= entries_map(before).insert(kv, v));
                let after = mid.insert(i as int, (k, v));
                assert(entry_keys(after) =~= entry_keys(before));
            }
            entries.insert(i, (k, v));
            self.entries = entries;
            Some(old_entry.1)
        } else {
            proof {
                lemma_entries_map_insert(before, i as int, k, v);
                let after = before.insert(i as int, (k, v));
                let ka = entry_keys(after);
                assert forall|a: int, b: int| 0 <= a < b < ka.len() implies seq_lt(#[trigger] ka[a], #[trigger] ka[b]) by {
                    let kb = entry_keys(before);
                    if b < i {
                        assert(ka[a] == kb[a] && ka[b] == kb[b]);
                    } else if b == i {
                        assert(ka[a] == kb[a]);
                    } else if a < i {
                        assert(ka[a] == kb[a] && ka[b] == kb[b - 1]);
                        lemma_seq_lt_transitive(ka[a], kv, ka[b]);
                    } else if a == i {
                        assert(ka[b] == kb[b - 1]);
                    } else {
                        assert(ka[a] == kb[a - 1] && ka[b] == kb[b - 1]);
                    }
                }
            }
            entries.insert(i, (k, v));
            self.entries = entries;
            None
        }
    }

    /// Removes the entry under `k`; returns its value.
    pub fn remove(&mut self, k: &str) -> (old_v: Option<V>)
        ensures
            final(self)@ == old(self)@.remove(k@),
            old_v is Some == old(self)@.contains_key(k@),
            old_v is Some ==> old_v->0 == old(self)@[k@],
    {
        let (i, found) = self.find(k);
        self.lemma_ordered();
        if !found {
            assert(self@.remove(k@) =~= self@);
            return None;
        }
        let ghost before = self.entries@;
        let mut entries: Vec<(String, V)> = Vec::new();
        std::mem::swap(&mut entries, &mut self.entries);
        let e = entries.remove(i);
        proof {
            lemma_entries_map_at(before, i as int);
            lemma_entries_map_remove(before, i as int);
            let kb = entry_keys(before);
            let ka = entry_keys(entries@);
            assert forall|a: int, b: int| 0 <= a < b < ka.len() implies seq_lt(#[trigger] ka[a], #[trigger] ka[b]) by {
                let a2 = if a < i { a } else { a + 1 };
                let b2 = if b < i { b } else { b + 1 };
                assert(ka[a] == kb[a2] && ka[b] == kb[b2]);
            }
        }
        self.entries = entries;
        Some(e.1)
    }

    /// The key and value at position `i` in key order.
    pub fn entry_at(&self, i: usize) -> (r: (&String, &V))
        requires
            i < self.ordered_keys().len(),
        ensures
            r.0@ == self.ordered_keys()[i as int],
            self@.contains_key(r.0@),
            self@[r.0@] == *r.1,
    {
        self.lemma_ordered();
        proof {
            lemma_entries_map_at(self.entries@, i as int);
        }
        (&self.entries[i].0, &self.entries[i].1)
    }

    /// The keys in ascending order.
    pub fn keys(&self) -> (r: Vec<String>)
        ensures
            views(r@) == self.ordered_keys(),
            sorted_strict(self.ordered_keys()),
            self.ordered_keys().no_duplicates(),
            self.ordered_keys().to_set() == self@.dom(),
    {
        self.lemma_ordered();
        let mut r: Vec<String> = Vec::new();
        let mut i: usize = 0;
        while i < self.entries.len()
            invariant
                i <= self.entries.len(),
                r@.len() == i,
                views(r@) == entry_keys(self.entries@).take(i as int),
            decreases self.entries.len() - i,
        {
            let key = self.entries[i].0.clone();
            r.push(key);
            proof {
                assert(r@[i as int]@ == entry_keys(self.entries@)[i as int]);
                assert(views(r@) =~= entry_keys(self.entries@).take(i + 1));
            }
            i = i + 1;
        }
        assert(entry_keys(self.entries@).take(i as int) =~= entry_keys(self.entries@));
        r
    }

    /// Removes and returns the entry with the greatest key.
    pub fn pop_last(&mut self) -> (r: Option<(String, V)>)
        ensures
            r is None <==> old(self)@.dom() == Set::<Seq<char>>::empty(),
            r is Some ==> {
                let (k, v) = r->0;
                &&& old(self)@.contains_key(k@)
                &&& old(self)@[k@] == v
                &&& final(self)@ == old(self)@.remove(k@)
                &&& k@ == old(self).ordered_keys().last()
                &&& final(self).ordered_keys() == old(self).ordered_keys().drop_last()
            },
    {
        self.lemma_ordered();
        if self.entries.len() == 0 {
            assert(self@.dom() =~= Set::<Seq<char>>::empty());
            return None;
        }
        proof {
            assert(self@.dom().contains(self.ordered_keys()[0]));
        }
        let ghost before = self.entries@;
        let mut entries: Vec<(String, V)> = Vec::new();
        std::mem::swap(&mut entries, &mut self.entries);
        let e = entries.pop().unwrap();
        proof {
            let j = before.len() - 1;
            lemma_entries_map_at(before, j);
            lemma_entries_map_remove(before, j);
            assert(before.remove(j) =~= entries@);
            let kb = entry_keys(before);
            let ka = entry_keys(entries@);
            assert(ka =~= kb.drop_last());
            assert forall|a: int, b: int| 0 <= a < b < ka.len() implies seq_lt(#[trigger] ka[a], #[trigger] ka[b]) by {
                assert(ka[a] == kb[a] && ka[b] == kb[b]);
            }
        }
        self.entries = entries;
        Some(e)
    }

    /// Adds every entry of `other`; on a shared key the value of `other`
    /// replaces this map's (as `HashMap::extend`).
    pub fn extend(&mut self, other: StringMap<V>)
        ensures
            final(self)@ == old(self)@.union_prefer_right(other@),
    {
        let ghost target = self@.union_prefer_right(other@);
        let mut other = other;
        proof {
            other.lemma_dom();
        }
        while !other.is_empty()
            invariant
                self@.union_prefer_right(other@) == target,
                other@.dom().finite(),
            decreases other@.dom().len(),
        {
            let ghost prev = other@;
            let popped = other.pop_last();
            if let Some((k, v)) = popped {
                self.insert(k, v);
                proof {
                    other.lemma_dom();
                    assert(self@.union_prefer_right(other@) =~= target);
                }
            }
        }
        assert(other@ =~= Map::<Seq<char>, V>::empty());
        assert(self@.union_prefer_right(other@) =~= self@);
    }
}

impl StringMap<String> {
    /// A map with the same keys and values.
    pub fn duplicate(&self) -> (r: Self)
        ensures
            r@ == self@,
    {
        let mut r: StringMap<String> = StringMap::new();
        let n = self.len();
        let mut i: usize = 0;
        proof {
            self.lemma_dom();
        }
        while i < n
            invariant
                n == self.ordered_keys().len(),
                i <= n,
                self.ordered_keys().to_set() == self@.dom(),
                r@.dom() == self.ordered_keys().take(i as int).to_set(),
                forall|k: Seq<char>| #[trigger] r@.contains_key(k) ==> r@[k] == self@[k],
            decreases n - i,
        {
            let (k, v) = self.entry_at(i);
            r.insert(k.clone(), v.clone());
            proof {
                let ks = self.ordered_keys();
                assert(ks.take(i + 1) =~= ks.take(i as int).push(ks[i as int]));
                ks.take(i as int).lemma_push_to_set_commute(ks[i as int]);
            }
            i = i + 1;
        }
        proof {
            assert(self.ordered_keys().take(n as int) =~= self.ordered_keys());
            assert(r@ =~= self@);
        }
        r
    }
}

impl Clone for StringMap<String> {
    fn clone(&self) -> (r: Self)
        ensures
            r@ == self@,
    {
        self.duplicate()
    }
}

} // verus!
