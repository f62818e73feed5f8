//! A set of strings kept in ascending order, so that it iterates, compares
//! and prints the same way every time.
use vstd::prelude::*;
use crate::text::{Order, compare_str, seq_lt, lemma_seq_lt_irreflexive, lemma_seq_lt_transitive, lemma_seq_lt_total, lemma_seq_lt_asymmetric};

verus! {

/// The character sequences of a sequence of strings.
pub open spec fn views(v: Seq<String>) -> Seq<Seq<char>> {
    v.map_values(|s: String| s@)
}

/// Every element is strictly below every later one.
pub open spec fn sorted_strict(s: Seq<Seq<char>>) -> bool {
    forall|i: int, j: int| 0 <= i < j < s.len() ==> seq_lt(#[trigger] s[i], #[trigger] s[j])
}

pub proof fn lemma_sorted_no_duplicates(s: Seq<Seq<char>>)
    requires
        sorted_strict(s),
    ensures
        s.no_duplicates(),
{
    assert forall|i: int, j: int| 0 <= i < s.len() && 0 <= j < s.len() && i != j implies s[i] != s[j] by {
        if i < j {
            lemma_seq_lt_irreflexive(s[i]);
        } else {
            lemma_seq_lt_irreflexive(s[j]);
        }
    }
}

/// Two strictly sorted sequences with the same elements are the same sequence.
pub proof fn lemma_sorted_unique(a: Seq<Seq<char>>, b: Seq<Seq<char>>)
    requires
        sorted_strict(a),
        sorted_strict(b),
        a.to_set() == b.to_set(),
    ensures
        a == b,
    decreases a.len(),
{
    lemma_sorted_no_duplicates(a);
    lemma_sorted_no_duplicates(b);
    a.unique_seq_to_set();
    b.unique_seq_to_set();
    if a.len() > 0 {
        // the largest elements agree
        let la = a.last();
        let lb = b.last();
        assert(a.to_set().contains(la));
        assert(b.to_set().contains(la));
        assert(a.to_set().contains(lb));
        if la != lb {
            let ia = choose|i: int| 0 <= i < a.len() && a[i] == lb;
            let ib = choose|i: int| 0 <= i < b.len() && b[i] == la;
            assert(ia < a.len() - 1);
            assert(ib < b.len() - 1);
            assert(seq_lt(lb, la));
            assert(seq_lt(la, lb));
            lemma_seq_lt_asymmetric(la, lb);
        }
        let a2 = a.drop_last();
        let b2 = b.drop_last();
        assert(a2.to_set() =~= b2.to_set()) by {
            assert forall|x| a2.to_set().contains(x) implies b2.to_set().contains(x) by {
                let i = choose|i: int| 0 <= i < a2.len() && a2[i] == x;
                assert(a.to_set().contains(x));
                let j = choose|j: int| 0 <= j < b.len() && b[j] == x;
                if j == b.len() - 1 {
                    assert(a[i] == a[a.len() - 1]);
                }
                assert(b2[j] == x);
            }
            assert forall|x| b2.to_set().contains(x) implies a2.to_set().contains(x) by {
                let i = choose|i: int| 0 <= i < b2.len() && b2[i] == x;
                assert(b.to_set().contains(x));
                let j = choose|j: int| 0 <= j < a.len() && a[j] == x;
                if j == a.len() - 1 {
                    assert(b[i] == b[b.len() - 1]);
                }
                assert(a2[j] == x);
            }
        }
        lemma_sorted_unique(a2, b2);
        assert(a =~= a2.push(la));
        assert(b =~= b2.push(lb));
    } else {
        if b.len() > 0 {
            assert(b.to_set().contains(b[0]));
        }
        assert(a =~= b);
    }
}

pub proof fn lemma_insert_to_set(s: Seq<Seq<char>>, j: int, x: Seq<char>)
    requires
        0 <= j <= s.len(),
    ensures
        s.insert(j, x).to_set() == s.to_set().insert(x),
{
    let t = s.insert(j, x);
    assert forall|y| t.to_set().contains(y) <==> s.to_set().insert(x).contains(y) by {
        if t.to_set().contains(y) {
            let k = choose|k: int| 0 <= k < t.len() && t[k] == y;
            if k < j {
                assert(s[k] == y);
            } else if k > j {
                assert(s[k - 1] == y);
            }
        }
        if s.to_set().contains(y) {
            let k = choose|k: int| 0 <= k < s.len() && s[k] == y;
            if k < j {
                assert(t[k] == y);
            } else {
                assert(t[k + 1] == y);
            }
        }
        if y == x {
            assert(t[j] == x);
        }
    }
    assert(t.to_set() =~= s.to_set().insert(x));
}

pub proof fn lemma_remove_to_set(s: Seq<Seq<char>>, j: int)
    requires
        0 <= j < s.len(),
        s.no_duplicates(),
    ensures
        s.remove(j).to_set() == s.to_set().remove(s[j]),
{
    let t = s.remove(j);
    assert forall|y| t.to_set().contains(y) <==> s.to_set().remove(s[j]).contains(y) by {
        if t.to_set().contains(y) {
            let k = choose|k: int| 0 <= k < t.len() && t[k] == y;
            if k < j {
                assert(s[k] == y);
            } else {
                assert(s[k + 1] == y);
            }
        }
        if s.to_set().contains(y) && y != s[j] {
            let k = choose|k: int| 0 <= k < s.len() && s[k] == y;
            if k < j {
                assert(t[k] == y);
            } else {
                assert(t[k - 1] == y);
            }
        }
    }
    assert(t.to_set() =~= s.to_set().remove(s[j]));
}

/// A finite set of strings, held in ascending order without repeats.
#[derive(Debug, PartialEq, Eq)]
pub struct StringSet {
    items: Vec<String>,
}

impl View for StringSet {
    type V = Set<Seq<char>>;

    closed spec fn view(&self) -> Set<Seq<char>> {
        views(self.items@).to_set()
    }
}

impl StringSet {
    /// The elements in ascending order.
    pub closed spec fn ordered(&self) -> Seq<Seq<char>> {
        views(self.items@)
    }

    #[verifier::type_invariant]
    closed spec fn inv(&self) -> bool {
        sorted_strict(views(self.items@))
    }

    /// The set is the elements of the ordered sequence, and it is finite.
    pub proof fn lemma_view(&self)
        ensures
            self.ordered().to_set() == self@,
            self@.finite(),
    {
        vstd::seq_lib::seq_to_set_is_finite(self.ordered());
    }

    /// Facts that follow from the ordering (needs the invariant, so it
    /// is reached from executable code).
    fn lemma_ordered(&self)
        ensures
            sorted_strict(self.ordered()),
            self.ordered().to_set() == self@,
            self.ordered().no_duplicates(),
            self@.finite(),
            self@.len() == self.ordered().len(),
    {
        proof {
            use_type_invariant(self);
            lemma_sorted_no_duplicates(self.ordered());
            self.ordered().unique_seq_to_set();
            vstd::seq_lib::seq_to_set_is_finite(self.ordered());
        }
    }

    /// The empty set.
    pub fn new() -> (r: Self)
        ensures
            r@ == Set::<Seq<char>>::empty(),
            r.ordered() == Seq::<Seq<char>>::empty(),
    {
        let r = StringSet { items: Vec::new() };
        assert(views(r.items@) =~= Seq::<Seq<char>>::empty());
        assert(r@ =~= Set::<Seq<char>>::empty());
        r
    }

    /// The number of elements.
    pub fn len(&self) -> (n: usize)
        ensures
            n == self@.len(),
    {
        self.lemma_ordered();
        self.items.len()
    }

    /// Whether the set has no elements.
    pub fn is_empty(&self) -> (b: bool)
        ensures
            b == (self@ == Set::<Seq<char>>::empty()),
    {
        self.lemma_ordered();
        proof {
            if self.items.len() > 0 {
                assert(self@.contains(self.ordered()[0]));
            } else {
                assert(self@ =~= Set::<Seq<char>>::empty());
            }
        }
        self.items.len() == 0
    }

    /// The elements in ascending order.
    pub fn as_vec(&self) -> (v: &Vec<String>)
        ensures
            views(v@) == self.ordered(),
            sorted_strict(self.ordered()),
            self.ordered().to_set() == self@,
            self.ordered().no_duplicates(),
    {
        self.lemma_ordered();
        &self.items
    }

    /// The position where `s` is, or where it would go.
    fn find(&self, s: &str) -> (r: (usize, bool))
        ensures
            r.0 <= self.ordered().len(),
            r.1 ==> r.0 < self.ordered().len() && self.ordered()[r.0 as int] == s@,
            forall|k: int| 0 <= k < r.0 ==> seq_lt(#[trigger] self.ordered()[k], s@),
            !r.1 ==> forall|k: int| r.0 <= k < self.ordered().len() ==> seq_lt(s@, #[trigger] self.ordered()[k]),
    {
        proof {
            use_type_invariant(self);
        }
        let mut i: usize = 0;
        while i < self.items.len()
            invariant
                i <= self.items.len(),
                sorted_strict(views(self.items@)),
                forall|k: int| 0 <= k < i ==> seq_lt(#[trigger] views(self.items@)[k], s@),
            decreases self.items.len() - i,
        {
            match compare_str(self.items[i].as_str(), s) {
                Order::Less => {},
                Order::Equal => {
                    return (i, true);
                },
                Order::Greater => {
                    proof {
                        assert forall|k: int| i <= k < views(self.items@).len() implies seq_lt(s@, #[trigger] views(self.items@)[k]) by {
                            if k > i {
                                lemma_seq_lt_transitive(s@, views(self.items@)[i as int], views(self.items@)[k]);
                            }
                        }
                    }
                    return (i, false);
                },
            }
            i = i + 1;
        }
        (i, false)
    }

    /// Whether `s` is an element.
    pub fn contains(&self, s: &str) -> (b: bool)
        ensures
            b == self@.contains(s@),
    {
        let (i, found) = self.find(s);
        self.lemma_ordered();
        proof {
            if found {
                assert(self.ordered().to_set().contains(s@));
            } else if self@.contains(s@) {
                let k = choose|k: int| 0 <= k < self.ordered().len() && self.ordered()[k] == s@;
                if k < i {
                    lemma_seq_lt_irreflexive(s@);
                } else {
                    lemma_seq_lt_irreflexive(s@);
                }
            }
        }
        found
    }

    /// Adds `s`; returns whether it was absent before.
    pub fn insert(&mut self, s: String) -> (added: bool)
        ensures
            final(self)@ == old(self)@.insert(s@),
            added == !old(self)@.contains(s@),
    {
        self.lemma_ordered();
        let (i, found) = self.find(s.as_str());
        if found {
            proof {
                assert(self.ordered().to_set().contains(s@));
                assert(self@ =~= self@.insert(s@));
            }
            return false;
        }
        let ghost before = views(self.items@);
        proof {
            if self@.contains(s@) {
                let k = choose|k: int| 0 <= k < before.len() && before[k] == s@;
                lemma_seq_lt_irreflexive(s@);
            }
        }
        let ghost sv = s@;
        let mut items: Vec<String> = Vec::new();
        std::mem::swap(&mut items, &mut self.items);
        items.insert(i, s);
        proof {
            let after = views(items@);
            assert(after =~= before.insert(i as int, sv));
            lemma_insert_to_set(before, i as int, sv);
            assert forall|a: int, b: int| 0 <= a < b < after.len() implies seq_lt(#[trigger] after[a], #[trigger] after[b]) by {
                if b < i {
                } else if b == i {
                } else if a < i {
                    lemma_seq_lt_transitive(after[a], sv, after[b]);
                } else if a == i {
                } else {
                }
            }
        }
        self.items = items;
        true
    }

    /// Removes `s`; returns whether it was present.
    pub fn remove(&mut self, s: &str) -> (removed: bool)
        ensures
            final(self)@ == old(self)@.remove(s@),
            removed == old(self)@.contains(s@),
    {
        self.lemma_ordered();
        let (i, found) = self.find(s);
        if !found {
            proof {
                if self@.contains(s@) {
                    let k = choose|k: int| 0 <= k < self.ordered().len() && self.ordered()[k] == s@;
                    lemma_seq_lt_irreflexive(s@);
                }
                assert(self@ =~= self@.remove(s@));
            }
            return false;
        }
        let ghost before = views(self.items@);
        let mut items: Vec<String> = Vec::new();
        std::mem::swap(&mut items, &mut self.items);
        let _gone = items.remove(i);
        proof {
            let after = views(items@);
            assert(after =~= before.remove(i as int));
            lemma_remove_to_set(before, i as int);
            assert(before.to_set().contains(s@));
            assert forall|a: int, b: int| 0 <= a < b < after.len() implies seq_lt(#[trigger] after[a], #[trigger] after[b]) by {
                if b < i {
                    assert(after[a] == before[a] && after[b] == before[b]);
                } else if a < i {
                    assert(after[a] == before[a] && after[b] == before[b + 1]);
                } else {
                    assert(after[a] == before[a + 1] && after[b] == before[b + 1]);
                }
            }
        }
        self.items = items;
        true
    }

    /// Adds every element of `other`.
    pub fn union_with(&mut self, other: &StringSet)
        ensures
            final(self)@ == old(self)@.union(other@),
    {
        other.lemma_ordered();
        let ghost start = self@;
        let items = other.as_vec();
        let mut i: usize = 0;
        while i < items.len()
            invariant
                i <= items.len(),
                views(items@) == other.ordered(),
                self@ == start.union(other.ordered().take(i as int).to_set()),
            decreases items.len() - i,
        {
            let s = items[i].clone();
            self.insert(s);
            proof {
                let o = other.ordered();
                assert(o.take(i + 1) =~= o.take(i as int).push(o[i as int]));
                o.take(i as int).lemma_push_to_set_commute(o[i as int]);
                assert(self@ =~= start.union(o.take(i + 1).to_set()));
            }
            i = i + 1;
        }
        proof {
            assert(other.ordered().take(items.len() as int) =~= other.ordered());
        }
    }

    /// Adds every element of `other`, consuming it (as `HashSet::extend`).
    pub fn extend(&mut self, other: StringSet)
        ensures
            final(self)@ == old(self)@.union(other@),
    {
        self.union_with(&other);
    }

    /// A set with the same elements.
    pub fn duplicate(&self) -> (r: Self)
        ensures
            r@ == self@,
            r.ordered() == self.ordered(),
    {
        proof {
            use_type_invariant(self);
        }
        let items = self.items.clone();
        assert(views(items@) =~= views(self.items@));
        StringSet { items }
    }

    /// A set with the strings of `v`.
    pub fn from_vec(v: Vec<String>) -> (r: Self)
        ensures
            r@ == views(v@).to_set(),
    {
        let mut r = StringSet::new();
        let mut i: usize = 0;
        while i < v.len()
            invariant
                i <= v.len(),
                r@ == views(v@).take(i as int).to_set(),
            decreases v.len() - i,
        {
            r.insert(v[i].clone());
            proof {
                let w = views(v@);
                assert(w.take(i + 1) =~= w.take(i as int).push(w[i as int]));
                w.take(i as int).lemma_push_to_set_commute(w[i as int]);
            }
            i = i + 1;
        }
        assert(views(v@).take(v.len() as int) =~= views(v@));
        r
    }
}

impl Default for StringSet {
    fn default() -> (r: Self)
        ensures
            r@ == Set::<Seq<char>>::empty(),
    {
        StringSet::new()
    }
}

impl Clone for StringSet {
    fn clone(&self) -> (r: Self)
        ensures
            r@ == self@,
            r.ordered() == self.ordered(),
    {
        self.duplicate()
    }
}

/// Whether `s` is one of the strings in `v`.
pub fn list_contains(v: &Vec<String>, s: &str) -> (b: bool)
    ensures
        b == views(v@).contains(s@),
{
    let mut i: usize = 0;
    while i < v.len()
        invariant
            i <= v.len(),
            forall|k: int| 0 <= k < i ==> v@[k]@ != s@,
        decreases v.len() - i,
    {
        if crate::text::str_eq(v[i].as_str(), s) {
            proof {
                assert(views(v@)[i as int] == s@);
            }
            return true;
        }
        i = i + 1;
    }
    proof {
        if views(v@).contains(s@) {
            let k = choose|k: int| 0 <= k < views(v@).len() && views(v@)[k] == s@;
            assert(v@[k]@ == s@);
        }
    }
    false
}

} // verus!
