//! Plain lists as the legacy manifest format holds them.
use vstd::prelude::*;
use crate::map::StringMap;
use crate::set::StringSet;
use crate::text::{chars_of, string_from_chars};

verus! {

/// A list of strings.
#[derive(Debug, Default)]
pub struct GenericVec {
    pub item: Vec<String>,
}

/// The map made of consecutive pairs of `items` (key, then value); a later
/// pair replaces an earlier one with the same key, and an unpaired last item
/// is dropped.
pub open spec fn pairs_map(items: Seq<String>) -> Map<Seq<char>, String>
    decreases items.len(),
{
    if items.len() < 2 {
        Map::empty()
    } else if items.len() % 2 == 1 {
        pairs_map(items.drop_last())
    } else {
        pairs_map(items.subrange(0, items.len() - 2)).insert(items[items.len() - 2]@, items[items.len() - 1])
    }
}

impl GenericVec {
    /// The number of items.
    pub fn len(&self) -> (n: usize)
        ensures
            n == self.item@.len(),
    {
        self.item.len()
    }

    /// The map made of consecutive pairs of items.
    pub fn to_pairs(&self) -> (r: StringMap<String>)
        ensures
            r@ == pairs_map(self.item@),
    {
        let items = &self.item;
        let mut r: StringMap<String> = StringMap::new();
        let mut k: usize = 0;
        let half = items.len() / 2;
        proof {
            assert(pairs_map(items@.subrange(0, 0)) =~= Map::<Seq<char>, String>::empty());
        }
        while k < half
            invariant
                half == items@.len() / 2,
                2 * half <= items@.len(),
                k <= half,
                r@ == pairs_map(items@.subrange(0, 2 * k)),
            decreases half - k,
        {
            assert(2 * k + 1 < items@.len());
            assert(items@.len() == items.len());
            let key = items[2 * k].clone();
            let value = items[2 * k + 1].clone();
            proof {
                let s = items@.subrange(0, 2 * k + 2);
                assert(s.subrange(0, s.len() - 2) =~= items@.subrange(0, 2 * k));
                assert(s[s.len() - 2] == items@[2 * k]);
                assert(s[s.len() - 1] == items@[2 * k + 1]);
            }
            r.insert(key, value);
            k = k + 1;
        }
        proof {
            let n = items@.len();
            if n % 2 == 1 {
                assert(items@.drop_last() =~= items@.subrange(0, 2 * half));
            } else {
                assert(items@ =~= items@.subrange(0, 2 * half));
            }
        }
        r
    }
}

/// Unicode white space, as `char::is_whitespace` defines it.
pub open spec fn is_white(c: char) -> bool {
    let n = c as u32;
    ||| (9 <= n && n <= 13)
    ||| n == 32
    ||| n == 0x85
    ||| n == 0xA0
    ||| n == 0x1680
    ||| (0x2000 <= n && n <= 0x200A)
    ||| n == 0x2028
    ||| n == 0x2029
    ||| n == 0x202F
    ||| n == 0x205F
    ||| n == 0x3000
}

fn is_white_exec(c: char) -> (b: bool)
    ensures
        b == is_white(c),
{
    let n = c as u32;
    (9 <= n && n <= 13) || n == 32 || n == 0x85 || n == 0xA0 || n == 0x1680 || (0x2000 <= n && n <= 0x200A)
        || n == 0x2028 || n == 0x2029 || n == 0x202F || n == 0x205F || n == 0x3000
}

/// `s` without its leading and trailing white space.
pub open spec fn trim_white(s: Seq<char>) -> Seq<char>
    decreases s.len(),
{
    if s.len() > 0 && is_white(s[0]) {
        trim_white(s.skip(1))
    } else if s.len() > 0 && is_white(s.last()) {
        trim_white(s.drop_last())
    } else {
        s
    }
}

/// The lines of `s`: the pieces between newlines (one more than there are
/// newlines).
pub open spec fn lines_of(s: Seq<char>) -> Seq<Seq<char>>
    decreases s.len(),
{
    if s.len() == 0 {
        seq![Seq::empty()]
    } else if s.last() == '\n' {
        lines_of(s.drop_last()).push(Seq::empty())
    } else {
        let l = lines_of(s.drop_last());
        l.update(l.len() - 1, l.last().push(s.last()))
    }
}

proof fn lemma_lines_nonempty(s: Seq<char>)
    ensures
        lines_of(s).len() >= 1,
    decreases s.len(),
{
    if s.len() > 0 {
        lemma_lines_nonempty(s.drop_last());
    }
}

/// Every character is ASCII.
pub open spec fn all_ascii(s: Seq<char>) -> bool {
    forall|i: int| 0 <= i < s.len() ==> (s[i] as u32) < 128
}

/// A line is kept once trimmed when something ASCII-only is left.
pub open spec fn kept_line(l: Seq<char>) -> bool {
    trim_white(l).len() > 0 && all_ascii(trim_white(l))
}

/// The first `n` lines of `ls` that are kept, trimmed.
pub open spec fn kept_lines(ls: Seq<Seq<char>>, n: int) -> Set<Seq<char>> {
    Set::new(|u: Seq<char>| exists|j: int| 0 <= j < n && #[trigger] kept_line(ls[j]) && u == trim_white(ls[j]))
}

/// The kept, trimmed lines of all items.
pub open spec fn split_lines_spec(items: Seq<String>) -> Set<Seq<char>>
    decreases items.len(),
{
    if items.len() == 0 {
        Set::empty()
    } else {
        let ls = lines_of(items.last()@);
        split_lines_spec(items.drop_last()).union(kept_lines(ls, ls.len() as int))
    }
}

proof fn lemma_kept_lines_same(a: Seq<Seq<char>>, b: Seq<Seq<char>>, n: int)
    requires
        0 <= n <= a.len(),
        n <= b.len(),
        forall|j: int| 0 <= j < n ==> a[j] == b[j],
    ensures
        kept_lines(a, n) == kept_lines(b, n),
{
    assert forall|u: Seq<char>| kept_lines(a, n).contains(u) <==> kept_lines(b, n).contains(u) by {
        if kept_lines(a, n).contains(u) {
            let j = choose|j: int| 0 <= j < n && #[trigger] kept_line(a[j]) && u == trim_white(a[j]);
            assert(a[j] == b[j]);
            assert(kept_line(b[j]));
        }
        if kept_lines(b, n).contains(u) {
            let j = choose|j: int| 0 <= j < n && #[trigger] kept_line(b[j]) && u == trim_white(b[j]);
            assert(a[j] == b[j]);
            assert(kept_line(a[j]));
        }
    }
    assert(kept_lines(a, n) =~= kept_lines(b, n));
}

proof fn lemma_kept_lines_step(ls: Seq<Seq<char>>, n: int)
    requires
        0 <= n < ls.len(),
    ensures
        kept_lines(ls, n + 1) == (if kept_line(ls[n]) {
            kept_lines(ls, n).insert(trim_white(ls[n]))
        } else {
            kept_lines(ls, n)
        }),
{
    let rhs = if kept_line(ls[n]) { kept_lines(ls, n).insert(trim_white(ls[n])) } else { kept_lines(ls, n) };
    assert forall|u: Seq<char>| kept_lines(ls, n + 1).contains(u) <==> rhs.contains(u) by {
        if kept_lines(ls, n + 1).contains(u) {
            let j = choose|j: int| 0 <= j < n + 1 && #[trigger] kept_line(ls[j]) && u == trim_white(ls[j]);
            if j < n {
                assert(kept_lines(ls, n).contains(u));
            }
        }
        if kept_lines(ls, n).contains(u) {
            let j = choose|j: int| 0 <= j < n && #[trigger] kept_line(ls[j]) && u == trim_white(ls[j]);
            assert(kept_line(ls[j]));
        }
        if kept_line(ls[n]) && u == trim_white(ls[n]) {
            assert(kept_line(ls[n]));
        }
    }
    assert(kept_lines(ls, n + 1) =~= rhs);
}

fn trim_exec(v: &Vec<char>) -> (r: Vec<char>)
    ensures
        r@ == trim_white(v@),
{
    let mut a: usize = 0;
    let n = v.len();
    assert(v@.subrange(0, n as int) =~= v@);
    while a < n && is_white_exec(v[a])
        invariant
            a <= n,
            n == v@.len(),
            trim_white(v@) == trim_white(v@.subrange(a as int, n as int)),
        decreases n - a,
    {
        proof {
            let s = v@.subrange(a as int, n as int);
            assert(s.skip(1) =~= v@.subrange(a + 1, n as int));
        }
        a = a + 1;
    }
    let mut b: usize = n;
    while b > a && is_white_exec(v[b - 1])
        invariant
            a <= b <= n,
            n == v@.len(),
            a == n || !is_white(v@[a as int]),
            trim_white(v@) == trim_white(v@.subrange(a as int, b as int)),
        decreases b,
    {
        proof {
            let s = v@.subrange(a as int, b as int);
            assert(s.drop_last() =~= v@.subrange(a as int, b - 1));
            if s.len() > 0 && is_white(s[0]) {
                assert(s[0] == v@[a as int]);
            }
        }
        b = b - 1;
    }
    let mut r: Vec<char> = Vec::new();
    let mut i: usize = a;
    while i < b
        invariant
            a <= i <= b,
            b <= v@.len(),
            r@ == v@.subrange(a as int, i as int),
        decreases b - i,
    {
        r.push(v[i]);
        proof {
            assert(r@ =~= v@.subrange(a as int, i + 1));
        }
        i = i + 1;
    }
    proof {
        let s = v@.subrange(a as int, b as int);
        if s.len() > 0 {
            assert(s[0] == v@[a as int]);
            assert(s.last() == v@[b - 1]);
        }
    }
    r
}

fn ascii_only(v: &Vec<char>) -> (b: bool)
    ensures
        b == all_ascii(v@),
{
    let mut i: usize = 0;
    while i < v.len()
        invariant
            i <= v.len(),
            forall|k: int| 0 <= k < i ==> (v@[k] as u32) < 128,
        decreases v.len() - i,
    {
        if (v[i] as u32) >= 128 {
            return false;
        }
        i = i + 1;
    }
    true
}

/// The lines of all items, trimmed of white space, keeping those that are
/// non-empty and ASCII only.
pub fn split_newline(list: &Vec<String>) -> (r: StringSet)
    ensures
        r@ == split_lines_spec(list@),
{
    let mut r = StringSet::new();
    let mut i: usize = 0;
    proof {
        assert(list@.take(0) =~= Seq::<String>::empty());
    }
    while i < list.len()
        invariant
            i <= list@.len(),
            r@ == split_lines_spec(list@.take(i as int)),
        decreases list.len() - i,
    {
        let chars = chars_of(list[i].as_str());
        let ghost s = list@[i as int]@;
        let ghost before = r@;
        let mut piece: Vec<char> = Vec::new();
        let mut k: usize = 0;
        proof {
            assert(s.take(0) =~= Seq::<char>::empty());
            assert(kept_lines(lines_of(s.take(0)), 0) =~= Set::<Seq<char>>::empty());
        }
        while k < chars.len()
            invariant
                chars@ == s,
                k <= s.len(),
                lines_of(s.take(k as int)).len() >= 1,
                lines_of(s.take(k as int)).last() == piece@,
                r@ == before.union(kept_lines(lines_of(s.take(k as int)), lines_of(s.take(k as int)).len() - 1)),
            decreases s.len() - k,
        {
            let ghost l0 = lines_of(s.take(k as int));
            proof {
                assert(s.take(k + 1).drop_last() =~= s.take(k as int));
                assert(s.take(k + 1).last() == chars@[k as int]);
            }
            if chars[k] == '\n' {
                let t = trim_exec(&piece);
                if t.len() > 0 && ascii_only(&t) {
                    r.insert(string_from_chars(&t));
                }
                piece = Vec::new();
                proof {
                    let l1 = lines_of(s.take(k + 1));
                    assert(l1 == l0.push(Seq::<char>::empty()));
                    lemma_kept_lines_same(l0, l1, l0.len() - 1);
                    lemma_kept_lines_step(l1, l0.len() - 1);
                    assert(l1[l0.len() - 1] == l0.last());
                    assert(r@ =~= before.union(kept_lines(l1, l1.len() - 1)));
                    assert(l1.last() =~= piece@);
                }
            } else {
                piece.push(chars[k]);
                proof {
                    let l1 = lines_of(s.take(k + 1));
                    assert(l1.last() =~= piece@);
                    lemma_kept_lines_same(l0, l1, l0.len() - 1);
                }
            }
            k = k + 1;
        }
        // The last line ends the item.
        let t = trim_exec(&piece);
        if t.len() > 0 && ascii_only(&t) {
            r.insert(string_from_chars(&t));
        }
        proof {
            assert(s.take(s.len() as int) =~= s);
            let ls = lines_of(s);
            lemma_kept_lines_step(ls, ls.len() - 1);
            let items = list@.take(i + 1);
            assert(items.drop_last() =~= list@.take(i as int));
            assert(items.last() == list@[i as int]);
            assert(r@ =~= split_lines_spec(items));
        }
        i = i + 1;
    }
    proof {
        assert(list@.take(list@.len() as int) =~= list@);
    }
    r
}

} // verus!
