//! Text search over configuration values.
use vstd::prelude::*;
use crate::text::{seq_contains, lowercase_of, str_contains, to_lowercase};

verus! {

/// Whether `hay` matches `needle`: it contains it, or, unless the search is
/// case sensitive, its lower-case form contains the needle's lower-case form.
pub open spec fn query_matches(needle: Seq<char>, case_sensitive: bool, hay: Seq<char>) -> bool {
    if case_sensitive {
        seq_contains(hay, needle)
    } else {
        seq_contains(lowercase_of(hay), lowercase_of(needle))
    }
}

/// A case-sensitive query matches exactly the texts that hold the needle at
/// some position; a case-insensitive one, those whose lower-case form holds
/// the needle's lower-case form. The empty needle matches every text.
pub proof fn lemma_query_matches(needle: Seq<char>, hay: Seq<char>)
    ensures
        query_matches(needle, true, hay) <==> exists|i: int| 0 <= i && i + needle.len() <= hay.len()
            && #[trigger] hay.subrange(i, i + needle.len()) == needle,
        query_matches(needle, false, hay) <==> exists|i: int| 0 <= i && i + lowercase_of(needle).len() <= lowercase_of(hay).len()
            && #[trigger] lowercase_of(hay).subrange(i, i + lowercase_of(needle).len()) == lowercase_of(needle),
        needle.len() == 0 ==> query_matches(needle, true, hay),
{
    let (ln, lh) = (lowercase_of(needle), lowercase_of(hay));
    if query_matches(needle, true, hay) {
        let i = choose|i: int| crate::text::occurs_at(hay, needle, i);
        assert(hay.subrange(i, i + needle.len()) == needle);
    }
    if exists|i: int| 0 <= i && i + needle.len() <= hay.len() && #[trigger] hay.subrange(i, i + needle.len()) == needle {
        let i = choose|i: int| 0 <= i && i + needle.len() <= hay.len() && #[trigger] hay.subrange(i, i + needle.len()) == needle;
        assert(crate::text::occurs_at(hay, needle, i));
    }
    if query_matches(needle, false, hay) {
        let i = choose|i: int| crate::text::occurs_at(lh, ln, i);
        assert(lh.subrange(i, i + ln.len()) == ln);
    }
    if exists|i: int| 0 <= i && i + ln.len() <= lh.len() && #[trigger] lh.subrange(i, i + ln.len()) == ln {
        let i = choose|i: int| 0 <= i && i + ln.len() <= lh.len() && #[trigger] lh.subrange(i, i + ln.len()) == ln;
        assert(crate::text::occurs_at(lh, ln, i));
    }
    if needle.len() == 0 {
        assert(hay.subrange(0, 0) =~= needle);
        assert(crate::text::occurs_at(hay, needle, 0));
    }
}

/// A substring query, case insensitive unless asked otherwise.
pub struct SearchQuery<'a> {
    needle: &'a str,
    case_sensitive: bool,
}

impl<'a> View for SearchQuery<'a> {
    /// The needle and whether the search is case sensitive.
    type V = (Seq<char>, bool);

    closed spec fn view(&self) -> (Seq<char>, bool) {
        (self.needle@, self.case_sensitive)
    }
}

impl<'a> SearchQuery<'a> {
    pub fn new(needle: &'a str, case_sensitive: bool) -> (r: Self)
        ensures
            r@ == (needle@, case_sensitive),
    {
        SearchQuery { needle, case_sensitive }
    }

    /// The same query, made case sensitive.
    pub fn case_sensitive(self) -> (r: Self)
        ensures
            r@ == (self@.0, true),
    {
        SearchQuery { needle: self.needle, case_sensitive: true }
    }

    /// Whether `haystack` matches the query.
    pub fn matches(&self, haystack: &str) -> (r: bool)
        ensures
            r == query_matches(self@.0, self@.1, haystack@),
    {
        if self.case_sensitive {
            str_contains(haystack, self.needle)
        } else {
            let h = to_lowercase(haystack);
            let n = to_lowercase(self.needle);
            str_contains(h.as_str(), n.as_str())
        }
    }
}

impl<'a> From<&'a str> for SearchQuery<'a> {
    fn from(needle: &'a str) -> (r: Self)
        ensures
            r@ == (needle@, false),
    {
        SearchQuery { needle, case_sensitive: false }
    }
}

impl<'a> vstd::std_specs::convert::FromSpecImpl<&'a str> for SearchQuery<'a> {
    open spec fn obeys_from_spec() -> bool {
        true
    }

    closed spec fn from_spec(needle: &'a str) -> Self {
        SearchQuery { needle, case_sensitive: false }
    }
}

/// A value that a query can be matched against.
pub trait Searchable {
    /// Whether the value matches a query (given by its view).
    spec fn searched(&self, query: (Seq<char>, bool)) -> bool;

    fn search(&self, query: &SearchQuery<'_>) -> (r: bool)
        ensures
            r == self.searched(query@),
    ;
}

} // verus!
