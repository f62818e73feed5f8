//! File and skill resources: sets of locations an agent loads.
use vstd::prelude::*;
use crate::kiro::hook::prefer;
use crate::set::{StringSet, views};
use crate::merge::Merge;
use crate::text::{concat, join, join_seq};
use crate::kg_config::search::{SearchQuery, Searchable, query_matches};

verus! {

/// The contents of a resource declaration.
pub struct LocationResourceView {
    pub disabled: Option<bool>,
    pub optional: Option<bool>,
    pub locations: Set<Seq<char>>,
}

/// The location set grows by the parent's; unset flags come from the parent.
pub open spec fn resource_merged(c: LocationResourceView, p: LocationResourceView) -> LocationResourceView {
    LocationResourceView {
        disabled: prefer(c.disabled, p.disabled),
        optional: prefer(c.optional, p.optional),
        locations: c.locations.union(p.locations),
    }
}

/// A merged resource keeps each flag the child sets (the parent's fills
/// only what it leaves unset) and holds the locations of either side.
pub proof fn lemma_resource_child_wins(c: LocationResourceView, p: LocationResourceView)
    ensures
        c.disabled is Some ==> resource_merged(c, p).disabled == c.disabled,
        c.disabled is None ==> resource_merged(c, p).disabled == p.disabled,
        c.optional is Some ==> resource_merged(c, p).optional == c.optional,
        c.optional is None ==> resource_merged(c, p).optional == p.optional,
        forall|l: Seq<char>| resource_merged(c, p).locations.contains(l) <==> (c.locations.contains(l) || p.locations.contains(l)),
{
}

/// `scheme://location` for each location, in ascending order, joined by commas.
pub open spec fn display_locations(scheme: Seq<char>, ordered: Seq<Seq<char>>) -> Seq<char> {
    join_seq(ordered.map_values(|l: Seq<char>| scheme + "://"@ + l), ","@)
}

/// Whether some location matches a query.
pub open spec fn locations_match(locations: Set<Seq<char>>, q: (Seq<char>, bool)) -> bool {
    exists|l: Seq<char>| #[trigger] locations.contains(l) && query_matches(q.0, q.1, l)
}

fn display_with_scheme(locations: &StringSet, scheme: &str) -> (r: String)
    ensures
        r@ == display_locations(scheme@, locations.ordered()),
{
    let items = locations.as_vec();
    let mut parts: Vec<String> = Vec::new();
    let mut i: usize = 0;
    while i < items.len()
        invariant
            i <= items.len(),
            views(items@) == locations.ordered(),
            parts@.len() == i,
            forall|j: int| 0 <= j < i ==> #[trigger] parts@[j]@ == scheme@ + "://"@ + items@[j]@,
        decreases items.len() - i,
    {
        let prefix = concat(scheme, "://");
        let part = concat(prefix.as_str(), items[i].as_str());
        parts.push(part);
        i = i + 1;
    }
    let r = join(&parts, ",");
    proof {
        assert(views(parts@) =~= locations.ordered().map_values(|l: Seq<char>| scheme@ + "://"@ + l));
    }
    r
}

fn search_locations(locations: &StringSet, query: &SearchQuery<'_>) -> (r: bool)
    ensures
        r == locations_match(locations@, query@),
{
    let items = locations.as_vec();
    let mut i: usize = 0;
    while i < items.len()
        invariant
            i <= items.len(),
            views(items@) == locations.ordered(),
            locations.ordered().to_set() == locations@,
            forall|j: int| 0 <= j < i ==> !query_matches(query@.0, query@.1, #[trigger] items@[j]@),
        decreases items.len() - i,
    {
        if query.matches(items[i].as_str()) {
            assert(locations.ordered()[i as int] == items@[i as int]@);
            assert(locations@.contains(items@[i as int]@));
            return true;
        }
        i = i + 1;
    }
    proof {
        if locations_match(locations@, query@) {
            let l = choose|l: Seq<char>| #[trigger] locations@.contains(l) && query_matches(query@.0, query@.1, l);
            let j = choose|j: int| 0 <= j < locations.ordered().len() && locations.ordered()[j] == l;
            assert(items@[j]@ == l);
        }
    }
    false
}

/// Files to load into the agent's context.
#[derive(Clone, Debug, PartialEq, Eq)]
pub struct KgFileResource {
    pub disabled: Option<bool>,
    pub optional: Option<bool>,
    pub locations: StringSet,
}

impl View for KgFileResource {
    type V = LocationResourceView;

    open spec fn view(&self) -> LocationResourceView {
        LocationResourceView { disabled: self.disabled, optional: self.optional, locations: self.locations@ }
    }
}

impl KgFileResource {
    /// Merges this (child) resource with the parent's `other`.
    pub fn merge(self, other: Self) -> (r: Self)
        ensures
            r@ == resource_merged(self@, other@),
    {
        let mut s = self;
        s.locations.extend(other.locations);
        if s.disabled.is_none() {
            s.disabled = other.disabled;
        }
        if s.optional.is_none() {
            s.optional = other.optional;
        }
        s
    }

    /// `file://location` for each location, joined by commas (the display form).
    pub fn to_string(&self) -> (r: String)
        ensures
            r@ == display_locations("file"@, self.locations.ordered()),
    {
        display_with_scheme(&self.locations, "file")
    }
}

impl Default for KgFileResource {
    fn default() -> (r: Self)
        ensures
            r@.disabled is None,
            r@.optional is None,
            r@.locations == Set::<Seq<char>>::empty(),
    {
        KgFileResource { disabled: None, optional: None, locations: StringSet::new() }
    }
}

impl Searchable for KgFileResource {
    /// Matches a location.
    open spec fn searched(&self, q: (Seq<char>, bool)) -> bool {
        locations_match(self.locations@, q)
    }

    fn search(&self, query: &SearchQuery<'_>) -> (r: bool) {
        search_locations(&self.locations, query)
    }
}

/// A file resource matches a query exactly when one of its locations does.
pub proof fn lemma_file_resource_search(r: KgFileResource, q: (Seq<char>, bool))
    ensures
        r.searched(q) <==> exists|l: Seq<char>| #[trigger] r.locations@.contains(l) && query_matches(q.0, q.1, l),
{
}

impl Merge for KgFileResource {
    type Model = LocationResourceView;

    open spec fn model(&self) -> LocationResourceView {
        self@
    }

    open spec fn merge_model(child: LocationResourceView, parent: LocationResourceView) -> LocationResourceView {
        resource_merged(child, parent)
    }

    fn merge_parent(self, parent: Self) -> (r: Self) {
        self.merge(parent)
    }

    fn copy(&self) -> (r: Self) {
        KgFileResource { disabled: self.disabled, optional: self.optional, locations: self.locations.duplicate() }
    }
}

/// Skills to load into the agent.
#[derive(Clone, Debug, PartialEq, Eq)]
pub struct KgSkillResource {
    pub disabled: Option<bool>,
    pub optional: Option<bool>,
    pub locations: StringSet,
}

impl View for KgSkillResource {
    type V = LocationResourceView;

    open spec fn view(&self) -> LocationResourceView {
        LocationResourceView { disabled: self.disabled, optional: self.optional, locations: self.locations@ }
    }
}

impl KgSkillResource {
    /// Merges this (child) resource with the parent's `other`.
    pub fn merge(self, other: Self) -> (r: Self)
        ensures
            r@ == resource_merged(self@, other@),
    {
        let mut s = self;
        s.locations.extend(other.locations);
        if s.disabled.is_none() {
            s.disabled = other.disabled;
        }
        if s.optional.is_none() {
            s.optional = other.optional;
        }
        s
    }

    /// `skill://location` for each location, joined by commas (the display form).
    pub fn to_string(&self) -> (r: String)
        ensures
            r@ == display_locations("skill"@, self.locations.ordered()),
    {
        display_with_scheme(&self.locations, "skill")
    }
}

impl Default for KgSkillResource {
    fn default() -> (r: Self)
        ensures
            r@.disabled is None,
            r@.optional is None,
            r@.locations == Set::<Seq<char>>::empty(),
    {
        KgSkillResource { disabled: None, optional: None, locations: StringSet::new() }
    }
}

impl Searchable for KgSkillResource {
    /// Matches a location.
    open spec fn searched(&self, q: (Seq<char>, bool)) -> bool {
        locations_match(self.locations@, q)
    }

    fn search(&self, query: &SearchQuery<'_>) -> (r: bool) {
        search_locations(&self.locations, query)
    }
}

/// A skill resource matches a query exactly when one of its locations does.
pub proof fn lemma_skill_resource_search(r: KgSkillResource, q: (Seq<char>, bool))
    ensures
        r.searched(q) <==> exists|l: Seq<char>| #[trigger] r.locations@.contains(l) && query_matches(q.0, q.1, l),
{
}

impl Merge for KgSkillResource {
    type Model = LocationResourceView;

    open spec fn model(&self) -> LocationResourceView {
        self@
    }

    open spec fn merge_model(child: LocationResourceView, parent: LocationResourceView) -> LocationResourceView {
        resource_merged(child, parent)
    }

    fn merge_parent(self, parent: Self) -> (r: Self) {
        self.merge(parent)
    }

    fn copy(&self) -> (r: Self) {
        KgSkillResource { disabled: self.disabled, optional: self.optional, locations: self.locations.duplicate() }
    }
}

} // verus!
