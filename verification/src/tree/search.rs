//! Finding the agents whose declarations mention a text.
use vstd::prelude::*;
use crate::generator::Generator;
use crate::kg_config::manifest::Manifest;
use crate::kg_config::search::{SearchQuery, Searchable, query_matches};
use crate::map::StringMap;
use crate::set::{StringSet, views, sorted_strict};
use crate::source::{AgentSourceSlots, SourceSlot, slot_display};
use crate::text::{concat, seq_starts_with, str_eq, str_starts_with};
use crate::tree::details::flag;

verus! {

/// The settings of one or more layers that matched, and where they are.
pub struct MatchFields {
    pub fields: Vec<String>,
    pub locations: Vec<String>,
}

/// One agent found by a search.
pub struct SearchHit {
    pub matches: MatchFields,
    pub description: String,
    pub inherits: StringSet,
}

/// What a search asked for and found, by agent name.
pub struct SearchReport {
    pub pattern: String,
    pub field: Option<String>,
    pub case_sensitive: bool,
    pub results: StringMap<SearchHit>,
}

/// The entries of `m` whose name or value matches the query, as
/// `<prefix>.<name>`, in ascending order of name.
pub open spec fn named_spec<T: Searchable>(prefix: Seq<char>, m: Map<Seq<char>, T>, keys: Seq<Seq<char>>, q: (Seq<char>, bool)) -> Seq<Seq<char>> {
    keys.filter(|k: Seq<char>| query_matches(q.0, q.1, k) || m[k].searched(q)).map_values(|k: Seq<char>| prefix + "."@ + k)
}

/// The settings of declaration `m` that match the query: resources, skills
/// and MCP servers by name or value, then the built-in tools.
#[verifier::opaque]
pub open spec fn matched_spec(m: Manifest, q: (Seq<char>, bool)) -> Seq<Seq<char>> {
    named_spec("resources"@, m.resources@, m.resources.ordered_keys(), q)
    + named_spec("skills"@, m.skills@, m.skills.ordered_keys(), q)
    + named_spec("mcpServers"@, m.mcp_servers@, m.mcp_servers.ordered_keys(), q)
    + flag(m.native_tools.shell.searched(q), "nativeTools.shell"@)
    + flag(m.native_tools.aws.searched(q), "nativeTools.aws"@)
    + flag(m.native_tools.read.searched(q), "nativeTools.read"@)
    + flag(m.native_tools.write.searched(q), "nativeTools.write"@)
    + flag(m.native_tools.glob.searched(q), "nativeTools.glob"@)
    + flag(m.native_tools.grep.searched(q), "nativeTools.grep"@)
    + flag(m.native_tools.web_fetch.searched(q), "nativeTools.web_fetch"@)
}

proof fn lemma_named_contains<T: Searchable>(prefix: Seq<char>, m: Map<Seq<char>, T>, keys: Seq<Seq<char>>,
    q: (Seq<char>, bool), k: Seq<char>)
    requires
        keys.contains(k),
        query_matches(q.0, q.1, k) || m[k].searched(q),
    ensures
        named_spec(prefix, m, keys, q).contains(prefix + "."@ + k),
{
    let pred = |x: Seq<char>| query_matches(q.0, q.1, x) || m[x].searched(q);
    let i = choose|i: int| 0 <= i < keys.len() && keys[i] == k;
    keys.lemma_filter_contains(pred, i);
    let fl = keys.filter(pred);
    let j = choose|j: int| 0 <= j < fl.len() && fl[j] == k;
    let out = fl.map_values(|x: Seq<char>| prefix + "."@ + x);
    assert(out[j] == prefix + "."@ + k);
}

/// Searching a declaration reports each resource, skill and MCP server
/// whose name or settings match the query, as `<kind>.<name>`: an MCP
/// server is found by its URL, command, arguments, environment, headers or
/// state as well as by its name.
pub proof fn lemma_search_finds_entries(m: Manifest, q: (Seq<char>, bool), k: Seq<char>)
    ensures
        m.mcp_servers@.contains_key(k) && (query_matches(q.0, q.1, k) || m.mcp_servers@[k].searched(q))
            ==> matched_spec(m, q).contains("mcpServers."@ + k),
        m.resources@.contains_key(k) && (query_matches(q.0, q.1, k) || m.resources@[k].searched(q))
            ==> matched_spec(m, q).contains("resources."@ + k),
        m.skills@.contains_key(k) && (query_matches(q.0, q.1, k) || m.skills@[k].searched(q))
            ==> matched_spec(m, q).contains("skills."@ + k),
{
    reveal(matched_spec);
    reveal_strlit("mcpServers");
    reveal_strlit("resources");
    reveal_strlit("skills");
    reveal_strlit(".");
    reveal_strlit("mcpServers.");
    reveal_strlit("resources.");
    reveal_strlit("skills.");
    m.mcp_servers.lemma_dom();
    m.resources.lemma_dom();
    m.skills.lemma_dom();
    assert("mcpServers"@ + "."@ =~= "mcpServers."@);
    assert("resources"@ + "."@ =~= "resources."@);
    assert("skills"@ + "."@ =~= "skills."@);
    let v = matched_spec(m, q);
    let r = named_spec("resources"@, m.resources@, m.resources.ordered_keys(), q);
    let sk = named_spec("skills"@, m.skills@, m.skills.ordered_keys(), q);
    let mc = named_spec("mcpServers"@, m.mcp_servers@, m.mcp_servers.ordered_keys(), q);
    let rest = v.skip((r.len() + sk.len() + mc.len()) as int);
    assert(v =~= r + sk + mc + rest);
    if m.mcp_servers@.contains_key(k) && (query_matches(q.0, q.1, k) || m.mcp_servers@[k].searched(q)) {
        assert(m.mcp_servers.ordered_keys().to_set().contains(k));
        lemma_named_contains("mcpServers"@, m.mcp_servers@, m.mcp_servers.ordered_keys(), q, k);
        let j = choose|j: int| 0 <= j < mc.len() && mc[j] == "mcpServers."@ + k;
        assert(v[r.len() + sk.len() + j] == mc[j]);
    }
    if m.resources@.contains_key(k) && (query_matches(q.0, q.1, k) || m.resources@[k].searched(q)) {
        assert(m.resources.ordered_keys().to_set().contains(k));
        lemma_named_contains("resources"@, m.resources@, m.resources.ordered_keys(), q, k);
        let j = choose|j: int| 0 <= j < r.len() && r[j] == "resources."@ + k;
        assert(v[j] == r[j]);
    }
    if m.skills@.contains_key(k) && (query_matches(q.0, q.1, k) || m.skills@[k].searched(q)) {
        assert(m.skills.ordered_keys().to_set().contains(k));
        lemma_named_contains("skills"@, m.skills@, m.skills.ordered_keys(), q, k);
        let j = choose|j: int| 0 <= j < sk.len() && sk[j] == "skills."@ + k;
        assert(v[r.len() + j] == sk[j]);
    }
}

/// An agent is found by a search without a field filter as soon as one of
/// its layers declares an MCP server whose name or settings match.
pub proof fn lemma_search_finds_agent(a: AgentSourceSlots, q: (Seq<char>, bool), slot: SourceSlot, k: Seq<char>)
    requires
        slot == a.global_manifest || slot == a.global_agent_file || slot == a.local_manifest || slot == a.local_agent_file,
        slot.manifest.mcp_servers@.contains_key(k),
        query_matches(q.0, q.1, k) || slot.manifest.mcp_servers@[k].searched(q),
    ensures
        agent_fields(a, None, q).len() > 0,
        agent_fields(a, None, q).contains("mcpServers."@ + k),
{
    lemma_search_finds_entries(slot.manifest, q, k);
    let v = matched_spec(slot.manifest, q);
    let i = choose|i: int| 0 <= i < v.len() && v[i] == "mcpServers."@ + k;
    let pred = |p: Seq<char>| None::<Seq<char>> is None || field_matches(p, None::<Seq<char>>->0);
    v.lemma_filter_contains(pred, i);
    let f = slot_fields(slot, None, q);
    assert(f.contains("mcpServers."@ + k));
    let g = slot_fields(a.global_manifest, None, q);
    let h = slot_fields(a.global_agent_file, None, q);
    let l = slot_fields(a.local_manifest, None, q);
    let t = slot_fields(a.local_agent_file, None, q);
    let all = agent_fields(a, None, q);
    assert(all == g + h + l + t);
    let j = choose|j: int| 0 <= j < f.len() && f[j] == "mcpServers."@ + k;
    if slot == a.global_manifest {
        assert(all[j] == f[j]);
    } else if slot == a.global_agent_file {
        assert(all[g.len() + j] == f[j]);
    } else if slot == a.local_manifest {
        assert(all[g.len() + h.len() + j] == f[j]);
    } else {
        assert(all[g.len() + h.len() + l.len() + j] == f[j]);
    }
}

/// `path` is the setting `filter` or one nested under it.
pub open spec fn field_matches(path: Seq<char>, filter: Seq<char>) -> bool {
    path == filter || (seq_starts_with(path, filter) && path.len() > filter.len() && path[filter.len() as int] == '.')
}

/// The matching settings of a layer that the field filter keeps.
pub open spec fn slot_fields(slot: SourceSlot, filter: Option<Seq<char>>, q: (Seq<char>, bool)) -> Seq<Seq<char>> {
    matched_spec(slot.manifest, q).filter(|p: Seq<char>| filter is None || field_matches(p, filter->0))
}

/// Where a layer matched, if it did.
pub open spec fn slot_locations(slot: SourceSlot, filter: Option<Seq<char>>, q: (Seq<char>, bool)) -> Seq<Seq<char>> {
    if slot_fields(slot, filter, q).len() > 0 {
        seq![slot_display(slot)]
    } else {
        Seq::empty()
    }
}

/// The matching settings of an agent's layers, lowest precedence first.
pub open spec fn agent_fields(a: AgentSourceSlots, filter: Option<Seq<char>>, q: (Seq<char>, bool)) -> Seq<Seq<char>> {
    slot_fields(a.global_manifest, filter, q) + slot_fields(a.global_agent_file, filter, q)
        + slot_fields(a.local_manifest, filter, q) + slot_fields(a.local_agent_file, filter, q)
}

/// Where an agent's layers matched.
pub open spec fn agent_locations(a: AgentSourceSlots, filter: Option<Seq<char>>, q: (Seq<char>, bool)) -> Seq<Seq<char>> {
    slot_locations(a.global_manifest, filter, q) + slot_locations(a.global_agent_file, filter, q)
        + slot_locations(a.local_manifest, filter, q) + slot_locations(a.local_agent_file, filter, q)
}

/// The entries of `items` whose name or value matches `query`.
pub fn named_matches<T: Searchable>(prefix: &str, items: &StringMap<T>, query: &SearchQuery<'_>) -> (r: Vec<String>)
    ensures
        views(r@) == named_spec(prefix@, items@, items.ordered_keys(), query@),
{
    let ghost q = query@;
    let ghost ks = items.ordered_keys();
    let ghost pred = |k: Seq<char>| query_matches(q.0, q.1, k) || items@[k].searched(q);
    let ghost f = |k: Seq<char>| prefix@ + "."@ + k;
    let n = items.len();
    let mut r: Vec<String> = Vec::new();
    let mut i: usize = 0;
    proof {
        reveal(Seq::filter);
        assert(ks.take(0) =~= Seq::<Seq<char>>::empty());
        assert(views(r@) =~= Seq::<Seq<char>>::empty());
    }
    while i < n
        invariant
            n == ks.len(),
            ks == items.ordered_keys(),
            q == query@,
            pred == (|k: Seq<char>| query_matches(q.0, q.1, k) || items@[k].searched(q)),
            f == (|k: Seq<char>| prefix@ + "."@ + k),
            i <= n,
            views(r@) == ks.take(i as int).filter(pred).map_values(f),
        decreases n - i,
    {
        let (name, value) = items.entry_at(i);
        proof {
            reveal(Seq::filter);
            assert(ks.take(i + 1).drop_last() =~= ks.take(i as int));
            assert(ks.take(i + 1).last() == name@);
        }
        if query.matches(name.as_str()) || value.search(query) {
            let ghost before = views(r@);
            let head = concat(prefix, ".");
            r.push(concat(head.as_str(), name.as_str()));
            proof {
                assert(views(r@) =~= before.push(f(name@)));
                assert(ks.take(i + 1).filter(pred) == ks.take(i as int).filter(pred).push(name@));
                assert(ks.take(i + 1).filter(pred).map_values(f) =~= ks.take(i as int).filter(pred).map_values(f).push(f(name@)));
            }
        }
        i = i + 1;
    }
    proof {
        assert(ks.take(n as int) =~= ks);
    }
    r
}

/// Whether `path` is the setting `filter` or one nested under it.
pub fn matches_field_filter(path: &str, filter: &str) -> (b: bool)
    ensures
        b == field_matches(path@, filter@),
{
    if str_eq(path, filter) {
        return true;
    }
    if !str_starts_with(path, filter) {
        return false;
    }
    let n = filter.unicode_len();
    n < path.unicode_len() && path.get_char(n) == '.'
}

fn push_tool(fields: &mut Vec<String>, b: bool, name: &str)
    ensures
        views(final(fields)@) == views(old(fields)@) + flag(b, name@),
{
    if b {
        fields.push(String::from_str(name));
        proof {
            assert(views(fields@) =~= views(old(fields)@) + flag(b, name@));
        }
    } else {
        assert(views(fields@) =~= views(old(fields)@) + flag(b, name@));
    }
}

fn append_all(out: &mut Vec<String>, more: Vec<String>)
    ensures
        views(final(out)@) == views(old(out)@) + views(more@),
{
    let ghost start = views(out@);
    let mut i: usize = 0;
    while i < more.len()
        invariant
            i <= more@.len(),
            views(out@) == start + views(more@).take(i as int),
        decreases more.len() - i,
    {
        let ghost cur = views(out@);
        out.push(more[i].clone());
        proof {
            assert(views(out@) =~= cur.push(more@[i as int]@));
            assert(views(more@).take(i + 1) =~= views(more@).take(i as int).push(more@[i as int]@));
        }
        i = i + 1;
    }
    proof {
        assert(views(more@).take(more@.len() as int) =~= views(more@));
    }
}

/// The settings of a layer that match the query, with where the layer is;
/// nothing when none matches.
pub fn matched_fields(slot: &SourceSlot, query: &SearchQuery<'_>) -> (r: Option<MatchFields>)
    ensures
        r is None <==> matched_spec(slot.manifest, query@).len() == 0,
        r is Some ==> views(r->0.fields@) == matched_spec(slot.manifest, query@),
        r is Some ==> views(r->0.locations@) == seq![slot_display(*slot)],
{
    let manifest = &slot.manifest;
    let mut fields: Vec<String> = Vec::new();
    let ghost q = query@;
    proof {
        reveal(matched_spec);
    }
    proof {
        assert(views(fields@) =~= Seq::<Seq<char>>::empty());
    }
    append_all(&mut fields, named_matches("resources", &manifest.resources, query));
    proof {
        assert(views(fields@) =~= named_spec("resources"@, manifest.resources@, manifest.resources.ordered_keys(), q));
    }
    append_all(&mut fields, named_matches("skills", &manifest.skills, query));
    append_all(&mut fields, named_matches("mcpServers", &manifest.mcp_servers, query));
    let t = &manifest.native_tools;
    push_tool(&mut fields, t.shell.search(query), "nativeTools.shell");
    push_tool(&mut fields, t.aws.search(query), "nativeTools.aws");
    push_tool(&mut fields, t.read.search(query), "nativeTools.read");
    push_tool(&mut fields, t.write.search(query), "nativeTools.write");
    push_tool(&mut fields, t.glob.search(query), "nativeTools.glob");
    push_tool(&mut fields, t.grep.search(query), "nativeTools.grep");
    push_tool(&mut fields, t.web_fetch.search(query), "nativeTools.web_fetch");
    if fields.len() == 0 {
        None
    } else {
        let mut locations: Vec<String> = Vec::new();
        locations.push(slot.to_string());
        proof {
            assert(views(locations@) =~= seq![slot_display(*slot)]);
        }
        Some(MatchFields { fields, locations })
    }
}

/// The settings of a layer that match the query and that the field filter
/// keeps, with where the layer is; nothing when none is left.
pub fn search_slot(slot: &SourceSlot, field_filter: Option<&str>, query: &SearchQuery<'_>) -> (r: Option<MatchFields>)
    ensures
        r is None <==> slot_fields(*slot, opt_view(field_filter), query@).len() == 0,
        r is Some ==> views(r->0.fields@) == slot_fields(*slot, opt_view(field_filter), query@),
        r is Some ==> views(r->0.locations@) == slot_locations(*slot, opt_view(field_filter), query@),
{
    let ghost filter = opt_view(field_filter);
    let ghost pred = |p: Seq<char>| filter is None || field_matches(p, filter->0);
    let m = match matched_fields(slot, query) {
        Some(m) => m,
        None => {
            proof {
                reveal(Seq::filter);
                assert(matched_spec(slot.manifest, query@) =~= Seq::<Seq<char>>::empty());
                assert(matched_spec(slot.manifest, query@).filter(pred) =~= Seq::<Seq<char>>::empty());
            }
            return None;
        },
    };
    let ghost all = views(m.fields@);
    let mut fields: Vec<String> = Vec::new();
    let mut i: usize = 0;
    proof {
        reveal(Seq::filter);
        assert(all.take(0) =~= Seq::<Seq<char>>::empty());
        assert(views(fields@) =~= Seq::<Seq<char>>::empty());
    }
    while i < m.fields.len()
        invariant
            all == views(m.fields@),
            filter == opt_view(field_filter),
            pred == (|p: Seq<char>| filter is None || field_matches(p, filter->0)),
            i <= m.fields@.len(),
            views(fields@) == all.take(i as int).filter(pred),
        decreases m.fields.len() - i,
    {
        let path = &m.fields[i];
        proof {
            reveal(Seq::filter);
            assert(all.take(i + 1).drop_last() =~= all.take(i as int));
            assert(all.take(i + 1).last() == path@);
        }
        let keep = match field_filter {
            None => true,
            Some(f) => matches_field_filter(path.as_str(), f),
        };
        if keep {
            let ghost before = views(fields@);
            fields.push(path.clone());
            proof {
                assert(views(fields@) =~= before.push(path@));
            }
        }
        i = i + 1;
    }
    proof {
        assert(all.take(all.len() as int) =~= all);
    }
    if fields.len() == 0 {
        None
    } else {
        let mut locations: Vec<String> = Vec::new();
        proof {
            assert(views(m.locations@).len() == 1);
        }
        locations.push(m.locations[0].clone());
        proof {
            assert(views(locations@) =~= seq![slot_display(*slot)]);
        }
        Some(MatchFields { fields, locations })
    }
}

/// The view of an optional string.
pub open spec fn opt_view(s: Option<&str>) -> Option<Seq<char>> {
    match s {
        Some(x) => Some(x@),
        None => None,
    }
}

/// `r` is the ascending, duplicate-free list of the elements of `s`.
pub open spec fn sorted_set_of(r: Seq<Seq<char>>, s: Seq<Seq<char>>) -> bool {
    sorted_strict(r) && r.to_set() == s.to_set()
}

/// `h` is the hit for agent `a`.
pub open spec fn hit_of(a: AgentSourceSlots, filter: Option<Seq<char>>, q: (Seq<char>, bool), h: SearchHit) -> bool {
    &&& sorted_set_of(views(h.matches.fields@), agent_fields(a, filter, q))
    &&& sorted_set_of(views(h.matches.locations@), agent_locations(a, filter, q))
    &&& h.description@ == (match a.merged.description {
        Some(d) => d@,
        None => Seq::<char>::empty(),
    })
    &&& h.inherits@ == a.merged.inherits@
}

fn sorted_unique(v: Vec<String>) -> (r: Vec<String>)
    ensures
        sorted_set_of(views(r@), views(v@)),
{
    let s = StringSet::from_vec(v);
    let r = s.as_vec().clone();
    r
}

fn add_slot(
    all_fields: &mut Vec<String>,
    all_locations: &mut Vec<String>,
    slot: &SourceSlot,
    field: Option<&str>,
    query: &SearchQuery<'_>,
)
    ensures
        views(final(all_fields)@) == views(old(all_fields)@) + slot_fields(*slot, opt_view(field), query@),
        views(final(all_locations)@) == views(old(all_locations)@) + slot_locations(*slot, opt_view(field), query@),
{
    match search_slot(slot, field, query) {
        Some(m) => {
            append_all(all_fields, m.fields);
            append_all(all_locations, m.locations);
        },
        None => {
            proof {
                let f = slot_fields(*slot, opt_view(field), query@);
                assert(f =~= Seq::<Seq<char>>::empty());
                assert(views(all_fields@) =~= views(all_fields@) + f);
                assert(views(all_locations@) =~= views(all_locations@) + slot_locations(*slot, opt_view(field), query@));
            }
        },
    }
}

fn search_agent(a: &AgentSourceSlots, field: Option<&str>, query: &SearchQuery<'_>) -> (r: Option<SearchHit>)
    ensures
        r is Some <==> agent_fields(*a, opt_view(field), query@).len() > 0,
        r is Some ==> hit_of(*a, opt_view(field), query@, r->0),
{
    let mut all_fields: Vec<String> = Vec::new();
    let mut all_locations: Vec<String> = Vec::new();
    proof {
        assert(views(all_fields@) =~= Seq::<Seq<char>>::empty());
        assert(views(all_locations@) =~= Seq::<Seq<char>>::empty());
    }
    let slots = a.source_slots();
    add_slot(&mut all_fields, &mut all_locations, slots[0], field, query);
    proof {
        assert(views(all_fields@) =~= slot_fields(a.global_manifest, opt_view(field), query@));
        assert(views(all_locations@) =~= slot_locations(a.global_manifest, opt_view(field), query@));
    }
    add_slot(&mut all_fields, &mut all_locations, slots[1], field, query);
    add_slot(&mut all_fields, &mut all_locations, slots[2], field, query);
    add_slot(&mut all_fields, &mut all_locations, slots[3], field, query);
    if all_fields.len() == 0 {
        return None;
    }
    let fields = sorted_unique(all_fields);
    let locations = sorted_unique(all_locations);
    let description = match &a.merged.description {
        Some(d) => d.clone(),
        None => String::new(),
    };
    Some(SearchHit {
        matches: MatchFields { fields, locations },
        description,
        inherits: a.merged.inherits.duplicate(),
    })
}

/// Searches every layer of every agent for `pattern` (case insensitive
/// unless asked otherwise), keeping only the settings under `field` when it
/// is given. An agent is found when a setting of one of its layers matches;
/// its hit lists the matching settings and the layers' files, each once and
/// in ascending order.
pub fn search(generator: &Generator, pattern: &str, field: Option<&str>, case_sensitive: bool) -> (r: SearchReport)
    ensures
        r.pattern@ == pattern@,
        opt_view_string(r.field) == opt_view(field),
        r.case_sensitive == case_sensitive,
        forall|k: Seq<char>| #[trigger] r.results@.contains_key(k) <==> generator.agents@.contains_key(k)
            && agent_fields(generator.agents@[k], opt_view(field), (pattern@, case_sensitive)).len() > 0,
        forall|k: Seq<char>| #[trigger] r.results@.contains_key(k) ==> hit_of(generator.agents@[k], opt_view(field),
            (pattern@, case_sensitive), r.results@[k]),
{
    let query: SearchQuery<'_> = SearchQuery::from(pattern);
    let query = if case_sensitive {
        query.case_sensitive()
    } else {
        query
    };
    let ghost q = query@;
    let mut results: StringMap<SearchHit> = StringMap::new();
    let n = generator.agents.len();
    proof {
        generator.agents.lemma_dom();
    }
    let mut i: usize = 0;
    while i < n
        invariant
            n == generator.agents.ordered_keys().len(),
            generator.agents.ordered_keys().to_set() == generator.agents@.dom(),
            q == query@,
            q == (pattern@, case_sensitive),
            i <= n,
            results@.dom() == generator.agents.ordered_keys().take(i as int).to_set().filter(
                |k: Seq<char>| found(generator.agents@, opt_view(field), q, k)),
            forall|k: Seq<char>| #[trigger] results@.contains_key(k) ==> hit_of(generator.agents@[k], opt_view(field), q,
                results@[k]),
        decreases n - i,
    {
        let (name, slots) = generator.agents.entry_at(i);
        let ghost ks = generator.agents.ordered_keys();
        proof {
            assert(ks.take(i + 1) =~= ks.take(i as int).push(name@));
        }
        match search_agent(slots, field, &query) {
            Some(hit) => {
                results.insert(name.clone(), hit);
            },
            None => {},
        }
        proof {
            ks.take(i as int).lemma_push_to_set_commute(name@);
            assert(results@.dom() =~= ks.take(i + 1).to_set().filter(
                |k: Seq<char>| found(generator.agents@, opt_view(field), q, k)));
        }
        i = i + 1;
    }
    proof {
        assert(generator.agents.ordered_keys().take(n as int) =~= generator.agents.ordered_keys());
        assert forall|k: Seq<char>| #[trigger] results@.contains_key(k) <==> generator.agents@.contains_key(k)
            && agent_fields(generator.agents@[k], opt_view(field), q).len() > 0 by {
            assert(results@.dom().contains(k) <==> generator.agents@.dom().contains(k) && found(generator.agents@, opt_view(field), q, k));
        }
    }
    let field_owned = match field {
        Some(f) => Some(String::from_str(f)),
        None => None,
    };
    SearchReport { pattern: String::from_str(pattern), field: field_owned, case_sensitive, results }
}

/// Agent `k` has a matching setting.
pub open spec fn found(agents: Map<Seq<char>, AgentSourceSlots>, filter: Option<Seq<char>>, q: (Seq<char>, bool), k: Seq<char>) -> bool {
    agent_fields(agents[k], filter, q).len() > 0
}

/// The view of an optional owned string.
pub open spec fn opt_view_string(s: Option<String>) -> Option<Seq<char>> {
    match s {
        Some(x) => Some(x@),
        None => None,
    }
}

} // verus!
