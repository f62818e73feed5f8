//! Combining the layers that declare an agent.
//!
//! Precedence, highest first:
//! 1. `.kiro/generators/agents/<name>.toml`      (local agent file)
//! 2. `.kiro/generators/manifests/*.toml`         (local manifest)
//! 3. `~/.kiro/generators/agents/<name>.toml`     (global agent file)
//! 4. `~/.kiro/generators/manifests/*.toml`       (global manifest)
use vstd::prelude::*;
use crate::generator::config_location::ConfigLocation;
use crate::kg_config::manifest::{Manifest, ManifestView, manifest_merged, manifest_is_empty};
use crate::source::{SourceSlot, AgentSourceSlots, KgAgentSource};
use crate::map::StringMap;
use crate::text::concat;
use crate::set::{StringSet, views, sorted_strict};
use crate::kiro::hook::prefer;

verus! {

/// The declaration of a layer that exists, as a one-element sequence.
pub open spec fn present(s: SourceSlot) -> Seq<ManifestView> {
    if s.path is Some {
        seq![s.manifest@]
    } else {
        Seq::empty()
    }
}

/// The declarations of the layers that exist and that `location` uses,
/// highest precedence first.
pub open spec fn layers(
    location: ConfigLocation,
    global_manifest: SourceSlot,
    local_manifest: SourceSlot,
    global_agent_file: SourceSlot,
    local_agent_file: SourceSlot,
) -> Seq<ManifestView> {
    match location {
        ConfigLocation::Global(_) => present(global_agent_file) + present(global_manifest),
        ConfigLocation::Local => present(local_agent_file) + present(local_manifest),
        ConfigLocation::Both(_) => present(local_agent_file) + present(local_manifest) + present(global_agent_file)
            + present(global_manifest),
    }
}

/// `first` merged with each of `rest` in turn: every merge keeps what is
/// already set and fills the rest from the next layer.
pub open spec fn fold_merge(first: ManifestView, rest: Seq<ManifestView>) -> ManifestView
    decreases rest.len(),
{
    if rest.len() == 0 {
        first
    } else {
        manifest_merged(fold_merge(first, rest.drop_last()), rest.last())
    }
}

/// The merge of non-empty `layers`, named `name` where it has no name.
pub open spec fn merged_layers(name: String, layers: Seq<ManifestView>) -> ManifestView {
    let m = fold_merge(layers[0], layers.skip(1));
    if m.name@.len() == 0 {
        ManifestView { name: name, ..m }
    } else {
        m
    }
}

/// `r` is the declaration of agent `name` made from the layers `ls`: empty
/// but for the name where there are none, else their merge in order,
/// named `name` where the merge has no name.
pub open spec fn declaration_of(name: Seq<char>, ls: Seq<ManifestView>, r: Manifest) -> bool {
    if ls.len() == 0 {
        &&& r.name@ == name
        &&& !r.template
        &&& manifest_is_empty(r@)
    } else {
        &&& r@ == merged_layers(r.name, ls)
        &&& r.name@ == (if fold_merge(ls[0], ls.skip(1)).name@.len() == 0 { name } else { fold_merge(ls[0], ls.skip(1)).name@ })
    }
}

/// One agent's declaration from its layers: the layers `location` uses are
/// merged in order of precedence. Where no layer exists, the declaration is
/// empty and carries only the name.
#[verifier::rlimit(90)]
#[verifier::spinoff_prover]
pub fn merge_manifests(
    name: &str,
    global_manifest: &SourceSlot,
    local_manifest: &SourceSlot,
    global_agent_file: &SourceSlot,
    local_agent_file: &SourceSlot,
    location: &ConfigLocation,
) -> (r: Manifest)
    ensures
        declaration_of(name@, layers(*location, *global_manifest, *local_manifest, *global_agent_file, *local_agent_file), r),
{
    let ghost ls = layers(*location, *global_manifest, *local_manifest, *global_agent_file, *local_agent_file);
    let mut ordered: Vec<&Manifest> = Vec::new();
    match location {
        ConfigLocation::Global(_) => {
            if global_agent_file.path.is_some() {
                ordered.push(&global_agent_file.manifest);
            }
            if global_manifest.path.is_some() {
                ordered.push(&global_manifest.manifest);
            }
        },
        ConfigLocation::Local => {
            if local_agent_file.path.is_some() {
                ordered.push(&local_agent_file.manifest);
            }
            if local_manifest.path.is_some() {
                ordered.push(&local_manifest.manifest);
            }
        },
        ConfigLocation::Both(_) => {
            if local_agent_file.path.is_some() {
                ordered.push(&local_agent_file.manifest);
            }
            if local_manifest.path.is_some() {
                ordered.push(&local_manifest.manifest);
            }
            if global_agent_file.path.is_some() {
                ordered.push(&global_agent_file.manifest);
            }
            if global_manifest.path.is_some() {
                ordered.push(&global_manifest.manifest);
            }
        },
    }
    proof {
        assert(ordered@.map_values(|m: &Manifest| m@) =~= ls);
    }
    if ordered.len() == 0 {
        let mut m = Manifest::default();
        m.name = String::from_str(name);
        return m;
    }
    let mut merged = ordered[0].clone();
    let mut i: usize = 1;
    proof {
        assert(ls.skip(1).take(0) =~= Seq::<ManifestView>::empty());
    }
    while i < ordered.len()
        invariant
            1 <= i <= ordered.len(),
            ordered@.map_values(|m: &Manifest| m@) == ls,
            merged@ == fold_merge(ls[0], ls.skip(1).take(i - 1)),
        decreases ordered.len() - i,
    {
        let next = ordered[i].clone();
        proof {
            assert(ls.skip(1).take(i as int).drop_last() =~= ls.skip(1).take(i - 1));
            assert(ls.skip(1).take(i as int).last() == ls[i as int]);
            assert(ls[i as int] == ordered@[i as int]@);
        }
        merged = merged.merge(next);
        i = i + 1;
    }
    proof {
        assert(ls.skip(1).take(ls.len() - 1) =~= ls.skip(1));
    }
    if merged.name.as_str().unicode_len() == 0 {
        merged.name = String::from_str(name);
    }
    merged
}

/// Slot `s` holds the declaration `m` that the manifest file `path` makes
/// under the name `k`, named `k`.
pub open spec fn slot_from(path: String, local: bool, k: Seq<char>, m: Manifest, s: SourceSlot) -> bool {
    &&& s.path == Some(if local { KgAgentSource::LocalManifest(path) } else { KgAgentSource::GlobalManifest(path) })
    &&& s.manifest.name@ == k
    &&& s.manifest@ == ManifestView { name: s.manifest.name, ..m@ }
}

/// No agent name is declared by two of the manifest files.
pub open spec fn names_disjoint(files: Seq<(String, StringMap<Manifest>)>) -> bool {
    forall|i: int, j: int, k: Seq<char>|
        0 <= i < j < files.len() && #[trigger] files[i].1@.contains_key(k) ==> !#[trigger] files[j].1@.contains_key(k)
}

/// The error for agent `name` declared again in `path`, first in `previous`.
pub open spec fn duplicate_message(name: Seq<char>, path: Seq<char>, previous: Seq<char>) -> Seq<char> {
    "Duplicate agent '"@ + name + "' found in manifests file "@ + path + " ("@ + previous + ")"@
}

/// The agents of the manifest files of one directory, each file given by
/// its path and the agents it declares by name, in order of path. Each agent
/// is named after its key and remembers its file. An agent declared by two
/// files is an error.
pub fn collect_manifests(files: &Vec<(String, StringMap<Manifest>)>, is_local: bool) -> (r: Result<
    StringMap<SourceSlot>,
    String,
>)
    ensures
        r is Ok <==> names_disjoint(files@),
        r is Ok ==> forall|f: int, k: Seq<char>| 0 <= f < files@.len() && #[trigger] files@[f].1@.contains_key(k)
            ==> r->Ok_0@.contains_key(k) && slot_from(files@[f].0, is_local, k, files@[f].1@[k], r->Ok_0@[k]),
        r is Ok ==> forall|k: Seq<char>| #[trigger] r->Ok_0@.contains_key(k)
            ==> exists|f: int| 0 <= f < files@.len() && #[trigger] files@[f].1@.contains_key(k),
        r is Err ==> exists|i: int, j: int, k: Seq<char>| 0 <= i < j < files@.len()
            && #[trigger] files@[i].1@.contains_key(k) && #[trigger] files@[j].1@.contains_key(k)
            && r->Err_0@ == duplicate_message(k, files@[j].0@, files@[i].0@),
{
    let mut merged: StringMap<SourceSlot> = StringMap::new();
    let mut i: usize = 0;
    while i < files.len()
        invariant
            i <= files.len(),
            names_disjoint(files@.take(i as int)),
            forall|f: int, k: Seq<char>| 0 <= f < i && #[trigger] files@[f].1@.contains_key(k)
                ==> merged@.contains_key(k) && slot_from(files@[f].0, is_local, k, files@[f].1@[k], merged@[k]),
            forall|k: Seq<char>| #[trigger] merged@.contains_key(k)
                ==> exists|f: int| 0 <= f < i && #[trigger] files@[f].1@.contains_key(k),
        decreases files.len() - i,
    {
        let path = &files[i].0;
        let agents = &files[i].1;
        let n = agents.len();
        proof {
            agents.lemma_dom();
        }
        let mut j: usize = 0;
        while j < n
            invariant
                n == agents.ordered_keys().len(),
                agents.ordered_keys().to_set() == agents@.dom(),
                *agents == files@[i as int].1,
                *path == files@[i as int].0,
                i < files.len(),
                j <= n,
                forall|q: int| 0 <= q < j ==> !merged@.contains_key(#[trigger] agents.ordered_keys()[q]),
                forall|f: int, k: Seq<char>| 0 <= f < i && #[trigger] files@[f].1@.contains_key(k)
                    ==> merged@.contains_key(k) && slot_from(files@[f].0, is_local, k, files@[f].1@[k], merged@[k]),
                forall|k: Seq<char>| #[trigger] merged@.contains_key(k)
                    ==> exists|f: int| 0 <= f < i && #[trigger] files@[f].1@.contains_key(k),
            decreases n - j,
        {
            let (name, _m) = agents.entry_at(j);
            match merged.get(name.as_str()) {
                Some(prev) => {
                    let ghost f = choose|f: int| 0 <= f < i && #[trigger] files@[f].1@.contains_key(name@);
                    proof {
                        assert(slot_from(files@[f].0, is_local, name@, files@[f].1@[name@], merged@[name@]));
                    }
                    let previous = match &prev.path {
                        Some(p) => p.path().clone(),
                        None => String::new(),
                    };
                    let mut msg = concat("Duplicate agent '", name.as_str());
                    msg.append("' found in manifests file ");
                    msg.append(path.as_str());
                    msg.append(" (");
                    msg.append(previous.as_str());
                    msg.append(")");
                    proof {
                        assert(files@[i as int].1@.contains_key(name@));
                        assert(!names_disjoint(files@)) by {
                            assert(files@[f].1@.contains_key(name@) && files@[i as int].1@.contains_key(name@));
                        }
                    }
                    return Err(msg);
                },
                None => {},
            }
            j = j + 1;
        }
        proof {
            assert forall|f: int, k: Seq<char>| 0 <= f < i && #[trigger] files@[f].1@.contains_key(k)
                implies !files@[i as int].1@.contains_key(k) by {
                if files@[i as int].1@.contains_key(k) {
                    assert(agents.ordered_keys().to_set().contains(k));
                    let q = choose|q: int| 0 <= q < n && agents.ordered_keys()[q] == k;
                    assert(!merged@.contains_key(agents.ordered_keys()[q]));
                }
            }
        }
        let ghost before = merged@;
        let mut j: usize = 0;
        while j < n
            invariant
                n == agents.ordered_keys().len(),
                agents.ordered_keys().to_set() == agents@.dom(),
                *agents == files@[i as int].1,
                *path == files@[i as int].0,
                j <= n,
                forall|k: Seq<char>| #[trigger] merged@.contains_key(k) ==>
                    before.contains_key(k) || agents.ordered_keys().take(j as int).contains(k),
                forall|k: Seq<char>| #[trigger] before.contains_key(k) ==> merged@.contains_key(k) && merged@[k] == before[k],
                forall|q: int| 0 <= q < j ==> {
                    let k = #[trigger] agents.ordered_keys()[q];
                    merged@.contains_key(k) && slot_from(*path, is_local, k, agents@[k], merged@[k])
                },
                forall|k: Seq<char>| #[trigger] before.contains_key(k) ==> !agents@.contains_key(k),
            decreases n - j,
        {
            let (name, m) = agents.entry_at(j);
            let mut declared = m.clone();
            declared.name = name.clone();
            let slot = SourceSlot { path: Some(KgAgentSource::manifest(path.clone(), is_local)), manifest: declared };
            proof {
                assert(declared@ =~= ManifestView { name: declared.name, ..m@ });
                assert(!before.contains_key(name@));
                let ks = agents.ordered_keys();
                assert(ks.take(j + 1) =~= ks.take(j as int).push(ks[j as int]));
            }
            merged.insert(name.clone(), slot);
            proof {
                let ks = agents.ordered_keys();
                assert forall|k: Seq<char>| #[trigger] merged@.contains_key(k) implies
                    before.contains_key(k) || ks.take(j + 1).contains(k) by {
                    if k == name@ {
                        assert(ks.take(j + 1)[j as int] == k);
                    } else if !before.contains_key(k) {
                        let q = choose|q: int| 0 <= q < ks.take(j as int).len() && ks.take(j as int)[q] == k;
                        assert(ks.take(j + 1)[q] == k);
                    }
                }
            }
            j = j + 1;
        }
        proof {
            let ks = agents.ordered_keys();
            assert(ks.take(n as int) =~= ks);
            assert forall|f: int, k: Seq<char>| 0 <= f < i + 1 && #[trigger] files@[f].1@.contains_key(k)
                implies merged@.contains_key(k) && slot_from(files@[f].0, is_local, k, files@[f].1@[k], merged@[k]) by {
                if f == i {
                    assert(ks.to_set().contains(k));
                    let q = choose|q: int| 0 <= q < n && ks[q] == k;
                    assert(merged@.contains_key(ks[q]));
                } else {
                    assert(before.contains_key(k));
                }
            }
            assert forall|k: Seq<char>| #[trigger] merged@.contains_key(k)
                implies exists|f: int| 0 <= f < i + 1 && #[trigger] files@[f].1@.contains_key(k) by {
                if !before.contains_key(k) {
                    assert(ks.take(n as int).contains(k));
                    assert(ks.to_set().contains(k));
                    assert(files@[i as int].1@.contains_key(k));
                } else {
                    let f = choose|f: int| 0 <= f < i && #[trigger] files@[f].1@.contains_key(k);
                    assert(files@[f].1@.contains_key(k));
                }
            }
            assert forall|a: int, b: int, k: Seq<char>|
                0 <= a < b < files@.take(i + 1).len() && #[trigger] files@.take(i + 1)[a].1@.contains_key(k)
                implies !#[trigger] files@.take(i + 1)[b].1@.contains_key(k) by {
                if b < i {
                    assert(files@.take(i as int)[a] == files@[a]);
                    assert(files@.take(i as int)[b] == files@[b]);
                }
            }
        }
        i = i + 1;
    }
    proof {
        assert(files@.take(files@.len() as int) =~= files@);
    }
    Ok(merged)
}

/// The names that either directory declares, in ascending order.
pub fn all_agent_names(global: &StringMap<SourceSlot>, local: &StringMap<SourceSlot>) -> (r: Vec<String>)
    ensures
        sorted_strict(views(r@)),
        views(r@).to_set() == global@.dom().union(local@.dom()),
{
    let mut names = StringSet::from_vec(global.keys());
    names.extend(StringSet::from_vec(local.keys()));
    proof {
        global.lemma_dom();
        local.lemma_dom();
    }
    names.as_vec().clone()
}

/// A layer that is absent, or whose declaration is named `name`.
pub open spec fn named_as(s: SourceSlot, name: Seq<char>) -> bool {
    s.path is Some ==> s.manifest.name@ == name
}

proof fn lemma_fold_keeps_name(first: ManifestView, rest: Seq<ManifestView>)
    ensures
        fold_merge(first, rest).name == first.name,
    decreases rest.len(),
{
    if rest.len() > 0 {
        lemma_fold_keeps_name(first, rest.drop_last());
    }
}

/// The four layers of agent `name` and their merge; where each layer that
/// exists is named `name` (as discovery names them), so is the merge.
pub fn assemble_slots(
    name: String,
    global_manifest: SourceSlot,
    local_manifest: SourceSlot,
    global_agent_file: SourceSlot,
    local_agent_file: SourceSlot,
    location: &ConfigLocation,
) -> (r: AgentSourceSlots)
    ensures
        r.name == name,
        r.global_manifest == global_manifest,
        r.local_manifest == local_manifest,
        r.global_agent_file == global_agent_file,
        r.local_agent_file == local_agent_file,
        declaration_of(name@, layers(*location, global_manifest, local_manifest, global_agent_file, local_agent_file), r.merged),
        named_as(global_manifest, name@) && named_as(local_manifest, name@) && named_as(global_agent_file, name@)
            && named_as(local_agent_file, name@) ==> r.merged.name@ == name@,
{
    let merged = merge_manifests(
        name.as_str(),
        &global_manifest,
        &local_manifest,
        &global_agent_file,
        &local_agent_file,
        location,
    );
    proof {
        let ls = layers(*location, global_manifest, local_manifest, global_agent_file, local_agent_file);
        if named_as(global_manifest, name@) && named_as(local_manifest, name@) && named_as(global_agent_file, name@)
            && named_as(local_agent_file, name@) && ls.len() > 0 {
            lemma_fold_keeps_name(ls[0], ls.skip(1));
            assert(ls[0].name@ == name@);
        }
    }
    AgentSourceSlots { name, global_manifest, local_manifest, global_agent_file, local_agent_file, merged }
}

/// The value of the first entry that sets one.
pub open spec fn first_set<T>(s: Seq<Option<T>>) -> Option<T>
    decreases s.len(),
{
    if s.len() == 0 {
        None
    } else if s[0] is Some {
        s[0]
    } else {
        first_set(s.skip(1))
    }
}

proof fn lemma_first_set_push<T>(s: Seq<Option<T>>, x: Option<T>)
    ensures
        first_set(s.push(x)) == prefer(first_set(s), x),
    decreases s.len(),
{
    let t = s.push(x);
    assert(t[0] == (if s.len() == 0 { x } else { s[0] }));
    if s.len() == 0 {
        assert(t.skip(1) =~= Seq::<Option<T>>::empty());
        assert(first_set(t.skip(1)) == None::<T>);
    } else if s[0] is None {
        assert(t.skip(1) =~= s.skip(1).push(x));
        lemma_first_set_push(s.skip(1), x);
    }
}

proof fn lemma_fold_field(first: ManifestView, rest: Seq<ManifestView>, field: spec_fn(ManifestView) -> Option<String>)
    requires
        forall|c: ManifestView, p: ManifestView| #[trigger] field(manifest_merged(c, p)) == prefer(field(c), field(p)),
    ensures
        field(fold_merge(first, rest)) == first_set((seq![first] + rest).map_values(field)),
    decreases rest.len(),
{
    if rest.len() == 0 {
        let all = (seq![first] + rest).map_values(field);
        assert(all =~= seq![field(first)]);
        lemma_first_set_push(Seq::<Option<String>>::empty(), field(first));
        assert(Seq::<Option<String>>::empty().push(field(first)) =~= all);
        assert(first_set(Seq::<Option<String>>::empty()) == None::<String>);
    } else {
        lemma_fold_field(first, rest.drop_last(), field);
        let pre = (seq![first] + rest.drop_last()).map_values(field);
        lemma_first_set_push(pre, field(rest.last()));
        assert(pre.push(field(rest.last())) =~= (seq![first] + rest).map_values(field));
        assert(field(fold_merge(first, rest)) == prefer(field(fold_merge(first, rest.drop_last())), field(rest.last())));
    }
}

/// Precedence of layers: each optional setting of an agent's declaration
/// (description, prompt, model, keyboard shortcut, welcome message, legacy
/// MCP flag) is that of the highest-precedence layer that sets it.
pub proof fn lemma_layer_precedence(ls: Seq<ManifestView>)
    requires
        ls.len() > 0,
    ensures
        fold_merge(ls[0], ls.skip(1)).description == first_set(ls.map_values(|m: ManifestView| m.description)),
        fold_merge(ls[0], ls.skip(1)).prompt == first_set(ls.map_values(|m: ManifestView| m.prompt)),
        fold_merge(ls[0], ls.skip(1)).model == first_set(ls.map_values(|m: ManifestView| m.model)),
        fold_merge(ls[0], ls.skip(1)).keyboard_shortcut == first_set(ls.map_values(|m: ManifestView| m.keyboard_shortcut)),
        fold_merge(ls[0], ls.skip(1)).welcome_message == first_set(ls.map_values(|m: ManifestView| m.welcome_message)),
        fold_merge(ls[0], ls.skip(1)).include_mcp_json == first_set(ls.map_values(|m: ManifestView| m.include_mcp_json)),
{
    assert(seq![ls[0]] + ls.skip(1) =~= ls);
    lemma_fold_field(ls[0], ls.skip(1), |m: ManifestView| m.description);
    lemma_fold_field(ls[0], ls.skip(1), |m: ManifestView| m.prompt);
    lemma_fold_field(ls[0], ls.skip(1), |m: ManifestView| m.model);
    lemma_fold_field(ls[0], ls.skip(1), |m: ManifestView| m.keyboard_shortcut);
    lemma_fold_field(ls[0], ls.skip(1), |m: ManifestView| m.welcome_message);
    lemma_fold_flag(ls[0], ls.skip(1));
}

proof fn lemma_fold_flag(first: ManifestView, rest: Seq<ManifestView>)
    ensures
        fold_merge(first, rest).include_mcp_json
            == first_set((seq![first] + rest).map_values(|m: ManifestView| m.include_mcp_json)),
    decreases rest.len(),
{
    let f = |m: ManifestView| m.include_mcp_json;
    if rest.len() == 0 {
        let all = (seq![first] + rest).map_values(f);
        assert(all =~= seq![f(first)]);
        lemma_first_set_push(Seq::<Option<bool>>::empty(), f(first));
        assert(Seq::<Option<bool>>::empty().push(f(first)) =~= all);
        assert(first_set(Seq::<Option<bool>>::empty()) == None::<bool>);
    } else {
        lemma_fold_flag(first, rest.drop_last());
        let pre = (seq![first] + rest.drop_last()).map_values(f);
        lemma_first_set_push(pre, f(rest.last()));
        assert(pre.push(f(rest.last())) =~= (seq![first] + rest).map_values(f));
    }
}


/// What a layer sets of one setting `f`: nothing when the layer is absent.
pub open spec fn given<T>(s: SourceSlot, f: spec_fn(ManifestView) -> Option<T>) -> Option<T> {
    if s.path is Some {
        f(s.manifest@)
    } else {
        None
    }
}

/// The first of `a`, `b`, `c`, `d` that is set.
pub open spec fn first_of4<T>(a: Option<T>, b: Option<T>, c: Option<T>, d: Option<T>) -> Option<T> {
    if a is Some {
        a
    } else if b is Some {
        b
    } else if c is Some {
        c
    } else {
        d
    }
}

/// What setting `f` of an agent's declaration is, by precedence: for both
/// places, the local agent file, then the local manifest, then the global
/// agent file, then the global manifest; for one place, its agent file,
/// then its manifest. The first of these that exists and sets it decides.
pub open spec fn by_precedence<T>(
    location: ConfigLocation,
    global_manifest: SourceSlot,
    local_manifest: SourceSlot,
    global_agent_file: SourceSlot,
    local_agent_file: SourceSlot,
    f: spec_fn(ManifestView) -> Option<T>,
) -> Option<T> {
    match location {
        ConfigLocation::Both(_) => first_of4(
            given(local_agent_file, f),
            given(local_manifest, f),
            given(global_agent_file, f),
            given(global_manifest, f),
        ),
        ConfigLocation::Local => first_of4(given(local_agent_file, f), given(local_manifest, f), None, None),
        ConfigLocation::Global(_) => first_of4(given(global_agent_file, f), given(global_manifest, f), None, None),
    }
}

pub(crate) proof fn lemma_first_set_concat<T>(a: Seq<Option<T>>, b: Seq<Option<T>>)
    ensures
        first_set(a + b) == (if first_set(a) is Some { first_set(a) } else { first_set(b) }),
    decreases a.len(),
{
    if a.len() > 0 {
        assert((a + b).skip(1) =~= a.skip(1) + b);
        assert((a + b)[0] == a[0]);
        lemma_first_set_concat(a.skip(1), b);
    } else {
        assert(a + b =~= b);
    }
}

proof fn lemma_first_set_present<T>(s: SourceSlot, f: spec_fn(ManifestView) -> Option<T>)
    ensures
        first_set(present(s).map_values(f)) == given(s, f),
{
    if s.path is Some {
        let m = present(s).map_values(f);
        assert(m =~= seq![f(s.manifest@)]);
        assert(m.skip(1) =~= Seq::<Option<T>>::empty());
        assert(first_set(m.skip(1)) == None::<T>);
    } else {
        assert(present(s).map_values(f) =~= Seq::<Option<T>>::empty());
    }
}

proof fn lemma_layers_first<T>(
    location: ConfigLocation,
    gm: SourceSlot,
    lm: SourceSlot,
    gaf: SourceSlot,
    laf: SourceSlot,
    f: spec_fn(ManifestView) -> Option<T>,
)
    ensures
        first_set(layers(location, gm, lm, gaf, laf).map_values(f)) == by_precedence(location, gm, lm, gaf, laf, f),
{
    lemma_first_set_present(gm, f);
    lemma_first_set_present(lm, f);
    lemma_first_set_present(gaf, f);
    lemma_first_set_present(laf, f);
    let (a, b, c, d) = (present(laf).map_values(f), present(lm).map_values(f), present(gaf).map_values(f), present(gm).map_values(f));
    match location {
        ConfigLocation::Both(_) => {
            assert(layers(location, gm, lm, gaf, laf).map_values(f) =~= a + b + c + d);
            lemma_first_set_concat(a + b + c, d);
            lemma_first_set_concat(a + b, c);
            lemma_first_set_concat(a, b);
        },
        ConfigLocation::Local => {
            assert(layers(location, gm, lm, gaf, laf).map_values(f) =~= a + b);
            lemma_first_set_concat(a, b);
        },
        ConfigLocation::Global(_) => {
            assert(layers(location, gm, lm, gaf, laf).map_values(f) =~= c + d);
            lemma_first_set_concat(c, d);
        },
    }
}

/// Precedence of the layers of an agent: each optional setting of the
/// declaration made from them (description, prompt, model, keyboard
/// shortcut, welcome message, legacy MCP flag) is the one the
/// highest-precedence existing layer sets: for both places, the local agent
/// file, then the local manifest, then the global agent file, then the
/// global manifest. A lower layer fills only what every higher one leaves
/// unset.
pub proof fn lemma_declaration_precedence(
    name: Seq<char>,
    location: ConfigLocation,
    gm: SourceSlot,
    lm: SourceSlot,
    gaf: SourceSlot,
    laf: SourceSlot,
    r: Manifest,
)
    requires
        declaration_of(name, layers(location, gm, lm, gaf, laf), r),
    ensures
        r.description == by_precedence(location, gm, lm, gaf, laf, |m: ManifestView| m.description),
        r.prompt == by_precedence(location, gm, lm, gaf, laf, |m: ManifestView| m.prompt),
        r.model == by_precedence(location, gm, lm, gaf, laf, |m: ManifestView| m.model),
        r.keyboard_shortcut == by_precedence(location, gm, lm, gaf, laf, |m: ManifestView| m.keyboard_shortcut),
        r.welcome_message == by_precedence(location, gm, lm, gaf, laf, |m: ManifestView| m.welcome_message),
        r.include_mcp_json == by_precedence(location, gm, lm, gaf, laf, |m: ManifestView| m.include_mcp_json),
{
    let ls = layers(location, gm, lm, gaf, laf);
    lemma_layers_first(location, gm, lm, gaf, laf, |m: ManifestView| m.description);
    lemma_layers_first(location, gm, lm, gaf, laf, |m: ManifestView| m.prompt);
    lemma_layers_first(location, gm, lm, gaf, laf, |m: ManifestView| m.model);
    lemma_layers_first(location, gm, lm, gaf, laf, |m: ManifestView| m.keyboard_shortcut);
    lemma_layers_first(location, gm, lm, gaf, laf, |m: ManifestView| m.welcome_message);
    lemma_layers_first(location, gm, lm, gaf, laf, |m: ManifestView| m.include_mcp_json);
    if ls.len() > 0 {
        lemma_layer_precedence(ls);
    } else {
        assert(ls.map_values(|m: ManifestView| m.description) =~= Seq::<Option<String>>::empty());
        assert(ls.map_values(|m: ManifestView| m.prompt) =~= Seq::<Option<String>>::empty());
        assert(ls.map_values(|m: ManifestView| m.model) =~= Seq::<Option<String>>::empty());
        assert(ls.map_values(|m: ManifestView| m.keyboard_shortcut) =~= Seq::<Option<String>>::empty());
        assert(ls.map_values(|m: ManifestView| m.welcome_message) =~= Seq::<Option<String>>::empty());
        assert(ls.map_values(|m: ManifestView| m.include_mcp_json) =~= Seq::<Option<bool>>::empty());
    }
}

} // verus!
