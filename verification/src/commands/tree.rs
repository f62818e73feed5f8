//! What the tree command shows as text rows.
use vstd::prelude::*;
use crate::generator::{Generator, agents_in_order};
use crate::set::views;
use crate::source::{AgentSourceSlots, SourceSlot};

verus! {

/// The path of a layer's file, or the empty string.
pub open spec fn location_text(s: SourceSlot) -> Seq<char> {
    match s.path {
        Some(p) => p.path_spec()@,
        None => Seq::empty(),
    }
}

/// An agent's row: its name and the files of its four layers (global
/// manifest, global agent file, local manifest, local agent file), empty
/// where a layer does not exist.
pub open spec fn location_row(a: AgentSourceSlots) -> Seq<Seq<char>> {
    seq![a.name@, location_text(a.global_manifest), location_text(a.global_agent_file),
        location_text(a.local_manifest), location_text(a.local_agent_file)]
}

fn location_of(s: &SourceSlot) -> (r: String)
    ensures
        r@ == location_text(*s),
{
    match s.location() {
        Some(p) => p.clone(),
        None => String::new(),
    }
}

/// One row per agent, in order of name: the agent's name and its layers'
/// files.
pub fn file_locations(generator: &Generator) -> (r: Vec<Vec<String>>)
    ensures
        r@.len() == agents_in_order(*generator).len(),
        forall|i: int| 0 <= i < r@.len() ==> views(#[trigger] r@[i]@) == location_row(agents_in_order(*generator)[i]),
{
    let n = generator.agents.len();
    let mut rows: Vec<Vec<String>> = Vec::new();
    let mut i: usize = 0;
    while i < n
        invariant
            n == generator.agents.ordered_keys().len(),
            i <= n,
            rows@.len() == i,
            forall|k: int| 0 <= k < i ==> views(#[trigger] rows@[k]@) == location_row(agents_in_order(*generator)[k]),
        decreases n - i,
    {
        let (_name, a) = generator.agents.entry_at(i);
        let mut row: Vec<String> = Vec::new();
        row.push(a.name.clone());
        row.push(location_of(&a.global_manifest));
        row.push(location_of(&a.global_agent_file));
        row.push(location_of(&a.local_manifest));
        row.push(location_of(&a.local_agent_file));
        proof {
            assert(agents_in_order(*generator)[i as int] == *a);
            assert(views(row@) =~= location_row(*a));
        }
        rows.push(row);
        i = i + 1;
    }
    rows
}

} // verus!
