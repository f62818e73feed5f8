//! A short summary of each agent.
use vstd::prelude::*;
use crate::generator::{Generator, agents_in_order};
use crate::map::StringMap;
use crate::set::{StringSet, views};
use crate::source::{AgentSourceSlots, KgAgentSource, present_sources};
use crate::text::{concat, decimal, decimal_string, join, join_seq};

verus! {

/// An agent's name, description, parents and the files declaring it.
pub struct SummaryEntry {
    pub name: String,
    pub description: String,
    pub inherits: StringSet,
    pub locations: Vec<String>,
}

/// The display forms of sources.
pub open spec fn source_strings(s: Seq<KgAgentSource>) -> Seq<Seq<char>> {
    s.map_values(|x: KgAgentSource| x.source_type_spec() + ":"@ + x.path_spec()@)
}

/// A description as the summary shows it: empty when unset.
pub open spec fn description_text(d: Option<String>) -> Seq<char> {
    match d {
        Some(t) => t@,
        None => Seq::empty(),
    }
}

impl SummaryEntry {
    /// The agents it inherits from, in ascending order, separated by commas.
    pub fn inherits_join(&self) -> (r: String)
        ensures
            r@ == join_seq(self.inherits.ordered(), ","@),
    {
        let items = self.inherits.as_vec();
        let r = join(items.as_slice(), ",");
        proof {
            assert(items@.map_values(|x: String| x@) =~= views(items@));
        }
        r
    }

    /// `description=<description> inherits=<count>` (the display form).
    pub fn to_string(&self) -> (r: String)
        ensures
            r@ == "description="@ + self.description@ + " inherits="@ + decimal(self.inherits@.len()),
    {
        let mut r = concat("description=", self.description.as_str());
        r.append(" inherits=");
        let n = self.inherits.len();
        r.append(decimal_string(n).as_str());
        r
    }

    /// The summary of a discovered agent: its name, its merged description
    /// (empty when unset), its parents, and its sources as
    /// `<kind>:<path>`.
    pub fn from_slots(slots: &AgentSourceSlots) -> (r: Self)
        ensures
            r.name == slots.name,
            r.description@ == description_text(slots.merged.description),
            r.inherits@ == slots.merged.inherits@,
            views(r.locations@) == source_strings(present_sources(slots)),
    {
        let description = match &slots.merged.description {
            Some(d) => d.clone(),
            None => String::new(),
        };
        let sources = slots.sources();
        let mut locations: Vec<String> = Vec::new();
        let mut i: usize = 0;
        while i < sources.len()
            invariant
                i <= sources.len(),
                views(locations@) == source_strings(sources@).take(i as int),
            decreases sources.len() - i,
        {
            let ghost before = locations@;
            let t = sources[i].to_string();
            locations.push(t);
            proof {
                let ss = source_strings(sources@);
                assert(ss[i as int] == t@);
                assert(views(locations@) =~= views(before).push(t@));
                assert(ss.take(i + 1) =~= ss.take(i as int).push(ss[i as int]));
                assert(views(locations@) =~= source_strings(sources@).take(i + 1));
            }
            i = i + 1;
        }
        proof {
            assert(source_strings(sources@).take(sources.len() as int) =~= source_strings(sources@));
        }
        SummaryEntry {
            name: slots.name.clone(),
            description,
            inherits: slots.merged.inherits.duplicate(),
            locations,
        }
    }
}

impl<'a> From<&'a AgentSourceSlots> for SummaryEntry {
    fn from(slots: &'a AgentSourceSlots) -> (r: Self)
        ensures
            r.name == slots.name,
            r.description@ == description_text(slots.merged.description),
            r.inherits@ == slots.merged.inherits@,
            views(r.locations@) == source_strings(present_sources(slots)),
    {
        SummaryEntry::from_slots(slots)
    }
}

impl<'a> vstd::std_specs::convert::FromSpecImpl<&'a AgentSourceSlots> for SummaryEntry {
    /// The conversion is stated on `from` itself, over the views.
    open spec fn obeys_from_spec() -> bool {
        false
    }

    open spec fn from_spec(slots: &'a AgentSourceSlots) -> Self {
        arbitrary()
    }
}

/// The summaries of the agents and of the templates, by name.
pub struct SummaryReport {
    pub agents: StringMap<SummaryEntry>,
    pub templates: StringMap<SummaryEntry>,
}

/// The names of the agents with the given template flag.
pub open spec fn names_where(g: Generator, template: bool) -> Set<Seq<char>> {
    g.agents@.dom().filter(|k: Seq<char>| g.agents@[k].merged.template == template)
}

fn summarize_where(generator: &Generator, template: bool) -> (r: StringMap<SummaryEntry>)
    ensures
        r@.dom() == names_where(*generator, template),
        forall|k: Seq<char>| #[trigger] r@.contains_key(k) ==> r@[k].name@ == k
            && r@[k].description@ == description_text(generator.agents@[k].merged.description)
            && r@[k].inherits@ == generator.agents@[k].merged.inherits@
            && views(r@[k].locations@) == source_strings(present_sources(&generator.agents@[k])),
{
    let mut r: StringMap<SummaryEntry> = StringMap::new();
    let n = generator.agents.len();
    proof {
        generator.agents.lemma_dom();
    }
    let mut i: usize = 0;
    while i < n
        invariant
            n == generator.agents.ordered_keys().len(),
            generator.agents.ordered_keys().to_set() == generator.agents@.dom(),
            i <= n,
            r@.dom() == generator.agents.ordered_keys().take(i as int).to_set().filter(
                |k: Seq<char>| generator.agents@[k].merged.template == template),
            forall|k: Seq<char>| #[trigger] r@.contains_key(k) ==> r@[k].name@ == k
                && r@[k].description@ == description_text(generator.agents@[k].merged.description)
                && r@[k].inherits@ == generator.agents@[k].merged.inherits@
                && views(r@[k].locations@) == source_strings(present_sources(&generator.agents@[k])),
        decreases n - i,
    {
        let (k, a) = generator.agents.entry_at(i);
        let ghost ks = generator.agents.ordered_keys();
        proof {
            assert(ks.take(i + 1) =~= ks.take(i as int).push(ks[i as int]));
            ks.take(i as int).lemma_push_to_set_commute(ks[i as int]);
        }
        if a.merged.template == template {
            let entry = SummaryEntry::from_slots(a);
            proof {
                assert(a.name == generator.agents@[k@].name);
            }
            r.insert(k.clone(), SummaryEntry { name: k.clone(), ..entry });
        }
        proof {
            assert(r@.dom() =~= ks.take(i + 1).to_set().filter(
                |k: Seq<char>| generator.agents@[k].merged.template == template));
        }
        i = i + 1;
    }
    proof {
        assert(generator.agents.ordered_keys().take(n as int) =~= generator.agents.ordered_keys());
        assert(r@.dom() =~= names_where(*generator, template));
    }
    r
}

/// The summaries of the agents that are not templates, by name.
pub fn summarize_concrete(generator: &Generator) -> (r: StringMap<SummaryEntry>)
    ensures
        r@.dom() == names_where(*generator, false),
        forall|k: Seq<char>| #[trigger] r@.contains_key(k) ==> r@[k].name@ == k
            && r@[k].description@ == description_text(generator.agents@[k].merged.description)
            && r@[k].inherits@ == generator.agents@[k].merged.inherits@
            && views(r@[k].locations@) == source_strings(present_sources(&generator.agents@[k])),
{
    summarize_where(generator, false)
}

/// The summaries of the templates, by name.
pub fn summarize_templates(generator: &Generator) -> (r: StringMap<SummaryEntry>)
    ensures
        r@.dom() == names_where(*generator, true),
        forall|k: Seq<char>| #[trigger] r@.contains_key(k) ==> r@[k].name@ == k
            && r@[k].description@ == description_text(generator.agents@[k].merged.description)
            && r@[k].inherits@ == generator.agents@[k].merged.inherits@
            && views(r@[k].locations@) == source_strings(present_sources(&generator.agents@[k])),
{
    summarize_where(generator, true)
}

} // verus!
