use kiro_generator::commands::bootstrap::{build_analysis, overlap_allowed_tools, overlap_shell, AnalysisAgent};
use kiro_generator::commands::tree::file_locations;
use kiro_generator::config::generic::{split_newline, GenericVec};
use kiro_generator::generator::Generator;
use kiro_generator::map::StringMap;
use kiro_generator::merging_format::MergedSet;
use kiro_generator::set::StringSet;
use kiro_generator::source::{AgentSourceSlots, KgAgentSource, SourceSlot};
use kiro_generator::kg_config::manifest::Manifest;

fn set_of(items: &[&str]) -> StringSet {
    let mut s = StringSet::new();
    for i in items {
        s.insert(i.to_string());
    }
    s
}

fn agent(tools: &[&str], mcp: &[&str], shell: Option<&[&str]>, knowledge: &[&str]) -> AnalysisAgent {
    AnalysisAgent {
        source: String::from("local"),
        path: String::from("x.json"),
        allowed_tools: set_of(tools),
        other_tools: set_of(mcp),
        shell: shell.map(set_of),
        resources: StringSet::new(),
        knowledge: set_of(knowledge),
    }
}

#[test]
fn overlap_keeps_values_shared_by_two_agents() {
    let mut agents = StringMap::new();
    agents.insert(String::from("a"), agent(&["read", "write"], &["@git"], Some(&["ls"]), &[]));
    agents.insert(String::from("b"), agent(&["read"], &["@git", "@aws"], None, &["docs"]));
    agents.insert(String::from("c"), agent(&["read", "write"], &[], Some(&["ls", "rm"]), &[]));
    let tools = overlap_allowed_tools(&agents);
    assert_eq!(tools.len(), 2);
    assert_eq!(tools.get("read").unwrap().len(), 3);
    assert!(tools.get("write").unwrap().contains("c"));
    let shell = overlap_shell(&agents);
    assert_eq!(shell.keys(), vec![String::from("ls")]);

    let analysis = build_analysis(agents);
    assert_eq!(analysis.summary.total_agents, 3);
    assert_eq!(analysis.summary.total_mcp_servers, 2);
    assert_eq!(analysis.summary.agents_with_shell_settings, 2);
    assert_eq!(analysis.summary.agents_with_knowledge, 1);
    assert_eq!(analysis.overlap.mcp_servers.keys(), vec![String::from("@git")]);
    assert!(analysis.overlap.resources.is_empty());
}

#[test]
fn file_locations_lists_layers_per_agent() {
    let mut slots = AgentSourceSlots::default();
    slots.name = String::from("b");
    slots.merged = Manifest::new(String::from("b"), false);
    slots.local_manifest = SourceSlot {
        path: Some(KgAgentSource::LocalManifest(String::from("kg.toml"))),
        manifest: Manifest::default(),
    };
    let mut other = AgentSourceSlots::default();
    other.name = String::from("a");
    other.merged = Manifest::new(String::from("a"), false);
    let g = Generator::new(String::from("/g"), vec![slots, other]);
    let rows = file_locations(&g);
    assert_eq!(rows.len(), 2);
    assert_eq!(rows[0], vec!["a", "", "", "", ""]);
    assert_eq!(rows[1], vec!["b", "", "", "kg.toml", ""]);
}

#[test]
fn split_newline_trims_and_keeps_ascii_lines() {
    let items = vec![String::from("  git status \n\nls -la"), String::from("caf\u{e9}\n\u{a0}pwd")];
    let set = split_newline(&items);
    assert_eq!(set.as_vec(), &vec![String::from("git status"), String::from("ls -la"), String::from("pwd")]);
}

#[test]
fn generic_vec_pairs_up_items() {
    let v = GenericVec { item: vec![String::from("A"), String::from("1"), String::from("B"), String::from("2"), String::from("C")] };
    assert_eq!(v.len(), 5);
    let m = v.to_pairs();
    assert_eq!(m.len(), 2);
    assert_eq!(m.get("A"), Some(&String::from("1")));
    assert_eq!(m.get("B"), Some(&String::from("2")));
    assert_eq!(m.get("C"), None);
}

#[test]
fn merged_set_emptiness() {
    assert!(MergedSet::default().is_empty());
    assert!(!MergedSet(set_of(&["x"])).is_empty());
}
