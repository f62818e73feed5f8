use kiro_generator::generator::Generator;
use kiro_generator::kg_config::manifest::Manifest;
use kiro_generator::kg_config::mcp::KgCustomToolConfig;
use kiro_generator::kg_config::resources::{KgFileResource, KgSkillResource};
use kiro_generator::set::StringSet;
use kiro_generator::source::{AgentSourceSlots, KgAgentSource, SourceSlot};
use kiro_generator::tree::dependents::dependencies;
use kiro_generator::tree::details::{details_in, manifest_fields};
use kiro_generator::tree::search::{matched_fields, matches_field_filter, search, MatchFields};
use kiro_generator::tree::summary::{summarize_concrete, summarize_templates};

fn set_of(items: &[&str]) -> StringSet {
    let mut s = StringSet::new();
    for i in items {
        s.insert(i.to_string());
    }
    s
}

fn local_slots(m: Manifest) -> AgentSourceSlots {
    let mut slots = AgentSourceSlots::default();
    slots.name = m.name.clone();
    slots.local_manifest = SourceSlot {
        path: Some(KgAgentSource::LocalManifest(String::from("test"))),
        manifest: m.clone(),
    };
    slots.merged = m;
    slots
}

/// A template `parent` with a shell rule and a skill, and a `child` of it.
fn fixture() -> Generator {
    let mut parent = Manifest::new(String::from("parent"), true);
    parent.description = Some(String::from("the parent"));
    parent.native_tools.shell.allows.insert(String::from("git push"));
    parent.skills.insert(String::from("taker"), KgSkillResource {
        locations: set_of(&["job-taker-skill"]),
        ..Default::default()
    });
    let mut child = Manifest::new(String::from("child"), false);
    child.inherits.insert(String::from("parent"));
    child.native_tools.shell.denies.insert(String::from("git push --force"));
    Generator::new(String::from("/g"), vec![local_slots(parent), local_slots(child)])
}

#[test]
fn summary_display_debug() {
    let generator = fixture();
    let agents = summarize_concrete(&generator);
    assert_eq!(1, agents.len());
    let agent = agents.get("child");
    assert!(agent.is_some());
    let agent = agent.unwrap();

    let dis = agent.to_string();
    assert!(dis.contains("description="));
    assert_eq!(1, agent.inherits.len());
    assert_eq!("parent", agent.inherits_join());
    assert_eq!(agent.locations, vec![String::from("local-manifest:test")]);
    let templates = summarize_templates(&generator);
    assert_eq!(templates.get("parent").unwrap().description, "the parent");
    assert_eq!(templates.get("parent").unwrap().to_string(), "description=the parent inherits=0");
}

#[test]
fn child_appears_as_dependent_of_parent() {
    let generator = fixture();
    let result = dependencies(&generator);
    assert!(result.get("parent").unwrap().contains("child"));
    assert!(!result.contains_key("child"), "child has no dependents");
}

#[test]
fn details_returns_child_with_resolved_chain() {
    let generator = fixture();
    let result = details_in(&generator, &["child".into()], Some(String::from("/home/u")));
    let child = result.get("child").expect("child should exist");
    assert!(!child.template);
    assert!(child.resolved_chain.contains("parent"));
    assert_eq!(child.inherits.as_vec(), &vec![String::from("parent")]);
    assert!(!child.sources.is_empty());
    assert_eq!(child.output, ".kiro/agents/child.json");
    assert_eq!(child.sources[0].source_type, "local-manifest");
    assert!(child.sources[0].modified_fields.contains("inherits"));
    assert!(child.sources[0].modified_fields.contains("nativeTools.shell"));
}

#[test]
fn details_skips_unknown_agent() {
    let generator = fixture();
    let result = details_in(&generator, &["nonexistent".into()], None);
    assert!(result.is_empty());
}

#[test]
fn details_template_has_empty_output() {
    let generator = fixture();
    let result = details_in(&generator, &["parent".into()], None);
    let parent = result.get("parent").expect("parent should exist");
    assert!(parent.template);
    assert!(parent.output.is_empty());
}

#[test]
fn manifest_fields_lists_settings_in_order() {
    let mut m = Manifest::new(String::from("x"), true);
    m.description = Some(String::from("d"));
    m.resources.insert(String::from("docs"), KgFileResource::default());
    m.tool_aliases.insert(String::from("a"), String::from("b"));
    m.native_tools.grep.denies.insert(String::from("secret"));
    m.subagents.allow.insert(String::from("helper"));
    assert_eq!(
        manifest_fields(&m),
        vec![
            String::from("template"),
            String::from("description"),
            String::from("resources.docs"),
            String::from("toolAliases.a"),
            String::from("nativeTools.grep"),
            String::from("subagents"),
        ]
    );
}

#[test]
fn search_honors_field_filter() {
    let generator = fixture();
    let result = search(&generator, "git push", Some("nativeTools.shell"), false);

    assert_eq!(result.results.len(), 2);
    let filtered = search(&generator, "git push", Some("resources"), false);
    assert!(filtered.results.is_empty());
}

#[test]
fn search_is_case_insensitive_by_default() {
    let generator = fixture();
    let result = search(&generator, "GIT PUSH", Some("nativeTools.shell"), false);
    assert_eq!(result.results.len(), 2);

    let case_sensitive = search(&generator, "GIT PUSH", Some("nativeTools.shell"), true);
    assert!(case_sensitive.results.is_empty());
}

#[test]
fn search_dedupes_fields_across_source_slots() {
    let mut parent = Manifest::new(String::from("parent"), true);
    parent.skills.insert(String::from("taker"), KgSkillResource {
        locations: set_of(&["job-taker-skill"]),
        ..Default::default()
    });
    let mut slots = local_slots(parent.clone());
    slots.global_manifest = SourceSlot {
        path: Some(KgAgentSource::GlobalManifest(String::from("/tmp/parent.toml"))),
        manifest: parent,
    };
    let generator = Generator::new(String::from("/g"), vec![slots]);

    let result = search(&generator, "job-taker-skill", None, false);
    let parent_hit = result.results.get("parent").expect("parent should match");

    assert_eq!(parent_hit.matches.fields, vec![String::from("skills.taker")]);
    assert_eq!(parent_hit.matches.locations, vec![
        String::from("global-manifest:///tmp/parent.toml"),
        String::from("local-manifest://test")
    ]);
}

#[test]
fn matched_fields_returns_multiple_hits() {
    let mut manifest = Manifest::default();
    manifest.skills.insert(String::from("default"), KgSkillResource {
        locations: set_of(&["default-skill.md"]),
        ..Default::default()
    });
    manifest.resources.insert(String::from("docs"), KgFileResource {
        locations: set_of(&["default.md"]),
        ..Default::default()
    });
    manifest.mcp_servers.insert(String::from("default"), KgCustomToolConfig {
        command: String::from("default-mcp"),
        ..Default::default()
    });

    let slot = SourceSlot {
        path: Some(KgAgentSource::LocalManifest(String::from("test"))),
        manifest,
    };

    let matches = matched_fields(&slot, &"default".into()).expect("matches");
    let expected = MatchFields {
        fields: vec![
            String::from("resources.docs"),
            String::from("skills.default"),
            String::from("mcpServers.default"),
        ],
        locations: vec![String::from("local-manifest://test")],
    };
    assert_eq!(matches.fields, expected.fields);
    assert_eq!(matches.locations, expected.locations);
}

#[test]
fn field_filter_matches_nested_settings_only() {
    assert!(matches_field_filter("nativeTools.shell", "nativeTools"));
    assert!(matches_field_filter("nativeTools.shell", "nativeTools.shell"));
    assert!(!matches_field_filter("nativeToolsX", "nativeTools"));
    assert!(!matches_field_filter("native", "nativeTools"));
}

#[test]
fn manifest_fields_names_each_setting_once() {
    assert!(manifest_fields(&Manifest::default()).is_empty());
    let mut m = Manifest::new(String::from("x"), true);
    m.description = Some(String::from("d"));
    m.mcp_servers.insert(String::from("git"), KgCustomToolConfig::default());
    m.native_tools.shell.allows.insert(String::from("ls"));
    let fields = manifest_fields(&m);
    assert!(fields.contains(&String::from("template")));
    assert!(fields.contains(&String::from("description")));
    assert!(fields.contains(&String::from("mcpServers.git")));
    assert!(fields.contains(&String::from("nativeTools.shell")));
    let mut sorted = fields.clone();
    sorted.sort();
    sorted.dedup();
    assert_eq!(sorted.len(), fields.len());
}

#[test]
fn summaries_carry_the_merged_description() {
    let mut m = Manifest::new(String::from("a"), false);
    m.description = Some(String::from("hello"));
    let mut slots = AgentSourceSlots::default();
    slots.name = String::from("a");
    slots.local_manifest = SourceSlot { path: Some(KgAgentSource::LocalManifest(String::from("kg.toml"))), manifest: m.clone() };
    slots.merged = m;
    let g = Generator::new(String::from("/g"), vec![slots]);
    let s = summarize_concrete(&g);
    assert_eq!(s.get("a").unwrap().description, "hello");
    assert!(summarize_templates(&g).is_empty());
}
