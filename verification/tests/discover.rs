use kiro_generator::generator::config_location::ConfigLocation;
use kiro_generator::generator::discover::{all_agent_names, assemble_slots, collect_manifests, merge_manifests};
use kiro_generator::kg_config::manifest::Manifest;
use kiro_generator::map::StringMap;
use kiro_generator::source::{KgAgentSource, SourceSlot};

fn slot(path: KgAgentSource, description: &str) -> SourceSlot {
    let mut m = Manifest::new(String::from("agent"), false);
    m.description = Some(String::from(description));
    m.tools.insert(String::from(description));
    SourceSlot { path: Some(path), manifest: m }
}

#[test]
fn local_agent_file_takes_precedence_over_everything() {
    let gm = slot(KgAgentSource::GlobalManifest(String::from("g.toml")), "global manifest");
    let lm = slot(KgAgentSource::LocalManifest(String::from("l.toml")), "local manifest");
    let ga = slot(KgAgentSource::GlobalFile(String::from("ga.toml")), "global file");
    let la = slot(KgAgentSource::LocalFile(String::from("la.toml")), "local file");
    let both = ConfigLocation::Both(String::from("/g"));
    let m = merge_manifests("agent", &gm, &lm, &ga, &la, &both);
    assert_eq!(m.description, Some(String::from("local file")));
    assert_eq!(m.tools.len(), 4);

    let only_global = ConfigLocation::Global(String::from("/g"));
    let m = merge_manifests("agent", &gm, &lm, &ga, &la, &only_global);
    assert_eq!(m.description, Some(String::from("global file")));
    assert_eq!(m.tools.len(), 2);

    let m = merge_manifests("agent", &gm, &lm, &SourceSlot::default(), &SourceSlot::default(), &both);
    assert_eq!(m.description, Some(String::from("local manifest")));
}

#[test]
fn no_layer_gives_an_empty_named_declaration() {
    let none = SourceSlot::default();
    let m = merge_manifests("lonely", &none, &none, &none, &none, &ConfigLocation::Local);
    assert_eq!(m.name, "lonely");
    assert!(m.description.is_none());
    assert!(!m.template);
}

#[test]
fn unnamed_merge_takes_the_agent_name() {
    let mut s = slot(KgAgentSource::LocalManifest(String::from("l.toml")), "d");
    s.manifest.name = String::new();
    let none = SourceSlot::default();
    let m = merge_manifests("named", &none, &s, &none, &none, &ConfigLocation::Local);
    assert_eq!(m.name, "named");
}

fn agents(names: &[&str]) -> StringMap<Manifest> {
    let mut m = StringMap::new();
    for n in names {
        let mut d = Manifest::default();
        d.description = Some(n.to_string());
        m.insert(n.to_string(), d);
    }
    m
}

#[test]
fn collect_manifests_names_agents_and_rejects_duplicates() {
    let files = vec![
        (String::from("a.toml"), agents(&["one", "two"])),
        (String::from("b.toml"), agents(&["three"])),
    ];
    let slots = collect_manifests(&files, true).unwrap();
    assert_eq!(slots.len(), 3);
    let two = slots.get("two").unwrap();
    assert_eq!(two.manifest.name, "two");
    assert_eq!(two.path, Some(KgAgentSource::LocalManifest(String::from("a.toml"))));
    let three = slots.get("three").unwrap();
    assert_eq!(three.path, Some(KgAgentSource::LocalManifest(String::from("b.toml"))));

    let dup = vec![
        (String::from("a.toml"), agents(&["one"])),
        (String::from("b.toml"), agents(&["one"])),
    ];
    assert_eq!(
        collect_manifests(&dup, false).unwrap_err(),
        "Duplicate agent 'one' found in manifests file b.toml (a.toml)"
    );
}

#[test]
fn assemble_names_and_merges_layers() {
    let mut global = StringMap::new();
    global.insert(String::from("b"), SourceSlot::default());
    let mut local = StringMap::new();
    local.insert(String::from("a"), SourceSlot::default());
    local.insert(String::from("b"), SourceSlot::default());
    assert_eq!(all_agent_names(&global, &local), vec![String::from("a"), String::from("b")]);

    let lm = slot(KgAgentSource::LocalManifest(String::from("l.toml")), "mine");
    let slots = assemble_slots(
        String::from("agent"),
        SourceSlot::default(),
        lm,
        SourceSlot::default(),
        SourceSlot::default(),
        &ConfigLocation::Local,
    );
    assert_eq!(slots.name, "agent");
    assert_eq!(slots.merged.description, Some(String::from("mine")));
    assert!(slots.has_local());
}
