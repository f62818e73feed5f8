use kiro_generator::source::{AgentSourceSlots, KgAgentSource, SourceSlot};
use kiro_generator::kg_config::manifest::Manifest;

#[test]
fn kg_agent_source_display() {
    assert_eq!(
        KgAgentSource::GlobalManifest(String::from("kg.toml")).to_string(),
        "global-manifest:kg.toml"
    );
    assert_eq!(
        KgAgentSource::LocalManifest(String::from("kg.toml")).to_string(),
        "local-manifest:kg.toml"
    );
    assert_eq!(
        KgAgentSource::GlobalFile(String::from("/foo")).to_string(),
        "global-file:/foo"
    );
    assert_eq!(
        KgAgentSource::LocalFile(String::from("bar")).to_string(),
        "local-file:bar"
    );
}

#[test]
fn kg_agent_source_helpers() {
    let local_manifest = KgAgentSource::manifest(String::from("a.toml"), true);
    let global_manifest = KgAgentSource::manifest(String::from("b.toml"), false);
    let local_file = KgAgentSource::LocalFile(String::from("local-file.toml"));

    assert!(local_manifest.is_local());
    assert!(!global_manifest.is_local());
    assert!(local_file.is_local());

    assert_eq!(local_manifest.source_type(), "local-manifest");
    assert_eq!(global_manifest.source_type(), "global-manifest");
    assert_eq!(local_file.source_type(), "local-file");

    assert_eq!(local_manifest.path(), "a.toml");
    assert_eq!(global_manifest.path(), "b.toml");
    assert_eq!(local_file.debug_string(), "local-file.toml");
}

#[test]
fn agent_source_slots_has_local() {
    let mut slots = AgentSourceSlots::default();
    assert!(!slots.has_local());

    slots.local_manifest.path = Some(KgAgentSource::LocalManifest(String::from("kg.toml")));
    assert!(slots.has_local());
}

#[test]
fn sources_lists_present_layers_in_order() {
    let mut slots = AgentSourceSlots::default();
    slots.local_agent_file = SourceSlot {
        path: Some(KgAgentSource::LocalFile(String::from("agents/a.toml"))),
        manifest: Manifest::default(),
    };
    slots.global_manifest = SourceSlot {
        path: Some(KgAgentSource::GlobalManifest(String::from("kg.toml"))),
        manifest: Manifest::default(),
    };
    let sources = slots.sources();
    assert_eq!(sources.len(), 2);
    assert_eq!(sources[0].to_string(), "global-manifest:kg.toml");
    assert_eq!(sources[1].to_string(), "local-file:agents/a.toml");
    assert_eq!(slots.debug_string(), "[][local=true]");
}

#[test]
fn slot_display_and_location() {
    let slot = SourceSlot {
        path: Some(KgAgentSource::LocalManifest(String::from("test"))),
        manifest: Manifest::default(),
    };
    assert_eq!(slot.to_string(), "local-manifest://test");
    assert_eq!(slot.location(), Some(&String::from("test")));
    assert_eq!(slot.source_type(), Some(String::from("local-manifest")));
    let empty = SourceSlot::default();
    assert_eq!(empty.to_string(), "");
    assert_eq!(empty.location(), None);
}

#[test]
fn kg_agent_source_to_cell() {
    assert_eq!(KgAgentSource::GlobalManifest(String::from("kg.toml")).to_string(), "global-manifest:kg.toml");
    assert_eq!(KgAgentSource::LocalManifest(String::from("kg.toml")).to_string(), "local-manifest:kg.toml");
    assert_eq!(KgAgentSource::GlobalFile(String::from("/foo")).to_string(), "global-file:/foo");
    assert_eq!(KgAgentSource::LocalFile(String::from("bar")).to_string(), "local-file:bar");
}
