use kiro_generator::kg_config::manifest::Manifest;
use kiro_generator::kg_config::knowledge::KgKnowledge;
use kiro_generator::kg_config::resources::{KgFileResource, KgSkillResource};
use kiro_generator::kg_config::search::{SearchQuery, Searchable};
use kiro_generator::kg_config::subagent::SubagentConfig;
use kiro_generator::set::StringSet;

fn set_of(items: &[&str]) -> StringSet {
    let mut s = StringSet::new();
    for i in items {
        s.insert(i.to_string());
    }
    s
}

#[test]
fn test_knowledge_merge() {
    let base = KgKnowledge {
        source: Some("file://./base".to_string()),
        description: Some("Base docs".to_string()),
        index_type: None,
        auto_update: None,
    };

    let child = KgKnowledge {
        source: None,
        description: None,
        index_type: Some("fast".to_string()),
        auto_update: Some(true),
    };

    let merged = base.merge(child);
    assert_eq!(merged.source, Some("file://./base".to_string()));
    assert_eq!(merged.description, Some("Base docs".to_string()));
    assert_eq!(merged.index_type, Some("fast".to_string()));
    assert_eq!(merged.auto_update, Some(true));
}

#[test]
fn test_merge_file_locations_union() {
    let base = KgFileResource {
        disabled: Some(true),
        optional: None,
        locations: set_of(&["README.md"]),
    };

    let child = KgFileResource {
        disabled: Some(true),
        optional: None,
        locations: set_of(&["RUST.md"]),
    };

    let merged = child.merge(base);
    assert!(merged.locations.contains("README.md"));
    assert!(merged.locations.contains("RUST.md"));
}

#[test]
fn file_search_matches_locations() {
    let file = KgFileResource {
        locations: set_of(&["README.md", "/tmp/design.md"]),
        ..Default::default()
    };

    assert!(file.search(&"readme".into()));
    assert!(!file.search(&SearchQuery::from("readme").case_sensitive()));
    assert!(!file.search(&"missing".into()));
}

#[test]
fn test_merge_skill_locations_union() {
    let base = KgSkillResource {
        disabled: Some(true),
        optional: None,
        locations: set_of(&["a/SKILL.md"]),
    };

    let child = KgSkillResource {
        disabled: Some(true),
        optional: None,
        locations: set_of(&["b/SKILL.md"]),
    };

    let merged = child.merge(base);
    assert!(merged.locations.contains("a/SKILL.md"));
    assert!(merged.locations.contains("b/SKILL.md"));
}

#[test]
fn skill_search_matches_locations() {
    let skill = KgSkillResource {
        locations: set_of(&["foo/SKILL.md", "bar/notes.md"]),
        ..Default::default()
    };

    assert!(skill.search(&"skill".into()));
    assert!(!skill.search(&SearchQuery::from("skill").case_sensitive()));
    assert!(!skill.search(&"missing".into()));
}

#[test]
fn test_resource_display() {
    let object = KgFileResource {
        locations: set_of(&["location1", "location2"]),
        ..Default::default()
    };

    assert!(object.to_string().contains("://"));
    assert!(object.to_string().contains(","));
    let object = KgSkillResource {
        locations: set_of(&["location1", "location2"]),
        ..Default::default()
    };

    assert!(object.to_string().contains("://"));
    assert!(object.to_string().contains(","));
}

#[test]
fn query_matches_case_insensitively_by_default() {
    let query: SearchQuery<'_> = "skill".into();
    assert!(query.matches("SKILL.md"));
}

#[test]
fn query_honors_case_sensitive_mode() {
    let query: SearchQuery<'_> = "skill".into();
    let query = query.case_sensitive();
    assert!(!query.matches("SKILL.md"));
    assert!(query.matches("skill.md"));
}

#[test]
fn test_merge_empty() {
    let a = SubagentConfig::default();
    let b = SubagentConfig::default();
    let merged = a.merge(b);
    assert!(merged.allow.is_empty());
    assert!(merged.deny.is_empty());
}

#[test]
fn test_merge_allow() {
    let mut a = SubagentConfig::default();
    a.allow.insert("frontend".to_string());
    let mut b = SubagentConfig::default();
    b.allow.insert("backend".to_string());
    let merged = a.merge(b);
    assert_eq!(merged.allow.len(), 2);
    assert!(merged.allow.contains("frontend"));
    assert!(merged.allow.contains("backend"));
}

#[test]
fn test_merge_deny() {
    let mut a = SubagentConfig::default();
    a.deny.insert("admin".to_string());
    let mut b = SubagentConfig::default();
    b.deny.insert("root".to_string());
    let merged = a.merge(b);
    assert_eq!(merged.deny.len(), 2);
    assert!(merged.deny.contains("admin"));
    assert!(merged.deny.contains("root"));
}

#[test]
fn test_merge_both() {
    let mut a = SubagentConfig::default();
    a.allow.insert("frontend".to_string());
    a.deny.insert("admin".to_string());
    let mut b = SubagentConfig::default();
    b.allow.insert("backend".to_string());
    b.deny.insert("root".to_string());
    let merged = a.merge(b);
    assert_eq!(merged.allow.len(), 2);
    assert_eq!(merged.deny.len(), 2);
    assert!(merged.allow.contains("frontend"));
    assert!(merged.allow.contains("backend"));
    assert!(merged.deny.contains("admin"));
    assert!(merged.deny.contains("root"));
}

#[test]
fn agent_file_names_no_parents_and_takes_the_template_flag() {
    let mut file = Manifest::new(String::from("ignored"), false);
    file.inherits.insert(String::from("base"));
    file.description = Some(String::from("from the file"));
    file.tools.insert(String::from("@git"));
    let m = Manifest::from_file_source("dev", file, true);
    assert_eq!(m.name, "dev");
    assert!(m.template);
    assert!(m.inherits.is_empty());
    assert_eq!(m.description, Some(String::from("from the file")));
    assert!(m.tools.contains("@git"));
}

#[test]
fn manifest_new() {
    let m = Manifest::new("test-agent".to_string(), true);
    assert_eq!(m.name, "test-agent");
    assert!(m.template);
}
