use kiro_generator::generator::config_location::ConfigLocation;
use kiro_generator::generator::merge::InheritanceError;
use kiro_generator::generator::{diff_summary, filter_agents, missing_agents, AgentDiff, AgentResult, Generator};
use kiro_generator::kg_config::manifest::Manifest;
use kiro_generator::kiro::tools::ToolTarget;
use kiro_generator::source::{AgentSourceSlots, KgAgentSource, SourceSlot};

fn manifest(name: &str, template: bool, inherits: &[&str]) -> Manifest {
    let mut m = Manifest::new(String::from(name), template);
    for p in inherits {
        m.inherits.insert(p.to_string());
    }
    m
}

fn local_slots(m: Manifest) -> AgentSourceSlots {
    let mut slots = AgentSourceSlots::default();
    slots.name = m.name.clone();
    slots.local_manifest = SourceSlot {
        path: Some(KgAgentSource::LocalManifest(String::from("test"))),
        manifest: m.clone(),
    };
    slots.merged = m;
    slots
}

fn generator(ms: Vec<Manifest>) -> Generator {
    Generator::new(String::from("/home/u/.kiro/generators"), ms.into_iter().map(local_slots).collect())
}

fn names(agents: &[Manifest]) -> Vec<String> {
    agents.iter().map(|a| a.name.clone()).collect()
}

#[test]
fn diff_summary_mentions_missing_agents_in_current_scope() {
    assert_eq!(
        diff_summary(0, 0, &[String::from("missing")]),
        String::from("No changes (0 agents checked); agent not found in current scope: missing")
    );
}

#[test]
fn diff_summary_counts_changes_and_lists_missing() {
    assert_eq!(diff_summary(3, 12, &[]), "3 changed, 12 unchanged");
    assert_eq!(
        diff_summary(1, 0, &[String::from("a"), String::from("b")]),
        "1 changed, 0 unchanged; agents not found in current scope: a, b"
    );
}

#[test]
fn filter_agents_returns_all_agents_when_filter_empty() {
    let agents = vec![
        Manifest::new(String::from("alpha"), false),
        Manifest::new(String::from("beta"), false),
    ];

    let filtered = filter_agents(agents, &[]);

    assert_eq!(
        filtered.into_iter().map(|agent| agent.name).collect::<Vec<_>>(),
        vec![String::from("alpha"), String::from("beta")]
    );
}

#[test]
fn filter_agents_keeps_requested_names_in_existing_order() {
    let agents = vec![
        Manifest::new(String::from("alpha"), false),
        Manifest::new(String::from("beta"), false),
        Manifest::new(String::from("gamma"), false),
    ];
    let filter = vec![String::from("gamma"), String::from("alpha")];

    let filtered = filter_agents(agents, &filter);

    assert_eq!(
        filtered.into_iter().map(|agent| agent.name).collect::<Vec<_>>(),
        vec![String::from("alpha"), String::from("gamma")]
    );
}

#[test]
fn missing_agents_reports_unknown_names_once_in_filter_order() {
    let agents = vec![
        Manifest::new(String::from("alpha"), false),
        Manifest::new(String::from("beta"), false),
    ];
    let filter = vec![
        String::from("gamma"),
        String::from("alpha"),
        String::from("gamma"),
        String::from("delta"),
    ];

    assert_eq!(missing_agents(&agents, &filter), vec![String::from("gamma"), String::from("delta")]);
}

#[test]
fn inheritance_chain_lists_ancestors_parents_first() {
    let g = generator(vec![
        manifest("base", true, &[]),
        manifest("aws", false, &["base"]),
        manifest("dependabot", false, &["aws", "base"]),
    ]);
    assert_eq!(g.inheritance_chain("dependabot").unwrap(), vec![String::from("base"), String::from("aws")]);
    assert_eq!(g.inheritance_chain("aws").unwrap(), vec![String::from("base")]);
    assert!(g.inheritance_chain("base").unwrap().is_empty());
}

#[test]
fn inheritance_chain_reports_unknown_and_circular_agents() {
    let g = generator(vec![
        manifest("a", false, &["b"]),
        manifest("b", false, &["a"]),
        manifest("c", false, &["nowhere"]),
    ]);
    assert_eq!(g.inheritance_chain("zzz").unwrap_err(), InheritanceError::NotFound(String::from("zzz")));
    let e = g.inheritance_chain("a").unwrap_err();
    assert_eq!(e, InheritanceError::Circular(String::from("a")));
    assert_eq!(e.message(), "Circular inheritance detected: a already in chain");
    let e = g.inheritance_chain("c").unwrap_err();
    assert_eq!(e.message(), "Agent 'nowhere' not found");
    assert!(g.inheritance_chain_safe("a").is_empty());
    assert!(g.merge().is_err());
}

#[test]
fn merge_fills_gaps_from_ancestors_and_keeps_template_flag() {
    let mut base = manifest("base", true, &[]);
    base.description = Some(String::from("base docs"));
    base.prompt = Some(String::from("you are an expert"));
    base.tools.insert(String::from("*"));
    base.allowed_tools.insert(String::from("read"));
    let mut aws = manifest("aws", false, &["base"]);
    aws.description = Some(String::from("aws agent"));
    aws.allowed_tools.insert(String::from("@awsdocs"));
    let mut child = manifest("dependabot", false, &["aws"]);
    child.native_tools.shell.force_allow.insert(String::from("git push .*"));
    let g = generator(vec![base, aws, child]);

    let merged = g.merge().unwrap();
    assert_eq!(names(&merged), vec!["aws", "base", "dependabot"]);
    let d = &merged[2];
    assert_eq!(d.description, Some(String::from("aws agent")));
    assert_eq!(d.prompt, Some(String::from("you are an expert")));
    assert!(d.tools.contains("*"));
    assert!(d.allowed_tools.contains("read"));
    assert!(d.allowed_tools.contains("@awsdocs"));
    assert!(!d.template);
    assert!(merged[1].template);
    assert!(d.get_tool_shell().force_allow.contains("git push .*"));
}

#[test]
fn generator_queries() {
    let mut local = local_slots(manifest("mine", false, &[]));
    local.local_manifest.path = Some(KgAgentSource::LocalManifest(String::from("kg.toml")));
    let mut global = AgentSourceSlots::default();
    global.name = String::from("theirs");
    global.merged = manifest("theirs", true, &[]);
    global.global_manifest = SourceSlot {
        path: Some(KgAgentSource::GlobalManifest(String::from("g.toml"))),
        manifest: manifest("theirs", true, &[]),
    };
    let g = Generator::new(String::from("/g"), vec![local, global]);
    assert!(g.contains_local_agents());
    assert!(g.is_local("mine"));
    assert!(!g.is_local("theirs"));
    assert!(!g.is_local("nobody"));
    assert_eq!(g.concrete_agents().iter().map(|a| a.name.clone()).collect::<Vec<_>>(), vec!["mine"]);
    assert_eq!(g.template_agents().iter().map(|a| a.name.clone()).collect::<Vec<_>>(), vec!["theirs"]);
    assert_eq!(g.destination_dir_in("mine", Some(String::from("/home/u"))), ".kiro/agents");
    assert_eq!(g.destination_dir_in("theirs", Some(String::from("/home/u"))), "/home/u/.kiro/agents");
    assert_eq!(g.destination_dir_in("theirs", Some(String::from("/home/u/"))), "/home/u/.kiro/agents");
    assert_eq!(g.destination_dir_in("theirs", None), ".kiro/agents");
    assert_eq!(g.destination_dir("mine"), ".kiro/agents");
    let scoped = g.in_scope(vec![manifest("mine", false, &[]), manifest("theirs", false, &[])]);
    assert_eq!(names(&scoped), vec!["mine"]);
}

#[test]
fn agent_result_and_diff() {
    let mut m = manifest("x", false, &[]);
    m.native_tools.read.force_allow.insert(String::from("b"));
    m.native_tools.read.force_allow.insert(String::from("a"));
    let r = AgentResult::new(m, String::from(".kiro/agents"));
    assert!(r.writable);
    assert!(!r.is_template());
    assert_eq!(r.force_allow(&ToolTarget::Read), vec![String::from("a"), String::from("b")]);
    assert!(r.force_allow(&ToolTarget::Aws).is_empty());
    assert_eq!(r.kiro_agent.name, "x");
    assert_eq!(AgentDiff::New.to_string(), "new agent");
    assert_eq!(AgentDiff::Same.to_string(), "no changes");
    assert_eq!(AgentDiff::Changed(String::from("d")).to_string(), "d");
}

#[test]
fn config_location_paths() {
    let both = ConfigLocation::Both(String::from("/home/u/.kiro/generators"));
    assert_eq!(both.global("kg"), "/home/u/.kiro/generators/kg.toml");
    assert_eq!(both.local("kg"), ".kiro/generators/kg.toml");
    assert_eq!(both.global_kg(), "/home/u/.kiro/generators/kg.toml");
    assert_eq!(both.local_kg(), ".kiro/generators/kg.toml");
    assert_eq!(both.global_manifests_dir(), "/home/u/.kiro/generators/manifests");
    assert_eq!(both.local_manifests_dir(), ".kiro/generators/manifests");
    assert_eq!(both.global_agent_path("a"), Some(String::from("/home/u/.kiro/generators/agents/a.toml")));
    assert_eq!(both.local_agent_path("a"), Some(String::from(".kiro/generators/agents/a.toml")));
    assert_eq!(both.to_string(), "global=/home/u/.kiro/generators,local");
    assert_eq!(both.debug_string(), "[global,local]");
    let local = ConfigLocation::Local;
    assert_eq!(local.global("kg"), "");
    assert_eq!(local.global_agent_path("a"), None);
    assert_eq!(local.to_string(), "local");
    let global = ConfigLocation::Global(String::from("/g"));
    assert_eq!(global.local("kg"), "");
    assert_eq!(global.local_agent_path("a"), None);
    assert!(global.check_kg_exists(true, false).is_ok());
    assert_eq!(
        global.check_kg_exists(false, false).unwrap_err(),
        "no kg.toml found at global (/g/kg.toml) or local ()"
    );
}

#[test]
fn global_agents_go_under_the_home_directory() {
    let mut global = AgentSourceSlots::default();
    global.name = String::from("theirs");
    global.merged = manifest("theirs", false, &[]);
    global.global_manifest = SourceSlot {
        path: Some(KgAgentSource::GlobalManifest(String::from("g.toml"))),
        manifest: manifest("theirs", false, &[]),
    };
    let g = Generator::new(String::from("/g"), vec![global]);
    let expected = match dirs::home_dir() {
        Some(h) => g.destination_dir_in("theirs", Some(h.to_string_lossy().into_owned())),
        None => String::from(".kiro/agents"),
    };
    assert_eq!(g.destination_dir("theirs"), expected);
    if dirs::home_dir().is_some() {
        assert_ne!(g.destination_dir("theirs"), ".kiro/agents");
    }
}

#[test]
fn merge_returns_agents_in_order_of_name() {
    let g = generator(vec![manifest("zeta", false, &[]), manifest("alpha", false, &[]), manifest("mid", true, &["alpha"])]);
    let merged = g.merge().unwrap();
    assert_eq!(names(&merged), vec!["alpha", "mid", "zeta"]);
}
