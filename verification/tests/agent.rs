use kiro_generator::agent::custom_tool::CustomToolConfig;
use kiro_generator::agent::hook::{Hook, HookTrigger};
use kiro_generator::map::StringMap;

fn map_of(items: &[(&str, &str)]) -> StringMap<String> {
    let mut m = StringMap::new();
    for (k, v) in items {
        m.insert(k.to_string(), v.to_string());
    }
    m
}

#[test]
fn test_merge_child_wins() {
    let parent = CustomToolConfig {
        command: "parent-cmd".into(),
        timeout: Some(1000),
        env: map_of(&[("KEY", "parent")]),
        headers: map_of(&[("Auth", "parent-token")]),
        ..Default::default()
    };

    let child = CustomToolConfig {
        timeout: Some(2000),
        env: map_of(&[("KEY", "child")]),
        headers: map_of(&[("Auth", "child-token")]),
        ..Default::default()
    };

    let merged = child.merge(parent);
    assert_eq!(merged.command, "parent-cmd");
    assert_eq!(merged.timeout, Some(2000));
    assert_eq!(merged.env.get("KEY"), Some(&"child".to_string()));
    assert_eq!(merged.headers.get("Auth"), Some(&"child-token".to_string()));
}

#[test]
fn test_merge_extends_collections() {
    let parent = CustomToolConfig {
        env: map_of(&[("PARENT_KEY", "parent")]),
        headers: map_of(&[("X-Parent", "value")]),
        args: vec!["--parent".into()],
        ..Default::default()
    };

    let child = CustomToolConfig {
        env: map_of(&[("CHILD_KEY", "child")]),
        headers: map_of(&[("X-Child", "value")]),
        args: vec!["--child".into()],
        ..Default::default()
    };

    let merged = child.merge(parent);
    assert_eq!(merged.env.len(), 2);
    assert_eq!(merged.headers.len(), 2);
    assert_eq!(merged.args.len(), 2);
    assert!(merged.args.contains(&"--parent".into()));
    assert!(merged.args.contains(&"--child".into()));
}

#[test]
fn test_merge_empty_strings() {
    let parent = CustomToolConfig {
        command: "parent-cmd".into(),
        url: "http://parent".into(),
        ..Default::default()
    };

    let child = CustomToolConfig {
        command: "child-cmd".into(),
        ..Default::default()
    };

    let merged = child.merge(parent);
    assert_eq!(merged.command, "child-cmd");
    assert_eq!(merged.url, "http://parent");
}

#[test]
fn legacy_merge_disables_when_either_does_and_orders_args() {
    let parent = CustomToolConfig { disabled: true, args: vec!["p".into()], ..Default::default() };
    let child = CustomToolConfig { args: vec!["c".into()], ..Default::default() };
    let merged = child.merge(parent);
    assert!(merged.disabled);
    assert_eq!(merged.args, vec!["c".to_string(), "p".to_string()]);
}

#[test]
fn hook_merge() {
    let parent = Hook {
        command: "test".into(),
        hook_type: HookTrigger::AgentSpawn.to_string(),
        matcher: Some("*.rs".into()),
    };

    let child = Hook {
        command: "test-child".into(),
        hook_type: HookTrigger::AgentSpawn.to_string(),
        matcher: None,
    };

    let merged = child.merge(parent);
    assert_eq!("test-child", merged.command);
    assert_eq!(Some("*.rs".to_string()), merged.matcher);
}

#[test]
fn legacy_hook_takes_parent_command_when_empty() {
    let parent = Hook { command: "parent".into(), hook_type: "stop".into(), matcher: None };
    let child = Hook { command: String::new(), hook_type: "stop".into(), matcher: Some("x".into()) };
    let merged = child.merge(parent);
    assert_eq!(merged.command, "parent");
    assert_eq!(merged.matcher, Some("x".to_string()));
}
