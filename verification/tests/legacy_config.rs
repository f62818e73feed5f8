use kiro_generator::agent::hook::{Hook, HookTrigger};
use kiro_generator::config::hook::{merge_hooks, HookPart};
use kiro_generator::config::native::{NativeTool, NativeTools};
use kiro_generator::map::StringMap;

fn hook(command: &str, matcher: Option<&str>) -> Hook {
    Hook { command: command.into(), hook_type: String::from("agentSpawn"), matcher: matcher.map(String::from) }
}

#[test]
fn test_hooks_empty() {
    let merged = HookPart::default().merge(HookPart::default());
    assert!(merged.agent_spawn.is_empty());
    assert!(merged.user_prompt_submit.is_empty());
    assert!(merged.pre_tool_use.is_empty());
    assert!(merged.post_tool_use.is_empty());
    assert!(merged.stop.is_empty());
}

#[test]
fn shared_hooks_merge_and_others_are_kept() {
    let mut child = StringMap::new();
    child.insert(String::from("fmt"), hook("", Some("*.rs")));
    child.insert(String::from("mine"), hook("mine", None));
    let mut parent = StringMap::new();
    parent.insert(String::from("fmt"), hook("cargo fmt", Some("*")));
    parent.insert(String::from("theirs"), hook("theirs", None));
    let merged = merge_hooks(child, parent);
    assert_eq!(merged.len(), 3);
    let fmt = merged.get("fmt").unwrap();
    assert_eq!(fmt.command, "cargo fmt");
    assert_eq!(fmt.matcher, Some(String::from("*.rs")));

    let mut part = HookPart::default();
    part.stop = merged;
    let hooks = part.hooks(&HookTrigger::Stop);
    assert_eq!(hooks.iter().map(|h| h.command.clone()).collect::<Vec<_>>(), vec!["cargo fmt", "mine", "theirs"]);
    assert!(part.hooks(&HookTrigger::AgentSpawn).is_empty());
}

#[test]
fn overrides_win_over_denies() {
    let mut tools = NativeTools::default();
    tools.write.denies.insert(String::from("/etc"));
    tools.write.overrides.insert(String::from("/etc"));
    tools.shell.disable_auto_readonly = Some(false);
    let write = tools.to_kiro_write();
    assert!(write.allowed_paths.contains("/etc"));
    assert!(!write.denied_paths.contains("/etc"));
    let shell = tools.to_kiro_shell();
    assert!(!shell.auto_allow_readonly);
    assert!(!shell.deny_by_default);
    assert!(tools.to_kiro_aws().auto_allow_readonly);

    let mut parent = NativeTool::default();
    parent.allows.insert(String::from("ls"));
    parent.deny_by_default = Some(true);
    let child = NativeTool::default();
    let merged = child.merge(parent);
    assert!(merged.allows.contains("ls"));
    assert_eq!(merged.deny_by_default, Some(true));
}
