use kiro_generator::kiro::hook::{HookTrigger, KgHook};
use kiro_generator::kiro::tools::{AwsTool, ExecuteShellTool, ToolTarget};

#[test]
fn hook_hook_merge() {
    let parent = KgHook {
        command: "test".into(),
        hook_type: HookTrigger::AgentSpawn.to_string(),
        matcher: Some("*.rs".into()),
        timeout_ms: Some(5000),
        max_output_size: Some(2048),
        cache_ttl_seconds: Some(60),
    };

    let child = KgHook {
        command: "test-child".into(),
        hook_type: HookTrigger::AgentSpawn.to_string(),
        matcher: None,
        timeout_ms: None,
        max_output_size: None,
        cache_ttl_seconds: None,
    };

    let merged = child.merge(parent);
    assert_eq!("test-child", merged.command);
    assert_eq!(Some("*.rs".to_string()), merged.matcher);
    assert_eq!(Some(5000), merged.timeout_ms);
    assert_eq!(Some(2048), merged.max_output_size);
    assert_eq!(Some(60), merged.cache_ttl_seconds);
}

#[test]
fn hook_merge_child_overrides() {
    let parent = KgHook {
        command: "test".into(),
        hook_type: HookTrigger::AgentSpawn.to_string(),
        matcher: Some("*.rs".into()),
        timeout_ms: Some(5000),
        max_output_size: Some(2048),
        cache_ttl_seconds: Some(60),
    };

    let child = KgHook {
        command: "test-child".into(),
        hook_type: HookTrigger::AgentSpawn.to_string(),
        matcher: Some("*.toml".into()),
        timeout_ms: Some(10000),
        max_output_size: Some(4096),
        cache_ttl_seconds: Some(120),
    };

    let merged = child.merge(parent);
    assert_eq!("test-child", merged.command);
    assert_eq!(Some("*.toml".to_string()), merged.matcher);
    assert_eq!(Some(10000), merged.timeout_ms);
    assert_eq!(Some(4096), merged.max_output_size);
    assert_eq!(Some(120), merged.cache_ttl_seconds);
}

#[test]
fn tools_tool_target_display() {
    assert_eq!(ToolTarget::Aws.to_string(), "aws");
    assert_eq!(ToolTarget::Shell.to_string(), "shell");
}

#[test]
fn tools_tool_target_as_ref() {
    assert_eq!(ToolTarget::Read.as_ref(), "read");
    assert_eq!(ToolTarget::Write.as_ref(), "write");
}

#[test]
fn tools_aws_tool_default() {
    let tool = AwsTool::default();
    assert!(tool.auto_allow_readonly);
    assert!(tool.allowed_services.is_empty());
}

#[test]
fn tools_execute_shell_tool_default() {
    let tool = ExecuteShellTool::default();
    assert!(!tool.deny_by_default);
    assert!(tool.auto_allow_readonly);
}

#[test]
fn hook_trigger_names() {
    assert_eq!(HookTrigger::UserPromptSubmit.to_string(), "userPromptSubmit");
    assert_eq!(HookTrigger::PreToolUse.to_string(), "preToolUse");
    assert_eq!(HookTrigger::PostToolUse.to_string(), "postToolUse");
    assert_eq!(HookTrigger::Stop.to_string(), "stop");
}

#[test]
fn tool_targets_are_listed_in_order() {
    let all = ToolTarget::all();
    let names: Vec<&str> = all.iter().map(|t| t.as_str()).collect();
    assert_eq!(names, vec!["aws", "shell", "read", "write"]);
}
