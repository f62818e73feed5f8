use kiro_generator::kg_config::manifest::Manifest;
use kiro_generator::kg_config::native::NativeTool;

fn rich(name: &str, template: bool) -> Manifest {
    let mut m = Manifest::new(String::from(name), template);
    m.description = Some(String::from("desc"));
    m.model = Some(String::from("m1"));
    m.tools.insert(String::from("read"));
    m.inherits.insert(String::from("base"));
    m.tool_aliases.insert(String::from("a"), String::from("b"));
    m.native_tools.shell.denies.insert(String::from("rm"));
    m.subagents.deny.insert(String::from("x"));
    m
}

#[test]
fn merging_with_an_empty_parent_changes_nothing() {
    let child = rich("child", false);
    let merged = child.clone().merge(Manifest::new(String::from("parent"), true));
    assert_eq!(merged.name, "child");
    assert!(!merged.template);
    assert_eq!(merged.description, child.description);
    assert_eq!(merged.model, child.model);
    assert_eq!(merged.tools, child.tools);
    assert_eq!(merged.inherits, child.inherits);
    assert_eq!(merged.tool_aliases, child.tool_aliases);
    assert_eq!(merged.native_tools.shell.denies, child.native_tools.shell.denies);
    assert_eq!(merged.subagents.deny, child.subagents.deny);
}

#[test]
fn an_empty_child_takes_everything_but_its_name_and_flag() {
    let parent = rich("parent", true);
    let merged = Manifest::new(String::from("child"), false).merge(parent.clone());
    assert_eq!(merged.name, "child");
    assert!(!merged.template);
    assert_eq!(merged.description, parent.description);
    assert_eq!(merged.tools, parent.tools);
    assert_eq!(merged.native_tools.shell.denies, parent.native_tools.shell.denies);
}

#[test]
fn the_child_keeps_a_shared_tool_alias_and_setting() {
    let mut child = Manifest::new(String::from("c"), false);
    child.tool_aliases.insert(String::from("a"), String::from("child"));
    child.tool_settings.insert(String::from("t"), String::from("{\"x\":1}"));
    let mut parent = Manifest::new(String::from("p"), false);
    parent.tool_aliases.insert(String::from("a"), String::from("parent"));
    parent.tool_aliases.insert(String::from("b"), String::from("only-parent"));
    parent.tool_settings.insert(String::from("t"), String::from("{\"x\":2}"));
    parent.tool_settings.insert(String::from("u"), String::from("{}"));
    let merged = child.merge(parent);
    assert_eq!(merged.tool_aliases.get("a"), Some(&String::from("child")));
    assert_eq!(merged.tool_aliases.get("b"), Some(&String::from("only-parent")));
    assert_eq!(merged.tool_aliases.len(), 2);
    assert_eq!(merged.tool_settings.get("t"), Some(&String::from("{\"x\":1}")));
    assert_eq!(merged.tool_settings.get("u"), Some(&String::from("{}")));
}

#[test]
fn force_allowed_entries_win_over_denies_through_a_merge() {
    let mut child = NativeTool::default();
    child.force_allow.insert(String::from("git push"));
    let mut parent = NativeTool::default();
    parent.denies.insert(String::from("git push"));
    parent.denies.insert(String::from("rm -rf"));
    let merged = child.merge(parent);
    let (allows, denies) = merged.effective_lists();
    assert!(allows.contains("git push"));
    assert!(!denies.contains("git push"));
    assert!(denies.contains("rm -rf"));
}
