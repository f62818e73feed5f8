use kiro_generator::generator::AgentResult;
use kiro_generator::kg_config::manifest::Manifest;
use kiro_generator::kg_config::mcp::{KgCustomToolConfig, McpServerState};
use kiro_generator::output::OutputFormat;

fn server(state: Option<McpServerState>) -> KgCustomToolConfig {
    let mut c = KgCustomToolConfig::default();
    c.command = String::from("run");
    c.state = state;
    c
}

fn result(name: &str, template: bool, destination: &str) -> AgentResult {
    let mut m = Manifest::new(String::from(name), template);
    m.mcp_servers.insert(String::from("zeta"), server(None));
    m.mcp_servers.insert(String::from("alpha"), server(Some(McpServerState::Enabled)));
    m.mcp_servers.insert(String::from("off"), server(Some(McpServerState::Disabled)));
    m.mcp_servers.insert(String::from("hidden"), server(Some(McpServerState::Hide)));
    m.native_tools.shell.force_allow.insert(String::from("git status"));
    m.native_tools.write.force_allow.insert(String::from("/tmp"));
    AgentResult::new(m, String::from(destination))
}

#[test]
fn row_shows_enabled_servers_and_forced_lists() {
    let row = OutputFormat::Table(false).agent_result_to_row(&result("dev", false, "/home/u/.kiro/agents"));
    assert_eq!(row.name, "dev");
    assert_eq!(row.location, "🏠");
    assert_eq!(row.mcp_servers, vec![String::from("alpha"), String::from("zeta")]);
    assert_eq!(row.forced, vec![
        (String::from("cmds"), vec![String::from("git status")]),
        (String::from("write"), vec![String::from("/tmp")]),
    ]);
}

#[test]
fn row_marks_templates_and_project_agents() {
    let t = OutputFormat::Json.agent_result_to_row(&result("base", true, "/home/u/.kiro/agents"));
    assert_eq!(t.name, "base 💀");
    assert_eq!(t.location, "");
    let p = OutputFormat::Plain.agent_result_to_row(&result("proj", false, ".kiro/agents"));
    assert_eq!(p.location, "📁");
}

#[test]
fn row_without_forced_permissions_has_no_lists() {
    let m = Manifest::new(String::from("plain"), false);
    let row = OutputFormat::Table(true).agent_result_to_row(&AgentResult::new(m, String::from(".kiro/agents")));
    assert!(row.mcp_servers.is_empty());
    assert!(row.forced.is_empty());
}

#[test]
fn result_rows_leave_out_templates_unless_asked() {
    let results = vec![result("a", false, ".kiro/agents"), result("t", true, ".kiro/agents"), result("b", false, ".kiro/agents")];
    let f = OutputFormat::Table(false);
    let names: Vec<String> = f.result_rows(false, &results).into_iter().map(|r| r.name).collect();
    assert_eq!(names, vec![String::from("a"), String::from("b")]);
    let all: Vec<String> = f.result_rows(true, &results).into_iter().map(|r| r.name).collect();
    assert_eq!(all, vec![String::from("a"), String::from("t 💀"), String::from("b")]);
}
