//! How results are shown: table, JSON or plain text, with or without color.
use vstd::prelude::*;
use crate::generator::{AgentResult, force_allow_spec};
use crate::kg_config::manifest::Manifest;
use crate::kg_config::mcp::{KgCustomToolConfig, McpServerState};
use crate::kiro::tools::ToolTarget;
use crate::map::StringMap;
use crate::set::views;
use crate::text::concat;

verus! {

/// Override the color setting. Default is [`ColorOverride::Auto`].
#[derive(Copy, Clone, Debug, PartialEq, Eq, Structural)]
pub enum ColorOverride {
    /// Always display color (i.e. force it).
    Always,
    /// Automatically determine if color should be used or not.
    Auto,
    /// Never display color.
    Never,
}

impl ColorOverride {
    /// `always`, `auto` or `never` (the display form).
    pub fn to_string(&self) -> (r: String)
        ensures
            r@ == match *self {
                ColorOverride::Always => "always"@,
                ColorOverride::Auto => "auto"@,
                ColorOverride::Never => "never"@,
            },
    {
        match self {
            ColorOverride::Always => String::from_str("always"),
            ColorOverride::Auto => String::from_str("auto"),
            ColorOverride::Never => String::from_str("never"),
        }
    }
}

impl Default for ColorOverride {
    fn default() -> (r: Self)
        ensures
            r == ColorOverride::Auto,
    {
        ColorOverride::Auto
    }
}

/// The output format asked for on the command line.
#[derive(Copy, Clone, Debug, PartialEq, Eq, Structural)]
pub enum OutputFormatArg {
    Table,
    Json,
    Plain,
}

impl OutputFormatArg {
    /// `table`, `json` or `plain` (the display form).
    pub fn to_string(&self) -> (r: String)
        ensures
            r@ == match *self {
                OutputFormatArg::Table => "table"@,
                OutputFormatArg::Json => "json"@,
                OutputFormatArg::Plain => "plain"@,
            },
    {
        match self {
            OutputFormatArg::Table => String::from_str("table"),
            OutputFormatArg::Json => String::from_str("json"),
            OutputFormatArg::Plain => String::from_str("plain"),
        }
    }
}

impl Default for OutputFormatArg {
    fn default() -> (r: Self)
        ensures
            r == OutputFormatArg::Table,
    {
        OutputFormatArg::Table
    }
}

/// The output format in use: a table (colored or not), JSON or plain text.
#[derive(Copy, Clone, Debug, PartialEq, Eq, Structural)]
pub enum OutputFormat {
    Table(bool),
    Json,
    Plain,
}

impl Default for OutputFormat {
    fn default() -> (r: Self)
        ensures
            r == OutputFormat::Table(true),
    {
        OutputFormat::Table(true)
    }
}

/// One row of the results table: the agent, where it is written, the MCP
/// servers it runs and the permissions it forces.
pub struct ResultRow {
    /// The agent's name, marked ` 💀` when it is a template.
    pub name: String,
    /// `🏠` for an agent written under an absolute directory (the home
    /// directory), `📁` for one written in the project, nothing for a template.
    pub location: String,
    /// The names of the enabled MCP servers, in ascending order.
    pub mcp_servers: Vec<String>,
    /// Each non-empty list of force-allowed entries under its label: shell
    /// commands (`cmds`), read paths (`read`), write paths (`write`), in that
    /// order.
    pub forced: Vec<(String, Vec<String>)>,
}

/// What a row shows: name, location, servers and labelled forced lists.
pub type RowView = (Seq<char>, Seq<char>, Seq<Seq<char>>, Seq<(Seq<char>, Seq<Seq<char>>)>);

/// A labelled list as plain values.
pub open spec fn entry_view(e: (String, Vec<String>)) -> (Seq<char>, Seq<Seq<char>>) {
    (e.0@, views(e.1@))
}

/// The values a row shows.
pub open spec fn row_view(r: ResultRow) -> RowView {
    (r.name@, r.location@, views(r.mcp_servers@), r.forced@.map_values(|e: (String, Vec<String>)| entry_view(e)))
}

/// A server runs unless its state disables or hides it.
pub open spec fn server_enabled(c: KgCustomToolConfig) -> bool {
    !(c.state == Some(McpServerState::Disabled) || c.state == Some(McpServerState::Hide))
}

/// A server runs exactly when it declares no state or the state `enabled`.
pub proof fn lemma_server_enabled(c: KgCustomToolConfig)
    ensures
        server_enabled(c) <==> (c.state is None || c.state == Some(McpServerState::Enabled)),
{
    match c.state {
        Some(McpServerState::Enabled) => {},
        Some(McpServerState::Disabled) => {},
        Some(McpServerState::Hide) => {},
        None => {},
    }
}

/// The enabled servers of `m`, in key order.
pub open spec fn enabled_spec(m: StringMap<KgCustomToolConfig>) -> Seq<Seq<char>> {
    m.ordered_keys().filter(|k: Seq<char>| server_enabled(m@[k]))
}

/// `items` under `label`, or nothing when `items` is empty.
pub open spec fn labelled(label: Seq<char>, items: Seq<Seq<char>>) -> Seq<(Seq<char>, Seq<Seq<char>>)> {
    if items.len() == 0 {
        Seq::empty()
    } else {
        seq![(label, items)]
    }
}

/// The labelled force-allowed lists of `agent`.
pub open spec fn forced_spec(agent: Manifest) -> Seq<(Seq<char>, Seq<Seq<char>>)> {
    labelled("cmds"@, force_allow_spec(agent, ToolTarget::Shell)) + labelled("read"@, force_allow_spec(agent, ToolTarget::Read))
        + labelled("write"@, force_allow_spec(agent, ToolTarget::Write))
}

/// The row shown for `r`.
pub open spec fn row_spec(r: AgentResult) -> RowView {
    let template = r.agent.template;
    let dest = r.destination@;
    (
        if template { r.agent.name@ + " 💀"@ } else { r.agent.name@ },
        if template {
            Seq::empty()
        } else if dest.len() > 0 && dest[0] == '/' {
            "🏠"@
        } else {
            "📁"@
        },
        enabled_spec(r.agent.mcp_servers),
        forced_spec(r.agent),
    )
}

/// The names of the enabled servers of `m`, in ascending order.
fn enabled_servers(m: &StringMap<KgCustomToolConfig>) -> (r: Vec<String>)
    ensures
        views(r@) == enabled_spec(*m),
{
    let ghost ks = m.ordered_keys();
    let ghost pred = |k: Seq<char>| server_enabled(m@[k]);
    let n = m.len();
    let mut r: Vec<String> = Vec::new();
    let mut i: usize = 0;
    proof {
        reveal(Seq::filter);
        assert(ks.take(0) =~= Seq::<Seq<char>>::empty());
        assert(views(r@) =~= Seq::<Seq<char>>::empty());
    }
    while i < n
        invariant
            n == ks.len(),
            ks == m.ordered_keys(),
            pred == (|k: Seq<char>| server_enabled(m@[k])),
            i <= n,
            views(r@) == ks.take(i as int).filter(pred),
        decreases n - i,
    {
        let (name, config) = m.entry_at(i);
        proof {
            reveal(Seq::filter);
            assert(ks.take(i + 1).drop_last() =~= ks.take(i as int));
            assert(ks.take(i + 1).last() == name@);
        }
        let disabled = match config.state {
            Some(McpServerState::Disabled) | Some(McpServerState::Hide) => true,
            _ => false,
        };
        if !disabled {
            let ghost before = views(r@);
            r.push(name.clone());
            proof {
                assert(views(r@) =~= before.push(name@));
            }
        }
        i = i + 1;
    }
    proof {
        assert(ks.take(n as int) =~= ks);
    }
    r
}

impl OutputFormat {
    /// The row that shows `result`.
    pub fn agent_result_to_row(&self, result: &AgentResult) -> (r: ResultRow)
        ensures
            row_view(r) == row_spec(*result),
    {
        let agent = &result.agent;
        let name = if agent.template {
            concat(agent.name.as_str(), " 💀")
        } else {
            agent.name.clone()
        };
        let dest = result.destination.as_str();
        let location = if agent.template {
            String::new()
        } else if dest.unicode_len() > 0 && dest.get_char(0) == '/' {
            String::from_str("🏠")
        } else {
            String::from_str("📁")
        };
        let mcp_servers = enabled_servers(&agent.mcp_servers);
        let mut forced: Vec<(String, Vec<String>)> = Vec::new();
        let sh = result.force_allow(&ToolTarget::Shell);
        let read = result.force_allow(&ToolTarget::Read);
        let write = result.force_allow(&ToolTarget::Write);
        let ghost f = |e: (String, Vec<String>)| entry_view(e);
        proof {
            reveal_strlit("cmds");
            reveal_strlit("read");
            reveal_strlit("write");
            reveal_strlit(" 💀");
            reveal_strlit("🏠");
            reveal_strlit("📁");
            assert(forced@.map_values(f) =~= Seq::<(Seq<char>, Seq<Seq<char>>)>::empty());
        }
        if sh.len() > 0 {
            forced.push((String::from_str("cmds"), sh));
        }
        let ghost after_sh = forced@.map_values(f);
        assert(after_sh =~= labelled("cmds"@, force_allow_spec(result.agent, ToolTarget::Shell)));
        if read.len() > 0 {
            forced.push((String::from_str("read"), read));
        }
        let ghost after_read = forced@.map_values(f);
        assert(after_read =~= after_sh + labelled("read"@, force_allow_spec(result.agent, ToolTarget::Read)));
        if write.len() > 0 {
            forced.push((String::from_str("write"), write));
        }
        assert(forced@.map_values(f) =~= after_read + labelled("write"@, force_allow_spec(result.agent, ToolTarget::Write)));
        ResultRow { name, location, mcp_servers, forced }
    }

    /// The rows of the results table: one per result, in order, leaving out
    /// templates unless `show_templates`.
    pub fn result_rows(&self, show_templates: bool, results: &[AgentResult]) -> (r: Vec<ResultRow>)
        ensures
            r@.map_values(|x: ResultRow| row_view(x))
                == results@.filter(|x: AgentResult| show_templates || !x.agent.template).map_values(|x: AgentResult| row_spec(x)),
    {
        let ghost pred = |x: AgentResult| show_templates || !x.agent.template;
        let ghost rv = |x: ResultRow| row_view(x);
        let ghost rs = |x: AgentResult| row_spec(x);
        let mut rows: Vec<ResultRow> = Vec::new();
        let mut i: usize = 0;
        proof {
            reveal(Seq::filter);
            assert(results@.take(0) =~= Seq::<AgentResult>::empty());
            assert(rows@.map_values(rv) =~= Seq::<RowView>::empty());
        }
        while i < results.len()
            invariant
                i <= results@.len(),
                pred == (|x: AgentResult| show_templates || !x.agent.template),
                rv == (|x: ResultRow| row_view(x)),
                rs == (|x: AgentResult| row_spec(x)),
                rows@.map_values(rv) == results@.take(i as int).filter(pred).map_values(rs),
            decreases results@.len() - i,
        {
            let result = &results[i];
            proof {
                reveal(Seq::filter);
                assert(results@.take(i + 1).drop_last() =~= results@.take(i as int));
                assert(results@.take(i + 1).last() == *result);
            }
            if show_templates || !result.agent.template {
                let row = self.agent_result_to_row(result);
                let ghost before = rows@.map_values(rv);
                rows.push(row);
                proof {
                    assert(rows@.map_values(rv) =~= before.push(rv(row)));
                    assert(results@.take(i + 1).filter(pred) == results@.take(i as int).filter(pred).push(*result));
                    assert(results@.take(i + 1).filter(pred).map_values(rs) =~= results@.take(i as int).filter(pred).map_values(rs).push(rs(*result)));
                }
            }
            i = i + 1;
        }
        proof {
            assert(results@.take(results@.len() as int) =~= results@);
        }
        rows
    }
}

} // verus!
