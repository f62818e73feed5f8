//! MCP server declarations in manifests.
use vstd::prelude::*;
use crate::kiro::hook::prefer;
use crate::map::StringMap;
use crate::merge::Merge;
use crate::kg_config::search::{SearchQuery, Searchable, query_matches};

verus! {

/// The operational state of an MCP server.
#[derive(Clone, Copy, Debug, Eq, PartialEq, Structural)]
pub enum McpServerState {
    Enabled,
    Disabled,
    Hide,
}

impl McpServerState {
    /// Disabled and hidden servers are not loaded.
    pub fn is_disabled(&self) -> (b: bool)
        ensures
            b == (*self == McpServerState::Disabled || *self == McpServerState::Hide),
    {
        match self {
            McpServerState::Disabled | McpServerState::Hide => true,
            McpServerState::Enabled => false,
        }
    }

    /// The name manifests use for the state.
    pub open spec fn name_spec(self) -> Seq<char> {
        match self {
            McpServerState::Enabled => "enabled"@,
            McpServerState::Disabled => "disabled"@,
            McpServerState::Hide => "hide"@,
        }
    }

    /// The name manifests use for the state.
    pub fn name(&self) -> (r: &'static str)
        ensures
            r@ == self.name_spec(),
    {
        match self {
            McpServerState::Enabled => "enabled",
            McpServerState::Disabled => "disabled",
            McpServerState::Hide => "hide",
        }
    }
}

impl Default for McpServerState {
    fn default() -> (r: Self)
        ensures
            r == McpServerState::Disabled,
    {
        McpServerState::Disabled
    }
}

/// MCP server configuration for agent definitions.
#[derive(Debug, Eq, PartialEq)]
pub struct KgCustomToolConfig {
    /// The URL for HTTP-based MCP server communication
    pub url: String,
    /// HTTP headers to include when communicating with HTTP-based MCP servers
    pub headers: StringMap<String>,
    /// The command string used to initialize the MCP server
    pub command: String,
    /// A list of arguments to be used to run the command with
    pub args: Vec<String>,
    /// A list of environment variables to run the command with
    pub env: StringMap<String>,
    /// Timeout for each MCP request in milliseconds
    pub timeout: Option<u64>,
    /// MCP server operational state
    pub state: Option<McpServerState>,
}

/// The contents of an MCP server configuration.
pub struct KgCustomToolConfigView {
    pub url: String,
    pub headers: Map<Seq<char>, String>,
    pub command: String,
    pub args: Seq<String>,
    pub env: Map<Seq<char>, String>,
    pub timeout: Option<u64>,
    pub state: Option<McpServerState>,
}

impl View for KgCustomToolConfig {
    type V = KgCustomToolConfigView;

    open spec fn view(&self) -> KgCustomToolConfigView {
        KgCustomToolConfigView {
            url: self.url,
            headers: self.headers@,
            command: self.command,
            args: self.args@,
            env: self.env@,
            timeout: self.timeout,
            state: self.state,
        }
    }
}

/// `child` unless it is empty and `parent` is not.
pub open spec fn prefer_nonempty(child: String, parent: String) -> String {
    if child@.len() == 0 && parent@.len() != 0 {
        parent
    } else {
        child
    }
}

/// A child's server configuration merged with the parent's: the child keeps
/// what it sets; arguments are the child's followed by the parent's; on a
/// shared environment variable or header the child's value wins.
pub open spec fn mcp_merged(c: KgCustomToolConfigView, p: KgCustomToolConfigView) -> KgCustomToolConfigView {
    KgCustomToolConfigView {
        url: prefer_nonempty(c.url, p.url),
        headers: p.headers.union_prefer_right(c.headers),
        command: prefer_nonempty(c.command, p.command),
        args: c.args + p.args,
        env: p.env.union_prefer_right(c.env),
        timeout: prefer(c.timeout, p.timeout),
        state: prefer(c.state, p.state),
    }
}

/// Whether a key or value of a string map matches a query.
pub open spec fn map_matches(m: Map<Seq<char>, String>, q: (Seq<char>, bool)) -> bool {
    exists|k: Seq<char>| #[trigger] m.contains_key(k) && (query_matches(q.0, q.1, k) || query_matches(q.0, q.1, m[k]@))
}

/// Whether any string of a sequence matches a query.
pub open spec fn seq_matches(s: Seq<String>, q: (Seq<char>, bool)) -> bool {
    exists|i: int| 0 <= i < s.len() && query_matches(q.0, q.1, #[trigger] s[i]@)
}

/// Searches the keys and values of a string map.
pub fn search_map(m: &StringMap<String>, query: &SearchQuery<'_>) -> (r: bool)
    ensures
        r == map_matches(m@, query@),
{
    let n = m.len();
    proof {
        m.lemma_dom();
    }
    let mut i: usize = 0;
    while i < n
        invariant
            n == m.ordered_keys().len(),
            i <= n,
            m.ordered_keys().to_set() == m@.dom(),
            forall|j: int| 0 <= j < i ==> !(query_matches(query@.0, query@.1, #[trigger] m.ordered_keys()[j])
                || query_matches(query@.0, query@.1, m@[m.ordered_keys()[j]]@)),
        decreases n - i,
    {
        let (k, v) = m.entry_at(i);
        if query.matches(k.as_str()) || query.matches(v.as_str()) {
            assert(m@.contains_key(m.ordered_keys()[i as int]));
            return true;
        }
        i = i + 1;
    }
    proof {
        if map_matches(m@, query@) {
            let k = choose|k: Seq<char>| #[trigger] m@.contains_key(k) && (query_matches(query@.0, query@.1, k) || query_matches(query@.0, query@.1, m@[k]@));
            assert(m.ordered_keys().to_set().contains(k));
            let j = choose|j: int| 0 <= j < m.ordered_keys().len() && m.ordered_keys()[j] == k;
            assert(!(query_matches(query@.0, query@.1, m.ordered_keys()[j]) || query_matches(query@.0, query@.1, m@[m.ordered_keys()[j]]@)));
        }
    }
    false
}

/// Searches the strings of a vector.
pub fn search_vec(v: &Vec<String>, query: &SearchQuery<'_>) -> (r: bool)
    ensures
        r == seq_matches(v@, query@),
{
    let mut i: usize = 0;
    while i < v.len()
        invariant
            i <= v.len(),
            forall|j: int| 0 <= j < i ==> !query_matches(query@.0, query@.1, #[trigger] v@[j]@),
        decreases v.len() - i,
    {
        if query.matches(v[i].as_str()) {
            return true;
        }
        i = i + 1;
    }
    false
}

impl KgCustomToolConfig {
    /// Merge child (self) with parent (other). Child wins for explicit values.
    pub fn merge(self, other: Self) -> (r: Self)
        ensures
            r@ == mcp_merged(self@, other@),
    {
        let mut s = self;
        let mut other = other;
        if s.timeout.is_none() && other.timeout.is_some() {
            s.timeout = other.timeout;
        }
        if s.state.is_none() {
            s.state = other.state;
        }
        if s.url.as_str().unicode_len() == 0 && other.url.as_str().unicode_len() != 0 {
            s.url = other.url;
        }
        if s.command.as_str().unicode_len() == 0 && other.command.as_str().unicode_len() != 0 {
            s.command = other.command;
        }
        let ghost child_args = s.args@;
        let ghost parent_args = other.args@;
        s.args.append(&mut other.args);
        let mut env = other.env;
        env.extend(s.env);
        s.env = env;
        let mut headers = other.headers;
        headers.extend(s.headers);
        s.headers = headers;
        s
    }
}

impl Searchable for KgCustomToolConfig {
    /// Matches the URL, the command, an argument, an environment variable's
    /// name or value, a header's name or value, or the state's name.
    open spec fn searched(&self, q: (Seq<char>, bool)) -> bool {
        ||| query_matches(q.0, q.1, self.url@)
        ||| query_matches(q.0, q.1, self.command@)
        ||| seq_matches(self.args@, q)
        ||| map_matches(self.env@, q)
        ||| map_matches(self.headers@, q)
        ||| (self.state is Some && query_matches(q.0, q.1, self.state->0.name_spec()))
    }

    fn search(&self, query: &SearchQuery<'_>) -> (r: bool) {
        query.matches(self.url.as_str())
            || query.matches(self.command.as_str())
            || search_vec(&self.args, query)
            || search_map(&self.env, query)
            || search_map(&self.headers, query)
            || match &self.state {
                Some(state) => query.matches(state.name()),
                None => false,
            }
    }
}

/// A server configuration matches a query exactly when its URL, its
/// command, one of its arguments, the name or value of one of its
/// environment variables or headers, or the name of its state matches it.
pub proof fn lemma_server_search_fields(c: KgCustomToolConfig, q: (Seq<char>, bool))
    ensures
        query_matches(q.0, q.1, c.url@) ==> c.searched(q),
        query_matches(q.0, q.1, c.command@) ==> c.searched(q),
        forall|i: int| 0 <= i < c.args@.len() && query_matches(q.0, q.1, (#[trigger] c.args@[i])@) ==> c.searched(q),
        forall|k: Seq<char>| #[trigger] c.env@.contains_key(k)
            && (query_matches(q.0, q.1, k) || query_matches(q.0, q.1, c.env@[k]@)) ==> c.searched(q),
        forall|k: Seq<char>| #[trigger] c.headers@.contains_key(k)
            && (query_matches(q.0, q.1, k) || query_matches(q.0, q.1, c.headers@[k]@)) ==> c.searched(q),
        c.state is Some && query_matches(q.0, q.1, c.state->0.name_spec()) ==> c.searched(q),
        c.searched(q) ==> {
            ||| query_matches(q.0, q.1, c.url@)
            ||| query_matches(q.0, q.1, c.command@)
            ||| exists|i: int| 0 <= i < c.args@.len() && query_matches(q.0, q.1, (#[trigger] c.args@[i])@)
            ||| exists|k: Seq<char>| #[trigger] c.env@.contains_key(k)
                && (query_matches(q.0, q.1, k) || query_matches(q.0, q.1, c.env@[k]@))
            ||| exists|k: Seq<char>| #[trigger] c.headers@.contains_key(k)
                && (query_matches(q.0, q.1, k) || query_matches(q.0, q.1, c.headers@[k]@))
            ||| c.state is Some && query_matches(q.0, q.1, c.state->0.name_spec())
        },
{
}

/// A merged server configuration keeps what the child sets: its non-empty
/// URL and command, its timeout and state, its environment variables and
/// headers (the parent's only fill names the child lacks); its arguments
/// come first, then the parent's.
pub proof fn lemma_server_child_wins(c: KgCustomToolConfigView, p: KgCustomToolConfigView)
    ensures
        c.url@.len() > 0 ==> mcp_merged(c, p).url == c.url,
        c.url@.len() == 0 ==> mcp_merged(c, p).url@ == p.url@,
        c.command@.len() > 0 ==> mcp_merged(c, p).command == c.command,
        c.command@.len() == 0 ==> mcp_merged(c, p).command@ == p.command@,
        c.timeout is Some ==> mcp_merged(c, p).timeout == c.timeout,
        c.timeout is None ==> mcp_merged(c, p).timeout == p.timeout,
        c.state is Some ==> mcp_merged(c, p).state == c.state,
        c.state is None ==> mcp_merged(c, p).state == p.state,
        mcp_merged(c, p).args == c.args + p.args,
        forall|k: Seq<char>| #[trigger] mcp_merged(c, p).env.contains_key(k) <==> (c.env.contains_key(k) || p.env.contains_key(k)),
        forall|k: Seq<char>| #[trigger] c.env.contains_key(k) ==> mcp_merged(c, p).env[k] == c.env[k],
        forall|k: Seq<char>| p.env.contains_key(k) && !c.env.contains_key(k) ==> #[trigger] mcp_merged(c, p).env[k] == p.env[k],
        forall|k: Seq<char>| #[trigger] mcp_merged(c, p).headers.contains_key(k)
            <==> (c.headers.contains_key(k) || p.headers.contains_key(k)),
        forall|k: Seq<char>| #[trigger] c.headers.contains_key(k) ==> mcp_merged(c, p).headers[k] == c.headers[k],
        forall|k: Seq<char>| p.headers.contains_key(k) && !c.headers.contains_key(k)
            ==> #[trigger] mcp_merged(c, p).headers[k] == p.headers[k],
{
}

impl Clone for KgCustomToolConfig {
    fn clone(&self) -> (r: Self)
        ensures
            r@ == self@,
    {
        KgCustomToolConfig {
            url: self.url.clone(),
            headers: self.headers.duplicate(),
            command: self.command.clone(),
            args: clone_strings(&self.args),
            env: self.env.duplicate(),
            timeout: self.timeout,
            state: self.state,
        }
    }
}

/// A copy of a vector of strings.
pub fn clone_strings(v: &Vec<String>) -> (r: Vec<String>)
    ensures
        r@ == v@,
{
    let r = v.clone();
    assert(r@ =~= v@);
    r
}

impl Default for KgCustomToolConfig {
    fn default() -> (r: Self)
        ensures
            r@.url@.len() == 0,
            r@.headers == Map::<Seq<char>, String>::empty(),
            r@.command@.len() == 0,
            r@.args.len() == 0,
            r@.env == Map::<Seq<char>, String>::empty(),
            r@.timeout is None,
            r@.state is None,
    {
        KgCustomToolConfig {
            url: String::new(),
            headers: StringMap::new(),
            command: String::new(),
            args: Vec::new(),
            env: StringMap::new(),
            timeout: None,
            state: None,
        }
    }
}

impl Merge for KgCustomToolConfig {
    type Model = KgCustomToolConfigView;

    open spec fn model(&self) -> KgCustomToolConfigView {
        self@
    }

    open spec fn merge_model(child: KgCustomToolConfigView, parent: KgCustomToolConfigView) -> KgCustomToolConfigView {
        mcp_merged(child, parent)
    }

    fn merge_parent(self, parent: Self) -> (r: Self) {
        self.merge(parent)
    }

    fn copy(&self) -> (r: Self) {
        self.clone()
    }
}

} // verus!
