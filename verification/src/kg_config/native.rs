//! Permissions for the built-in tools, as manifests declare them, and their
//! translation into agent tool settings.
use vstd::prelude::*;
use crate::kiro::hook::prefer;
use crate::set::StringSet;
use crate::kiro::tools::{
    AwsTool as KiroAwsTool, ExecuteShellTool as KiroShellTool, GlobTool as KiroGlobTool,
    GrepTool as KiroGrepTool, ReadTool as KiroReadTool, WebFetchTool as KiroWebFetchTool,
    WriteTool as KiroWriteTool,
};
use crate::kg_config::search::{SearchQuery, Searchable};
use crate::kg_config::resources::locations_match;

verus! {

/// Allow, deny and force-allow lists of one built-in tool.
#[derive(Clone, Debug, PartialEq, Eq)]
pub struct NativeTool {
    pub allows: StringSet,
    pub denies: StringSet,
    pub force_allow: StringSet,
    pub auto_allow_readonly: Option<bool>,
    pub deny_by_default: Option<bool>,
}

pub type ExecuteShellTool = NativeTool;
pub type AwsTool = NativeTool;
pub type WriteTool = NativeTool;
pub type ReadTool = NativeTool;
pub type GlobTool = NativeTool;
pub type GrepTool = NativeTool;
pub type WebFetchTool = NativeTool;

/// The contents of one tool's permissions.
pub struct NativeToolView {
    pub allows: Set<Seq<char>>,
    pub denies: Set<Seq<char>>,
    pub force_allow: Set<Seq<char>>,
    pub auto_allow_readonly: Option<bool>,
    pub deny_by_default: Option<bool>,
}

impl View for NativeTool {
    type V = NativeToolView;

    open spec fn view(&self) -> NativeToolView {
        NativeToolView {
            allows: self.allows@,
            denies: self.denies@,
            force_allow: self.force_allow@,
            auto_allow_readonly: self.auto_allow_readonly,
            deny_by_default: self.deny_by_default,
        }
    }
}

/// Lists are united; flags the child leaves unset come from the parent.
pub open spec fn native_tool_merged(c: NativeToolView, p: NativeToolView) -> NativeToolView {
    NativeToolView {
        allows: c.allows.union(p.allows),
        denies: c.denies.union(p.denies),
        force_allow: c.force_allow.union(p.force_allow),
        auto_allow_readonly: prefer(c.auto_allow_readonly, p.auto_allow_readonly),
        deny_by_default: prefer(c.deny_by_default, p.deny_by_default),
    }
}

/// A merged tool keeps each flag the child sets and takes the parent's only
/// where the child leaves it unset; its allow, deny and force-allow lists
/// hold exactly the entries of either side.
pub proof fn lemma_native_child_wins(c: NativeToolView, p: NativeToolView)
    ensures
        c.deny_by_default is Some ==> native_tool_merged(c, p).deny_by_default == c.deny_by_default,
        c.deny_by_default is None ==> native_tool_merged(c, p).deny_by_default == p.deny_by_default,
        c.auto_allow_readonly is Some ==> native_tool_merged(c, p).auto_allow_readonly == c.auto_allow_readonly,
        c.auto_allow_readonly is None ==> native_tool_merged(c, p).auto_allow_readonly == p.auto_allow_readonly,
        forall|x: Seq<char>| native_tool_merged(c, p).allows.contains(x) <==> (c.allows.contains(x) || p.allows.contains(x)),
        forall|x: Seq<char>| native_tool_merged(c, p).denies.contains(x) <==> (c.denies.contains(x) || p.denies.contains(x)),
        forall|x: Seq<char>| native_tool_merged(c, p).force_allow.contains(x)
            <==> (c.force_allow.contains(x) || p.force_allow.contains(x)),
{
}

/// The permissions of the default (empty) configuration.
pub open spec fn native_tool_is_default(t: NativeToolView) -> bool {
    &&& t.allows.len() == 0
    &&& t.denies.len() == 0
    &&& t.force_allow.len() == 0
    &&& t.auto_allow_readonly is None
    &&& t.deny_by_default is None
}

/// What a tool allows once forced entries are added: its allows and its
/// force-allows.
pub open spec fn effective_allows(t: NativeToolView) -> Set<Seq<char>> {
    t.allows.union(t.force_allow)
}

/// What a tool denies once forced entries are taken out.
pub open spec fn effective_denies(t: NativeToolView) -> Set<Seq<char>> {
    t.denies.difference(t.force_allow)
}

/// Force-allowed entries win: an entry that the child or the parent
/// force-allows is allowed, and not denied, by the merged tool, whatever
/// either denies.
pub proof fn lemma_force_allow_wins(c: NativeToolView, p: NativeToolView, x: Seq<char>)
    requires
        c.force_allow.contains(x) || p.force_allow.contains(x),
    ensures
        effective_allows(native_tool_merged(c, p)).contains(x),
        !effective_denies(native_tool_merged(c, p)).contains(x),
{
}

/// A tool with no settings has empty lists and unset flags.
pub proof fn lemma_default_tool_empty(t: &NativeTool)
    requires
        native_tool_is_default(t@),
    ensures
        t@.allows == Set::<Seq<char>>::empty(),
        t@.denies == Set::<Seq<char>>::empty(),
        t@.force_allow == Set::<Seq<char>>::empty(),
{
    t.allows.lemma_view();
    t.denies.lemma_view();
    t.force_allow.lemma_view();
    vstd::set_lib::lemma_set_empty_equivalency_len(t@.allows);
    vstd::set_lib::lemma_set_empty_equivalency_len(t@.denies);
    vstd::set_lib::lemma_set_empty_equivalency_len(t@.force_allow);
}

impl NativeTool {
    /// Merges this (child) tool with the parent's `other`.
    pub fn merge(self, other: Self) -> (r: Self)
        ensures
            r@ == native_tool_merged(self@, other@),
    {
        let mut s = self;
        s.allows.extend(other.allows);
        s.denies.extend(other.denies);
        s.force_allow.extend(other.force_allow);
        s.auto_allow_readonly = match s.auto_allow_readonly {
            Some(v) => Some(v),
            None => other.auto_allow_readonly,
        };
        s.deny_by_default = match s.deny_by_default {
            Some(v) => Some(v),
            None => other.deny_by_default,
        };
        s
    }

    /// Whether this is the default (empty) configuration.
    pub fn is_default(&self) -> (b: bool)
        ensures
            b == native_tool_is_default(self@),
    {
        proof {
            self.allows.lemma_view();
            self.denies.lemma_view();
            self.force_allow.lemma_view();
        }
        self.allows.len() == 0 && self.denies.len() == 0 && self.force_allow.len() == 0
            && self.auto_allow_readonly.is_none() && self.deny_by_default.is_none()
    }

    /// The allow and deny lists with the force-allowed entries moved from the
    /// deny list into the allow list.
    pub fn effective_lists(&self) -> (r: (StringSet, StringSet))
        ensures
            r.0@ == effective_allows(self@),
            r.1@ == effective_denies(self@),
    {
        forced_lists(&self.allows, &self.denies, &self.force_allow)
    }
}

/// `allows` and `denies` with the entries of `forced` moved from the deny
/// list into the allow list.
pub fn forced_lists(allows: &StringSet, denies: &StringSet, forced: &StringSet) -> (r: (StringSet, StringSet))
    ensures
        r.0@ == allows@.union(forced@),
        r.1@ == denies@.difference(forced@),
{
    let mut out_allows = allows.duplicate();
    let mut out_denies = denies.duplicate();
    let items = forced.as_vec();
    let mut i: usize = 0;
    while i < items.len()
        invariant
            i <= items.len(),
            crate::set::views(items@) == forced.ordered(),
            forced.ordered().to_set() == forced@,
            out_allows@ == allows@.union(forced.ordered().take(i as int).to_set()),
            out_denies@ == denies@.difference(forced.ordered().take(i as int).to_set()),
        decreases items.len() - i,
    {
        let item = items[i].clone();
        out_denies.remove(item.as_str());
        out_allows.insert(item);
        proof {
            let o = forced.ordered();
            assert(o.take(i + 1) =~= o.take(i as int).push(o[i as int]));
            o.take(i as int).lemma_push_to_set_commute(o[i as int]);
            assert(out_allows@ =~= allows@.union(o.take(i + 1).to_set()));
            assert(out_denies@ =~= denies@.difference(o.take(i + 1).to_set()));
        }
        i = i + 1;
    }
    proof {
        assert(forced.ordered().take(items.len() as int) =~= forced.ordered());
    }
    (out_allows, out_denies)
}

impl Default for NativeTool {
    fn default() -> (r: Self)
        ensures
            native_tool_is_default(r@),
            r@.allows == Set::<Seq<char>>::empty(),
            r@.denies == Set::<Seq<char>>::empty(),
            r@.force_allow == Set::<Seq<char>>::empty(),
    {
        NativeTool {
            allows: StringSet::new(),
            denies: StringSet::new(),
            force_allow: StringSet::new(),
            auto_allow_readonly: None,
            deny_by_default: None,
        }
    }
}

impl Searchable for NativeTool {
    /// Matches an entry of the allow, deny or force-allow list.
    open spec fn searched(&self, q: (Seq<char>, bool)) -> bool {
        locations_match(self.allows@, q) || locations_match(self.denies@, q)
            || locations_match(self.force_allow@, q)
    }

    fn search(&self, query: &SearchQuery<'_>) -> (r: bool) {
        search_set(&self.allows, query) || search_set(&self.denies, query) || search_set(&self.force_allow, query)
    }
}

/// Whether an element of a set matches a query.
pub fn search_set(s: &StringSet, query: &SearchQuery<'_>) -> (r: bool)
    ensures
        r == locations_match(s@, query@),
{
    let items = s.as_vec();
    let mut i: usize = 0;
    while i < items.len()
        invariant
            i <= items.len(),
            crate::set::views(items@) == s.ordered(),
            s.ordered().to_set() == s@,
            forall|j: int| 0 <= j < i ==> !crate::kg_config::search::query_matches(query@.0, query@.1, #[trigger] items@[j]@),
        decreases items.len() - i,
    {
        if query.matches(items[i].as_str()) {
            assert(s.ordered()[i as int] == items@[i as int]@);
            assert(s@.contains(items@[i as int]@));
            return true;
        }
        i = i + 1;
    }
    proof {
        if locations_match(s@, query@) {
            let l = choose|l: Seq<char>| #[trigger] s@.contains(l) && crate::kg_config::search::query_matches(query@.0, query@.1, l);
            let j = choose|j: int| 0 <= j < s.ordered().len() && s.ordered()[j] == l;
            assert(items@[j]@ == l);
        }
    }
    false
}

/// Permissions of every built-in tool.
#[derive(Clone, Debug, PartialEq, Eq)]
pub struct NativeTools {
    pub shell: ExecuteShellTool,
    pub aws: AwsTool,
    pub read: ReadTool,
    pub write: WriteTool,
    pub glob: GlobTool,
    pub grep: GrepTool,
    pub web_fetch: WebFetchTool,
}

/// The contents of every tool's permissions.
pub struct NativeToolsView {
    pub shell: NativeToolView,
    pub aws: NativeToolView,
    pub read: NativeToolView,
    pub write: NativeToolView,
    pub glob: NativeToolView,
    pub grep: NativeToolView,
    pub web_fetch: NativeToolView,
}

impl View for NativeTools {
    type V = NativeToolsView;

    open spec fn view(&self) -> NativeToolsView {
        NativeToolsView {
            shell: self.shell@,
            aws: self.aws@,
            read: self.read@,
            write: self.write@,
            glob: self.glob@,
            grep: self.grep@,
            web_fetch: self.web_fetch@,
        }
    }
}

/// Each tool merges with the parent's same tool.
pub open spec fn native_tools_merged(c: NativeToolsView, p: NativeToolsView) -> NativeToolsView {
    NativeToolsView {
        shell: native_tool_merged(c.shell, p.shell),
        aws: native_tool_merged(c.aws, p.aws),
        read: native_tool_merged(c.read, p.read),
        write: native_tool_merged(c.write, p.write),
        glob: native_tool_merged(c.glob, p.glob),
        grep: native_tool_merged(c.grep, p.grep),
        web_fetch: native_tool_merged(c.web_fetch, p.web_fetch),
    }
}

impl NativeTools {
    /// Merges this (child) configuration with the parent's `other`.
    pub fn merge(self, other: Self) -> (r: Self)
        ensures
            r@ == native_tools_merged(self@, other@),
    {
        NativeTools {
            shell: self.shell.merge(other.shell),
            aws: self.aws.merge(other.aws),
            read: self.read.merge(other.read),
            write: self.write.merge(other.write),
            glob: self.glob.merge(other.glob),
            grep: self.grep.merge(other.grep),
            web_fetch: self.web_fetch.merge(other.web_fetch),
        }
    }

    /// A configuration with the same contents.
    pub fn duplicate(&self) -> (r: Self)
        ensures
            r@ == self@,
    {
        NativeTools {
            shell: self.shell.duplicate(),
            aws: self.aws.duplicate(),
            read: self.read.duplicate(),
            write: self.write.duplicate(),
            glob: self.glob.duplicate(),
            grep: self.grep.duplicate(),
            web_fetch: self.web_fetch.duplicate(),
        }
    }

    /// The AWS settings: the service lists as declared; read-only calls
    /// allowed unless declared otherwise.
    pub fn to_kiro_aws(&self) -> (r: KiroAwsTool)
        ensures
            r.allowed_services@ == self@.aws.allows,
            r.denied_services@ == self@.aws.denies,
            r.auto_allow_readonly == match self@.aws.auto_allow_readonly { Some(b) => b, None => true },
    {
        KiroAwsTool {
            allowed_services: self.aws.allows.duplicate(),
            denied_services: self.aws.denies.duplicate(),
            auto_allow_readonly: match self.aws.auto_allow_readonly { Some(b) => b, None => true },
        }
    }

    /// The write settings: forced paths are allowed and not denied.
    pub fn to_kiro_write(&self) -> (r: KiroWriteTool)
        ensures
            r.allowed_paths@ == effective_allows(self@.write),
            r.denied_paths@ == effective_denies(self@.write),
    {
        let (allows, denies) = self.write.effective_lists();
        KiroWriteTool { allowed_paths: allows, denied_paths: denies }
    }

    /// The read settings: forced paths are allowed and not denied.
    pub fn to_kiro_read(&self) -> (r: KiroReadTool)
        ensures
            r.allowed_paths@ == effective_allows(self@.read),
            r.denied_paths@ == effective_denies(self@.read),
    {
        let (allows, denies) = self.read.effective_lists();
        KiroReadTool { allowed_paths: allows, denied_paths: denies }
    }

    /// The shell settings: forced commands are allowed and not denied; not
    /// denying by default and allowing read-only commands unless declared
    /// otherwise.
    pub fn to_kiro_shell(&self) -> (r: KiroShellTool)
        ensures
            r.allowed_commands@ == effective_allows(self@.shell),
            r.denied_commands@ == effective_denies(self@.shell),
            r.deny_by_default == match self@.shell.deny_by_default { Some(b) => b, None => false },
            r.auto_allow_readonly == match self@.shell.auto_allow_readonly { Some(b) => b, None => true },
    {
        let (allows, denies) = self.shell.effective_lists();
        KiroShellTool {
            allowed_commands: allows,
            denied_commands: denies,
            deny_by_default: match self.shell.deny_by_default { Some(b) => b, None => false },
            auto_allow_readonly: match self.shell.auto_allow_readonly { Some(b) => b, None => true },
        }
    }

    /// The glob settings: forced paths are allowed and not denied.
    pub fn to_kiro_glob(&self) -> (r: KiroGlobTool)
        ensures
            r.allowed_paths@ == effective_allows(self@.glob),
            r.denied_paths@ == effective_denies(self@.glob),
            r.allow_read_only == match self@.glob.auto_allow_readonly { Some(b) => b, None => false },
    {
        let (allows, denies) = self.glob.effective_lists();
        KiroGlobTool {
            allowed_paths: allows,
            denied_paths: denies,
            allow_read_only: match self.glob.auto_allow_readonly { Some(b) => b, None => false },
        }
    }

    /// The grep settings: forced paths are allowed and not denied.
    pub fn to_kiro_grep(&self) -> (r: KiroGrepTool)
        ensures
            r.allowed_paths@ == effective_allows(self@.grep),
            r.denied_paths@ == effective_denies(self@.grep),
            r.allow_read_only == match self@.grep.auto_allow_readonly { Some(b) => b, None => false },
    {
        let (allows, denies) = self.grep.effective_lists();
        KiroGrepTool {
            allowed_paths: allows,
            denied_paths: denies,
            allow_read_only: match self.grep.auto_allow_readonly { Some(b) => b, None => false },
        }
    }

    /// The web fetch settings: forced URLs are trusted and not blocked.
    pub fn to_kiro_web_fetch(&self) -> (r: KiroWebFetchTool)
        ensures
            r.trusted@ == effective_allows(self@.web_fetch),
            r.blocked@ == effective_denies(self@.web_fetch),
    {
        let (allows, denies) = self.web_fetch.effective_lists();
        KiroWebFetchTool { trusted: allows, blocked: denies }
    }

    /// Whether every tool has the default (empty) configuration.
    pub fn is_default(&self) -> (b: bool)
        ensures
            b == (native_tool_is_default(self@.shell) && native_tool_is_default(self@.aws)
                && native_tool_is_default(self@.read) && native_tool_is_default(self@.write)
                && native_tool_is_default(self@.glob) && native_tool_is_default(self@.grep)
                && native_tool_is_default(self@.web_fetch)),
    {
        self.shell.is_default() && self.aws.is_default() && self.read.is_default()
            && self.write.is_default() && self.glob.is_default() && self.grep.is_default()
            && self.web_fetch.is_default()
    }
}

impl NativeTool {
    /// A tool configuration with the same contents.
    pub fn duplicate(&self) -> (r: Self)
        ensures
            r@ == self@,
    {
        NativeTool {
            allows: self.allows.duplicate(),
            denies: self.denies.duplicate(),
            force_allow: self.force_allow.duplicate(),
            auto_allow_readonly: self.auto_allow_readonly,
            deny_by_default: self.deny_by_default,
        }
    }
}

impl Default for NativeTools {
    fn default() -> (r: Self)
        ensures
            native_tool_is_default(r@.shell),
            native_tool_is_default(r@.aws),
            native_tool_is_default(r@.read),
            native_tool_is_default(r@.write),
            native_tool_is_default(r@.glob),
            native_tool_is_default(r@.grep),
            native_tool_is_default(r@.web_fetch),
    {
        NativeTools {
            shell: NativeTool::default(),
            aws: NativeTool::default(),
            read: NativeTool::default(),
            write: NativeTool::default(),
            glob: NativeTool::default(),
            grep: NativeTool::default(),
            web_fetch: NativeTool::default(),
        }
    }
}

impl<'a> From<&'a NativeTools> for KiroAwsTool {
    fn from(value: &'a NativeTools) -> (r: Self)
        ensures
            r.allowed_services@ == value@.aws.allows,
            r.denied_services@ == value@.aws.denies,
            r.auto_allow_readonly == match value@.aws.auto_allow_readonly { Some(b) => b, None => true },
    {
        value.to_kiro_aws()
    }
}

impl<'a> vstd::std_specs::convert::FromSpecImpl<&'a NativeTools> for KiroAwsTool {
    /// The conversion is stated on `from` itself, over the set views.
    open spec fn obeys_from_spec() -> bool {
        false
    }

    open spec fn from_spec(v: &'a NativeTools) -> Self {
        arbitrary()
    }
}

impl<'a> From<&'a NativeTools> for KiroWriteTool {
    fn from(value: &'a NativeTools) -> (r: Self)
        ensures
            r.allowed_paths@ == effective_allows(value@.write),
            r.denied_paths@ == effective_denies(value@.write),
    {
        value.to_kiro_write()
    }
}

impl<'a> vstd::std_specs::convert::FromSpecImpl<&'a NativeTools> for KiroWriteTool {
    /// The conversion is stated on `from` itself, over the set views.
    open spec fn obeys_from_spec() -> bool {
        false
    }

    open spec fn from_spec(v: &'a NativeTools) -> Self {
        arbitrary()
    }
}

impl<'a> From<&'a NativeTools> for KiroReadTool {
    fn from(value: &'a NativeTools) -> (r: Self)
        ensures
            r.allowed_paths@ == effective_allows(value@.read),
            r.denied_paths@ == effective_denies(value@.read),
    {
        value.to_kiro_read()
    }
}

impl<'a> vstd::std_specs::convert::FromSpecImpl<&'a NativeTools> for KiroReadTool {
    /// The conversion is stated on `from` itself, over the set views.
    open spec fn obeys_from_spec() -> bool {
        false
    }

    open spec fn from_spec(v: &'a NativeTools) -> Self {
        arbitrary()
    }
}

impl<'a> From<&'a NativeTools> for KiroShellTool {
    fn from(value: &'a NativeTools) -> (r: Self)
        ensures
            r.allowed_commands@ == effective_allows(value@.shell),
            r.denied_commands@ == effective_denies(value@.shell),
    {
        value.to_kiro_shell()
    }
}

impl<'a> vstd::std_specs::convert::FromSpecImpl<&'a NativeTools> for KiroShellTool {
    /// The conversion is stated on `from` itself, over the set views.
    open spec fn obeys_from_spec() -> bool {
        false
    }

    open spec fn from_spec(v: &'a NativeTools) -> Self {
        arbitrary()
    }
}

/// A built-in tool's settings match a query exactly when one of its
/// allowed, denied or force-allowed entries does.
pub proof fn lemma_native_tool_search(t: NativeTool, q: (Seq<char>, bool))
    ensures
        t.searched(q) <==> {
            ||| exists|x: Seq<char>| #[trigger] t.allows@.contains(x) && crate::kg_config::search::query_matches(q.0, q.1, x)
            ||| exists|x: Seq<char>| #[trigger] t.denies@.contains(x) && crate::kg_config::search::query_matches(q.0, q.1, x)
            ||| exists|x: Seq<char>| #[trigger] t.force_allow@.contains(x) && crate::kg_config::search::query_matches(q.0, q.1, x)
        },
{
}

} // verus!
