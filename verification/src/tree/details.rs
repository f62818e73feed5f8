//! What each agent declares, layer by layer, and where it is written.
use vstd::prelude::*;
use crate::generator::{Generator, graph_of, destination_spec, is_local_spec, home_dir};
use crate::generator::graph::ancestors;
use crate::generator::merge::{well_founded, inheritance_chain_spec};
use crate::kg_config::manifest::{Manifest, manifest_is_empty};
use crate::kg_config::native::native_tool_is_default;
use crate::map::StringMap;
use crate::set::{StringSet, views};
use crate::source::{AgentSourceSlots, SourceSlot};
use crate::text::{concat, join_path, path_joined};

verus! {

/// `name` when `b` holds, else nothing.
pub open spec fn flag(b: bool, name: Seq<char>) -> Seq<Seq<char>> {
    if b {
        seq![name]
    } else {
        Seq::empty()
    }
}

/// Each key with `prefix` before it.
pub open spec fn prefixed(prefix: Seq<char>, keys: Seq<Seq<char>>) -> Seq<Seq<char>> {
    keys.map_values(|k: Seq<char>| prefix + k)
}

/// The settings a declaration makes, in a fixed order; a map setting is
/// listed once per entry, as `<setting>.<key>` in ascending order of key.
pub open spec fn manifest_fields_spec(m: Manifest) -> Seq<Seq<char>> {
    fields_head(m) + fields_tools(m) + fields_native(m) + fields_tail(m)
}

/// Template flag, description, parents, prompt, resources, skills and
/// knowledge bases.
pub open spec fn fields_head(m: Manifest) -> Seq<Seq<char>> {
    flag(m.template, "template"@)
    + flag(m.description is Some, "description"@)
    + flag(m.inherits@ != Set::<Seq<char>>::empty(), "inherits"@)
    + flag(m.prompt is Some, "prompt"@)
    + prefixed("resources."@, m.resources.ordered_keys())
    + prefixed("skills."@, m.skills.ordered_keys())
    + prefixed("knowledge."@, m.knowledge.ordered_keys())
}

/// Legacy MCP flag, tools, allowed tools, model, hooks, MCP servers and
/// tool aliases.
pub open spec fn fields_tools(m: Manifest) -> Seq<Seq<char>> {
    flag(m.include_mcp_json is Some, "useLegacyMcpJson"@)
    + flag(m.tools@ != Set::<Seq<char>>::empty(), "tools"@)
    + flag(m.allowed_tools@ != Set::<Seq<char>>::empty(), "allowedTools"@)
    + flag(m.model is Some, "model"@)
    + prefixed("hooks."@, m.hooks.ordered_keys())
    + prefixed("mcpServers."@, m.mcp_servers.ordered_keys())
    + prefixed("toolAliases."@, m.tool_aliases.ordered_keys())
}

/// The built-in tools that are configured.
pub open spec fn fields_native(m: Manifest) -> Seq<Seq<char>> {
    flag(!native_tool_is_default(m.native_tools.shell@), "nativeTools.shell"@)
    + flag(!native_tool_is_default(m.native_tools.aws@), "nativeTools.aws"@)
    + flag(!native_tool_is_default(m.native_tools.read@), "nativeTools.read"@)
    + flag(!native_tool_is_default(m.native_tools.write@), "nativeTools.write"@)
    + flag(!native_tool_is_default(m.native_tools.web_fetch@), "nativeTools.web_fetch"@)
    + flag(!native_tool_is_default(m.native_tools.glob@), "nativeTools.glob"@)
    + flag(!native_tool_is_default(m.native_tools.grep@), "nativeTools.grep"@)
}

/// Tool settings, keyboard shortcut, welcome message and subagents.
pub open spec fn fields_tail(m: Manifest) -> Seq<Seq<char>> {
    prefixed("toolSettings."@, m.tool_settings.ordered_keys())
    + flag(m.keyboard_shortcut is Some, "keyboardShortcut"@)
    + flag(m.welcome_message is Some, "welcomeMessage"@)
    + flag(m.subagents@.allow.len() != 0 || m.subagents@.deny.len() != 0, "subagents"@)
}

fn push_flag(out: &mut Vec<String>, b: bool, name: &str)
    ensures
        views(final(out)@) == views(old(out)@) + flag(b, name@),
{
    if b {
        out.push(String::from_str(name));
        proof {
            assert(views(out@) =~= views(old(out)@) + flag(b, name@));
        }
    } else {
        assert(views(out@) =~= views(old(out)@) + flag(b, name@));
    }
}

fn push_prefixed(out: &mut Vec<String>, prefix: &str, keys: Vec<String>)
    ensures
        views(final(out)@) == views(old(out)@) + prefixed(prefix@, views(keys@)),
{
    let ghost start = views(out@);
    let mut i: usize = 0;
    while i < keys.len()
        invariant
            i <= keys.len(),
            views(out@) == start + prefixed(prefix@, views(keys@)).take(i as int),
        decreases keys.len() - i,
    {
        let ghost before = views(out@);
        out.push(concat(prefix, keys[i].as_str()));
        proof {
            let ps = prefixed(prefix@, views(keys@));
            assert(ps[i as int] == prefix@ + keys@[i as int]@);
            assert(views(out@) =~= before.push(ps[i as int]));
            assert(ps.take(i + 1) =~= ps.take(i as int).push(ps[i as int]));
        }
        i = i + 1;
    }
    proof {
        let ps = prefixed(prefix@, views(keys@));
        assert(ps.take(keys.len() as int) =~= ps);
    }
}

fn push_head(fields: &mut Vec<String>, manifest: &Manifest)
    ensures
        views(final(fields)@) == views(old(fields)@) + fields_head(*manifest),
{
    proof {
        manifest.inherits.lemma_view();
        vstd::set_lib::lemma_set_empty_equivalency_len(manifest.inherits@);
    }
    let ghost start = views(fields@);
    push_flag(fields, manifest.template, "template");
    push_flag(fields, manifest.description.is_some(), "description");
    push_flag(fields, !manifest.inherits.is_empty(), "inherits");
    push_flag(fields, manifest.prompt.is_some(), "prompt");
    push_prefixed(fields, "resources.", manifest.resources.keys());
    push_prefixed(fields, "skills.", manifest.skills.keys());
    push_prefixed(fields, "knowledge.", manifest.knowledge.keys());
    assert(views(fields@) =~= start + fields_head(*manifest));
}

fn push_tools(fields: &mut Vec<String>, manifest: &Manifest)
    ensures
        views(final(fields)@) == views(old(fields)@) + fields_tools(*manifest),
{
    proof {
        manifest.tools.lemma_view();
        manifest.allowed_tools.lemma_view();
        vstd::set_lib::lemma_set_empty_equivalency_len(manifest.tools@);
        vstd::set_lib::lemma_set_empty_equivalency_len(manifest.allowed_tools@);
    }
    let ghost start = views(fields@);
    push_flag(fields, manifest.include_mcp_json.is_some(), "useLegacyMcpJson");
    push_flag(fields, !manifest.tools.is_empty(), "tools");
    push_flag(fields, !manifest.allowed_tools.is_empty(), "allowedTools");
    push_flag(fields, manifest.model.is_some(), "model");
    push_prefixed(fields, "hooks.", manifest.hooks.keys());
    push_prefixed(fields, "mcpServers.", manifest.mcp_servers.keys());
    push_prefixed(fields, "toolAliases.", manifest.tool_aliases.keys());
    assert(views(fields@) =~= start + fields_tools(*manifest));
}

fn push_native(fields: &mut Vec<String>, manifest: &Manifest)
    ensures
        views(final(fields)@) == views(old(fields)@) + fields_native(*manifest),
{
    let t = &manifest.native_tools;
    let mut local: Vec<String> = Vec::new();
    proof {
        assert(views(local@) =~= Seq::<Seq<char>>::empty());
    }
    push_flag(&mut local, !t.shell.is_default(), "nativeTools.shell");
    proof {
        assert(views(local@) =~= flag(!native_tool_is_default(t.shell@), "nativeTools.shell"@));
    }
    push_flag(&mut local, !t.aws.is_default(), "nativeTools.aws");
    push_flag(&mut local, !t.read.is_default(), "nativeTools.read");
    push_flag(&mut local, !t.write.is_default(), "nativeTools.write");
    push_flag(&mut local, !t.web_fetch.is_default(), "nativeTools.web_fetch");
    push_flag(&mut local, !t.glob.is_default(), "nativeTools.glob");
    push_flag(&mut local, !t.grep.is_default(), "nativeTools.grep");
    let ghost before = views(fields@);
    let mut i: usize = 0;
    while i < local.len()
        invariant
            i <= local@.len(),
            views(fields@) == before + views(local@).take(i as int),
        decreases local.len() - i,
    {
        let ghost cur = views(fields@);
        fields.push(local[i].clone());
        proof {
            assert(views(fields@) =~= cur.push(local@[i as int]@));
            assert(views(local@).take(i + 1) =~= views(local@).take(i as int).push(local@[i as int]@));
        }
        i = i + 1;
    }
    proof {
        assert(views(local@).take(local@.len() as int) =~= views(local@));
    }
}

fn push_tail(fields: &mut Vec<String>, manifest: &Manifest)
    ensures
        views(final(fields)@) == views(old(fields)@) + fields_tail(*manifest),
{
    let ghost start = views(fields@);
    push_prefixed(fields, "toolSettings.", manifest.tool_settings.keys());
    push_flag(fields, manifest.keyboard_shortcut.is_some(), "keyboardShortcut");
    push_flag(fields, manifest.welcome_message.is_some(), "welcomeMessage");
    push_flag(fields, !manifest.subagents.is_default(), "subagents");
    assert(views(fields@) =~= start + fields_tail(*manifest));
}

/// Which entry of the field list a setting name belongs to, read from its
/// first characters: 1 to 25 in the order `manifest_fields_spec` lists them.
pub open spec fn field_tag(s: Seq<char>) -> int {
    let c = s[0];
    if s.len() == 0 {
        0
    } else if c == 't' {
        if s[1] == 'e' { 1 } else if s[4] == 'A' { 14 } else if s[4] == 'S' { 22 } else { 9 }
    } else if c == 'd' { 2 }
    else if c == 'i' { 3 }
    else if c == 'p' { 4 }
    else if c == 'r' { 5 }
    else if c == 's' { if s[1] == 'k' { 6 } else { 25 } }
    else if c == 'k' { if s[1] == 'n' { 7 } else { 23 } }
    else if c == 'u' { 8 }
    else if c == 'a' { 10 }
    else if c == 'm' { if s[1] == 'o' { 11 } else { 13 } }
    else if c == 'h' { 12 }
    else if c == 'n' {
        if s[12] == 's' { 15 }
        else if s[12] == 'a' { 16 }
        else if s[12] == 'r' { 17 }
        else if s[12] == 'w' { if s[13] == 'r' { 18 } else { 19 } }
        else if s[13] == 'l' { 20 }
        else { 21 }
    }
    else if c == 'w' { 24 }
    else { 0 }
}

/// The entries of the field list, one per setting, in order.
pub open spec fn field_blocks(m: Manifest) -> Seq<Seq<Seq<char>>> {
    seq![
        flag(m.template, "template"@),
        flag(m.description is Some, "description"@),
        flag(m.inherits@ != Set::<Seq<char>>::empty(), "inherits"@),
        flag(m.prompt is Some, "prompt"@),
        prefixed("resources."@, m.resources.ordered_keys()),
        prefixed("skills."@, m.skills.ordered_keys()),
        prefixed("knowledge."@, m.knowledge.ordered_keys()),
        flag(m.include_mcp_json is Some, "useLegacyMcpJson"@),
        flag(m.tools@ != Set::<Seq<char>>::empty(), "tools"@),
        flag(m.allowed_tools@ != Set::<Seq<char>>::empty(), "allowedTools"@),
        flag(m.model is Some, "model"@),
        prefixed("hooks."@, m.hooks.ordered_keys()),
        prefixed("mcpServers."@, m.mcp_servers.ordered_keys()),
        prefixed("toolAliases."@, m.tool_aliases.ordered_keys()),
        flag(!native_tool_is_default(m.native_tools.shell@), "nativeTools.shell"@),
        flag(!native_tool_is_default(m.native_tools.aws@), "nativeTools.aws"@),
        flag(!native_tool_is_default(m.native_tools.read@), "nativeTools.read"@),
        flag(!native_tool_is_default(m.native_tools.write@), "nativeTools.write"@),
        flag(!native_tool_is_default(m.native_tools.web_fetch@), "nativeTools.web_fetch"@),
        flag(!native_tool_is_default(m.native_tools.glob@), "nativeTools.glob"@),
        flag(!native_tool_is_default(m.native_tools.grep@), "nativeTools.grep"@),
        prefixed("toolSettings."@, m.tool_settings.ordered_keys()),
        flag(m.keyboard_shortcut is Some, "keyboardShortcut"@),
        flag(m.welcome_message is Some, "welcomeMessage"@),
        flag(m.subagents@.allow.len() != 0 || m.subagents@.deny.len() != 0, "subagents"@),
    ]
}

/// The first `n` entries of `bs` joined.
pub open spec fn concat_first(bs: Seq<Seq<Seq<char>>>, n: nat) -> Seq<Seq<char>>
    decreases n,
{
    if n == 0 {
        Seq::empty()
    } else {
        concat_first(bs, (n - 1) as nat) + bs[n - 1]
    }
}

proof fn lemma_concat_tagged(bs: Seq<Seq<Seq<char>>>, n: nat)
    requires
        n <= bs.len(),
        forall|b: int| 0 <= b < bs.len() ==> (#[trigger] bs[b]).no_duplicates(),
        forall|b: int, i: int| 0 <= b < bs.len() && 0 <= i < bs[b].len() ==> field_tag(#[trigger] bs[b][i]) == b + 1,
    ensures
        concat_first(bs, n).no_duplicates(),
        forall|i: int| 0 <= i < concat_first(bs, n).len() ==> {
            let e = #[trigger] concat_first(bs, n)[i];
            1 <= field_tag(e) <= n && bs[field_tag(e) - 1].contains(e)
        },
        forall|b: int, x: Seq<char>| 0 <= b < n && #[trigger] bs[b].contains(x) ==> concat_first(bs, n).contains(x),
    decreases n,
{
    if n > 0 {
        lemma_concat_tagged(bs, (n - 1) as nat);
        let a = concat_first(bs, (n - 1) as nat);
        let blk = bs[n - 1];
        let c = concat_first(bs, n);
        assert(c == a + blk);
        assert forall|i: int| 0 <= i < c.len() implies {
            let e = #[trigger] c[i];
            1 <= field_tag(e) <= n && bs[field_tag(e) - 1].contains(e)
        } by {
            if i < a.len() {
                assert(c[i] == a[i]);
            } else {
                assert(c[i] == blk[i - a.len()]);
                assert(field_tag(blk[i - a.len()]) == n);
            }
        }
        assert forall|i: int, j: int| 0 <= i < c.len() && 0 <= j < c.len() && i != j implies c[i] != c[j] by {
            if i < a.len() && j < a.len() {
                assert(c[i] == a[i] && c[j] == a[j]);
            } else if i >= a.len() && j >= a.len() {
                assert(c[i] == blk[i - a.len()] && c[j] == blk[j - a.len()]);
            } else if i < a.len() {
                assert(c[i] == a[i]);
                assert(c[j] == blk[j - a.len()]);
                assert(field_tag(blk[j - a.len()]) == n);
            } else {
                assert(c[j] == a[j]);
                assert(c[i] == blk[i - a.len()]);
                assert(field_tag(blk[i - a.len()]) == n);
            }
        }
        assert forall|b: int, x: Seq<char>| 0 <= b < n && #[trigger] bs[b].contains(x) implies c.contains(x) by {
            if b < n - 1 {
                assert(a.contains(x));
                let k = choose|k: int| 0 <= k < a.len() && a[k] == x;
                assert(c[k] == x);
            } else {
                let k = choose|k: int| 0 <= k < blk.len() && blk[k] == x;
                assert(c[a.len() + k] == x);
            }
        }
    }
}

proof fn lemma_fields_concat(m: Manifest)
    ensures
        manifest_fields_spec(m) == concat_first(field_blocks(m), 25),
{
    let bs = field_blocks(m);
    assert(concat_first(bs, 7) =~= fields_head(m)) by {
        reveal_with_fuel(concat_first, 8);
    }
    assert(concat_first(bs, 14) =~= fields_head(m) + fields_tools(m)) by {
        lemma_concat_split(bs, 7, 14);
        assert(join_range(bs, 7, 14) =~= fields_tools(m)) by {
            reveal_with_fuel(join_range, 8);
        }
    }
    assert(concat_first(bs, 21) =~= fields_head(m) + fields_tools(m) + fields_native(m)) by {
        lemma_concat_split(bs, 14, 21);
        assert(join_range(bs, 14, 21) =~= fields_native(m)) by {
            reveal_with_fuel(join_range, 8);
        }
    }
    assert(concat_first(bs, 25) =~= manifest_fields_spec(m)) by {
        lemma_concat_split(bs, 21, 25);
        assert(join_range(bs, 21, 25) =~= fields_tail(m)) by {
            reveal_with_fuel(join_range, 5);
        }
    }
}

/// The entries `a` (inclusive) to `b` (exclusive) of `bs` joined.
spec fn join_range(bs: Seq<Seq<Seq<char>>>, a: nat, b: nat) -> Seq<Seq<char>>
    decreases b - a,
{
    if b <= a {
        Seq::empty()
    } else {
        join_range(bs, a, (b - 1) as nat) + bs[b - 1]
    }
}

proof fn lemma_concat_split(bs: Seq<Seq<Seq<char>>>, a: nat, b: nat)
    requires
        a <= b,
    ensures
        concat_first(bs, b) == concat_first(bs, a) + join_range(bs, a, b),
    decreases b - a,
{
    if b > a {
        lemma_concat_split(bs, a, (b - 1) as nat);
        assert(concat_first(bs, b) =~= concat_first(bs, a) + join_range(bs, a, b));
    } else {
        assert(concat_first(bs, b) =~= concat_first(bs, a) + join_range(bs, a, b));
    }
}

proof fn lemma_flag_block(b: bool, name: Seq<char>)
    ensures
        flag(b, name).no_duplicates(),
        forall|i: int| 0 <= i < flag(b, name).len() ==> flag(b, name)[i] == name,
{
}

proof fn lemma_prefixed_block(p: Seq<char>, keys: Seq<Seq<char>>)
    requires
        keys.no_duplicates(),
    ensures
        prefixed(p, keys).no_duplicates(),
        forall|i: int| 0 <= i < keys.len() ==> #[trigger] prefixed(p, keys)[i] == p + keys[i],
{
    let s = prefixed(p, keys);
    assert forall|i: int, j: int| 0 <= i < s.len() && 0 <= j < s.len() && i != j implies s[i] != s[j] by {
        if s[i] == s[j] {
            assert((p + keys[i]).skip(p.len() as int) =~= keys[i]);
            assert((p + keys[j]).skip(p.len() as int) =~= keys[j]);
        }
    }
}

proof fn lemma_blocks_tagged(m: Manifest)
    requires
        m.resources.ordered_keys().no_duplicates(),
        m.skills.ordered_keys().no_duplicates(),
        m.knowledge.ordered_keys().no_duplicates(),
        m.hooks.ordered_keys().no_duplicates(),
        m.mcp_servers.ordered_keys().no_duplicates(),
        m.tool_aliases.ordered_keys().no_duplicates(),
        m.tool_settings.ordered_keys().no_duplicates(),
    ensures
        forall|b: int| 0 <= b < field_blocks(m).len() ==> (#[trigger] field_blocks(m)[b]).no_duplicates(),
        forall|b: int, i: int| 0 <= b < field_blocks(m).len() && 0 <= i < field_blocks(m)[b].len()
            ==> field_tag(#[trigger] field_blocks(m)[b][i]) == b + 1,
{
    reveal_strlit("template");
    reveal_strlit("description");
    reveal_strlit("inherits");
    reveal_strlit("prompt");
    reveal_strlit("resources.");
    reveal_strlit("skills.");
    reveal_strlit("knowledge.");
    reveal_strlit("useLegacyMcpJson");
    reveal_strlit("tools");
    reveal_strlit("allowedTools");
    reveal_strlit("model");
    reveal_strlit("hooks.");
    reveal_strlit("mcpServers.");
    reveal_strlit("toolAliases.");
    reveal_strlit("nativeTools.shell");
    reveal_strlit("nativeTools.aws");
    reveal_strlit("nativeTools.read");
    reveal_strlit("nativeTools.write");
    reveal_strlit("nativeTools.web_fetch");
    reveal_strlit("nativeTools.glob");
    reveal_strlit("nativeTools.grep");
    reveal_strlit("toolSettings.");
    reveal_strlit("keyboardShortcut");
    reveal_strlit("welcomeMessage");
    reveal_strlit("subagents");
    let bs = field_blocks(m);
    let prefixes: Seq<(int, Seq<char>, Seq<Seq<char>>)> = seq![
        (4, "resources."@, m.resources.ordered_keys()),
        (5, "skills."@, m.skills.ordered_keys()),
        (6, "knowledge."@, m.knowledge.ordered_keys()),
        (11, "hooks."@, m.hooks.ordered_keys()),
        (12, "mcpServers."@, m.mcp_servers.ordered_keys()),
        (13, "toolAliases."@, m.tool_aliases.ordered_keys()),
        (21, "toolSettings."@, m.tool_settings.ordered_keys()),
    ];
    assert forall|b: int| 0 <= b < bs.len() implies (#[trigger] bs[b]).no_duplicates()
        && forall|i: int| 0 <= i < bs[b].len() ==> field_tag(#[trigger] bs[b][i]) == b + 1 by {
        if b == 4 || b == 5 || b == 6 || b == 11 || b == 12 || b == 13 || b == 21 {
            let k = if b == 4 { 0int } else if b == 5 { 1 } else if b == 6 { 2 } else if b == 11 { 3 }
                else if b == 12 { 4 } else if b == 13 { 5 } else { 6 };
            let (t, p, keys) = prefixes[k];
            assert(t == b && bs[b] == prefixed(p, keys));
            lemma_prefixed_block(p, keys);
            assert forall|i: int| 0 <= i < bs[b].len() implies field_tag(#[trigger] bs[b][i]) == b + 1 by {
                let e = bs[b][i];
                assert(e == p + keys[i]);
                assert(e[0] == p[0] && e[1] == p[1] && e[4] == p[4]);
            }
        } else {
            let name = if b == 0 { "template"@ } else if b == 1 { "description"@ } else if b == 2 { "inherits"@ }
                else if b == 3 { "prompt"@ } else if b == 7 { "useLegacyMcpJson"@ } else if b == 8 { "tools"@ }
                else if b == 9 { "allowedTools"@ } else if b == 10 { "model"@ } else if b == 14 { "nativeTools.shell"@ }
                else if b == 15 { "nativeTools.aws"@ } else if b == 16 { "nativeTools.read"@ }
                else if b == 17 { "nativeTools.write"@ } else if b == 18 { "nativeTools.web_fetch"@ }
                else if b == 19 { "nativeTools.glob"@ } else if b == 20 { "nativeTools.grep"@ }
                else if b == 22 { "keyboardShortcut"@ } else if b == 23 { "welcomeMessage"@ } else { "subagents"@ };
            assert(exists|x: bool| bs[b] == flag(x, name));
            let x = choose|x: bool| bs[b] == flag(x, name);
            lemma_flag_block(x, name);
            assert(field_tag(name) == b + 1);
        }
    }
}

/// The field list names no setting twice; it holds `template` exactly for a
/// template, `description` exactly when a description is set,
/// `nativeTools.shell` exactly when the shell tool is configured, and
/// `mcpServers.<name>` for each declared MCP server; it is empty for a
/// declaration that sets nothing and is no template.
proof fn lemma_fields_laws(m: Manifest)
    requires
        m.resources.ordered_keys().no_duplicates(),
        m.skills.ordered_keys().no_duplicates(),
        m.knowledge.ordered_keys().no_duplicates(),
        m.hooks.ordered_keys().no_duplicates(),
        m.mcp_servers.ordered_keys().no_duplicates(),
        m.tool_aliases.ordered_keys().no_duplicates(),
        m.tool_settings.ordered_keys().no_duplicates(),
        m.mcp_servers.ordered_keys().to_set() == m.mcp_servers@.dom(),
    ensures
        manifest_fields_spec(m).no_duplicates(),
        manifest_fields_spec(m).contains("template"@) == m.template,
        manifest_fields_spec(m).contains("description"@) == (m.description is Some),
        manifest_fields_spec(m).contains("nativeTools.shell"@) == !native_tool_is_default(m.native_tools.shell@),
        forall|k: Seq<char>| #[trigger] m.mcp_servers@.contains_key(k) ==> manifest_fields_spec(m).contains("mcpServers."@ + k),
{
    let bs = field_blocks(m);
    lemma_blocks_tagged(m);
    lemma_concat_tagged(bs, 25);
    lemma_fields_concat(m);
    let v = manifest_fields_spec(m);
    reveal_strlit("template");
    reveal_strlit("description");
    reveal_strlit("nativeTools.shell");
    reveal_strlit("mcpServers.");
    assert(field_tag("template"@) == 1);
    assert(field_tag("description"@) == 2);
    assert(field_tag("nativeTools.shell"@) == 15);
    if m.template {
        assert(bs[0][0] == "template"@);
        assert(bs[0].contains("template"@));
    }
    if v.contains("template"@) {
        let i = choose|i: int| 0 <= i < v.len() && v[i] == "template"@;
        assert(bs[0].contains("template"@));
    }
    if m.description is Some {
        assert(bs[1][0] == "description"@);
        assert(bs[1].contains("description"@));
    }
    if v.contains("description"@) {
        let i = choose|i: int| 0 <= i < v.len() && v[i] == "description"@;
        assert(bs[1].contains("description"@));
    }
    if !native_tool_is_default(m.native_tools.shell@) {
        assert(bs[14][0] == "nativeTools.shell"@);
        assert(bs[14].contains("nativeTools.shell"@));
    }
    if v.contains("nativeTools.shell"@) {
        let i = choose|i: int| 0 <= i < v.len() && v[i] == "nativeTools.shell"@;
        assert(bs[14].contains("nativeTools.shell"@));
    }
    assert forall|k: Seq<char>| #[trigger] m.mcp_servers@.contains_key(k) implies v.contains("mcpServers."@ + k) by {
        let keys = m.mcp_servers.ordered_keys();
        assert(keys.to_set().contains(k));
        let i = choose|i: int| 0 <= i < keys.len() && keys[i] == k;
        lemma_prefixed_block("mcpServers."@, keys);
        assert(bs[12][i] == "mcpServers."@ + k);
        assert(bs[12].contains("mcpServers."@ + k));
    }
}

/// A declaration that sets nothing and is no template lists no setting.
proof fn lemma_fields_of_empty(m: Manifest)
    requires
        manifest_is_empty(m@),
        !m.template,
    ensures
        manifest_fields_spec(m) == Seq::<Seq<char>>::empty(),
{
    m.resources.lemma_dom();
    m.skills.lemma_dom();
    m.knowledge.lemma_dom();
    m.hooks.lemma_dom();
    m.mcp_servers.lemma_dom();
    m.tool_aliases.lemma_dom();
    m.tool_settings.lemma_dom();
    assert(m@.resources.dom() =~= m.resources@.dom());
    assert(m@.skills.dom() =~= m.skills@.dom());
    assert(m@.knowledge.dom() =~= m.knowledge@.dom());
    assert(m@.hooks.dom() =~= m.hooks@.dom());
    assert(m@.mcp_servers.dom() =~= m.mcp_servers@.dom());
    lemma_no_keys(m.resources.ordered_keys());
    lemma_no_keys(m.skills.ordered_keys());
    lemma_no_keys(m.knowledge.ordered_keys());
    lemma_no_keys(m.hooks.ordered_keys());
    lemma_no_keys(m.mcp_servers.ordered_keys());
    lemma_no_keys(m.tool_aliases.ordered_keys());
    lemma_no_keys(m.tool_settings.ordered_keys());
    assert(manifest_fields_spec(m) =~= Seq::<Seq<char>>::empty());
}

proof fn lemma_no_keys(keys: Seq<Seq<char>>)
    ensures
        keys.to_set() == Set::<Seq<char>>::empty() ==> keys == Seq::<Seq<char>>::empty(),
{
    if keys.len() > 0 {
        assert(keys.to_set().contains(keys[0]));
    }
}

/// The settings `manifest` makes.
pub fn manifest_fields(manifest: &Manifest) -> (r: Vec<String>)
    ensures
        views(r@) == manifest_fields_spec(*manifest),
        views(r@).no_duplicates(),
        views(r@).contains("template"@) == manifest.template,
        views(r@).contains("description"@) == (manifest.description is Some),
        views(r@).contains("nativeTools.shell"@) == !native_tool_is_default(manifest.native_tools.shell@),
        forall|k: Seq<char>| #[trigger] manifest.mcp_servers@.contains_key(k)
            ==> views(r@).contains("mcpServers."@ + k),
        manifest_is_empty(manifest@) && !manifest.template ==> r@.len() == 0,
{
    manifest.resources.lemma_ordered();
    manifest.skills.lemma_ordered();
    manifest.knowledge.lemma_ordered();
    manifest.hooks.lemma_ordered();
    manifest.mcp_servers.lemma_ordered();
    manifest.tool_aliases.lemma_ordered();
    manifest.tool_settings.lemma_ordered();
    proof {
        lemma_fields_laws(*manifest);
        if manifest_is_empty(manifest@) && !manifest.template {
            lemma_fields_of_empty(*manifest);
        }
    }
    let mut fields: Vec<String> = Vec::new();
    assert(views(fields@) =~= Seq::<Seq<char>>::empty());
    push_head(&mut fields, manifest);
    push_tools(&mut fields, manifest);
    push_native(&mut fields, manifest);
    push_tail(&mut fields, manifest);
    assert(views(fields@) =~= manifest_fields_spec(*manifest));
    fields
}

/// One layer of an agent: the kind and path of its file and the settings
/// it makes.
pub struct TreeSource {
    pub source_type: String,
    pub path: String,
    pub modified_fields: StringSet,
}

/// What the tree view shows of one agent.
pub struct TreeDetail {
    pub template: bool,
    /// The agent file written for it; empty for a template.
    pub output: String,
    pub description: String,
    pub inherits: StringSet,
    pub resolved_chain: StringSet,
    pub sources: Vec<TreeSource>,
}

/// `t` describes the layer `slot`, which came from a file.
pub open spec fn source_of(slot: SourceSlot, t: TreeSource) -> bool {
    &&& slot.path is Some
    &&& t.source_type@ == slot.path->0.source_type_spec()
    &&& t.path@ == slot.path->0.path_spec()@
    &&& t.modified_fields@ == manifest_fields_spec(slot.manifest).to_set()
}

/// The layer `s` if it came from a file, as a one-element sequence.
pub open spec fn opt_layer(s: SourceSlot) -> Seq<SourceSlot> {
    if s.path is Some {
        seq![s]
    } else {
        Seq::empty()
    }
}

/// The layers of `slots` that came from a file, in order of kind: global
/// agent file, global manifest, local agent file, local manifest.
pub open spec fn present_layers(slots: AgentSourceSlots) -> Seq<SourceSlot> {
    opt_layer(slots.global_agent_file) + opt_layer(slots.global_manifest) + opt_layer(slots.local_agent_file)
        + opt_layer(slots.local_manifest)
}

/// `r` describes the layers `ls`, one by one.
pub open spec fn describes(ls: Seq<SourceSlot>, r: Seq<TreeSource>) -> bool {
    r.len() == ls.len() && forall|i: int| 0 <= i < r.len() ==> source_of(ls[i], #[trigger] r[i])
}

fn push_source(r: &mut Vec<TreeSource>, slot: &SourceSlot, Ghost(done): Ghost<Seq<SourceSlot>>)
    requires
        describes(done, old(r)@),
    ensures
        describes(done + opt_layer(*slot), final(r)@),
{
    match &slot.path {
        Some(p) => {
            let fields = manifest_fields(&slot.manifest);
            r.push(TreeSource {
                source_type: String::from_str(p.source_type()),
                path: p.path().clone(),
                modified_fields: StringSet::from_vec(fields),
            });
            proof {
                let ls = done + opt_layer(*slot);
                assert forall|i: int| 0 <= i < r@.len() implies source_of(ls[i], #[trigger] r@[i]) by {
                    if i < done.len() {
                        assert(r@[i] == old(r)@[i]);
                    }
                }
            }
        },
        None => {
            assert(done + opt_layer(*slot) =~= done);
        },
    }
}

/// The layers of `slots` that came from a file, described in order of kind.
pub fn collect_sources(slots: &AgentSourceSlots) -> (r: Vec<TreeSource>)
    ensures
        describes(present_layers(*slots), r@),
{
    let mut r: Vec<TreeSource> = Vec::new();
    let ghost e = Seq::<SourceSlot>::empty();
    push_source(&mut r, &slots.global_agent_file, Ghost(e));
    push_source(&mut r, &slots.global_manifest, Ghost(e + opt_layer(slots.global_agent_file)));
    push_source(&mut r, &slots.local_agent_file,
        Ghost(e + opt_layer(slots.global_agent_file) + opt_layer(slots.global_manifest)));
    push_source(&mut r, &slots.local_manifest,
        Ghost(e + opt_layer(slots.global_agent_file) + opt_layer(slots.global_manifest) + opt_layer(slots.local_agent_file)));
    assert(e + opt_layer(slots.global_agent_file) + opt_layer(slots.global_manifest) + opt_layer(slots.local_agent_file)
        + opt_layer(slots.local_manifest) =~= present_layers(*slots));
    r
}

/// `d` is what the tree view shows of agent `name`, given the home
/// directory.
pub open spec fn detail_of(g: Generator, name: Seq<char>, home: Option<String>, d: TreeDetail) -> bool {
    let slots = g.agents@[name];
    let m = slots.merged;
    &&& d.template == m.template
    &&& d.output@ == (if m.template {
        Seq::empty()
    } else {
        path_joined(destination_spec(is_local_spec(g.agents@, name), home), name + ".json"@)
    })
    &&& d.description@ == (match m.description {
        Some(s) => s@,
        None => Seq::<char>::empty(),
    })
    &&& d.inherits@ == m.inherits@
    &&& d.resolved_chain@ == (if well_founded(g.graph(), name) {
        ancestors(g.graph(), name)
    } else {
        Set::<Seq<char>>::empty()
    })
    &&& describes(present_layers(slots), d.sources@)
}

/// What the tree view shows of each of the agents `names` that is
/// discovered, given the home directory; unknown names are skipped.
pub fn details_in(generator: &Generator, names: &[String], home: Option<String>) -> (r: StringMap<TreeDetail>)
    ensures
        r@.dom() == views(names@).to_set().filter(|n: Seq<char>| generator.agents@.contains_key(n)),
        forall|n: Seq<char>| #[trigger] r@.contains_key(n) ==> detail_of(*generator, n, home, r@[n]),
{
    let ghost pred = |n: Seq<char>| generator.agents@.contains_key(n);
    let mut out: StringMap<TreeDetail> = StringMap::new();
    let mut i: usize = 0;
    proof {
        assert(views(names@).take(0).to_set() =~= Set::<Seq<char>>::empty());
    }
    while i < names.len()
        invariant
            pred == (|n: Seq<char>| generator.agents@.contains_key(n)),
            i <= names.len(),
            out@.dom() == views(names@).take(i as int).to_set().filter(pred),
            forall|n: Seq<char>| #[trigger] out@.contains_key(n) ==> detail_of(*generator, n, home, out@[n]),
        decreases names.len() - i,
    {
        let name = &names[i];
        proof {
            let vs = views(names@);
            assert(vs[i as int] == name@);
            assert(vs.take(i + 1) =~= vs.take(i as int).push(name@));
            vs.take(i as int).lemma_push_to_set_commute(name@);
        }
        match generator.agents.get(name.as_str()) {
            Some(agent) => {
                let manifest = &agent.merged;
                let output = if manifest.template {
                    String::new()
                } else {
                    let dir = generator.destination_dir_in(name.as_str(), home.clone());
                    let file = concat(name.as_str(), ".json");
                    join_path(dir.as_str(), file.as_str())
                };
                let chain = generator.inheritance_chain_safe(name.as_str());
                let description = match &manifest.description {
                    Some(d) => d.clone(),
                    None => String::new(),
                };
                let detail = TreeDetail {
                    template: manifest.template,
                    output,
                    description,
                    inherits: manifest.inherits.duplicate(),
                    resolved_chain: StringSet::from_vec(chain),
                    sources: collect_sources(agent),
                };
                proof {
                    if !well_founded(generator.graph(), name@) {
                        assert(views(chain@) =~= Seq::<Seq<char>>::empty());
                    }
                    assert(detail.template == manifest.template);
                    assert(detail.output@ == (if manifest.template {
                        Seq::empty()
                    } else {
                        path_joined(destination_spec(is_local_spec(generator.agents@, name@), home), name@ + ".json"@)
                    }));
                    assert(detail.inherits@ == manifest.inherits@);
                    assert(detail.resolved_chain@ == (if well_founded(generator.graph(), name@) {
                        ancestors(generator.graph(), name@)
                    } else {
                        Set::<Seq<char>>::empty()
                    }));
                    assert(describes(present_layers(*agent), detail.sources@));
                    assert(detail_of(*generator, name@, home, detail));
                }
                out.insert(name.clone(), detail);
            },
            None => {},
        }
        proof {
            assert(out@.dom() =~= views(names@).take(i + 1).to_set().filter(pred));
        }
        i = i + 1;
    }
    proof {
        assert(views(names@).take(names.len() as int) =~= views(names@));
    }
    out
}

/// What the tree view shows of each of the agents `names` that is
/// discovered; unknown names are skipped.
pub fn details(generator: &Generator, names: &[String]) -> (r: StringMap<TreeDetail>)
    ensures
        r@.dom() == views(names@).to_set().filter(|n: Seq<char>| generator.agents@.contains_key(n)),
        exists|home: Option<String>| #[trigger] details_match(*generator, r@, home),
{
    let home = home_dir();
    let r = details_in(generator, names, home);
    assert(details_match(*generator, r@, home));
    r
}

/// Every entry of `r` is what the tree view shows of its agent, given the
/// home directory.
pub open spec fn details_match(g: Generator, r: Map<Seq<char>, TreeDetail>, home: Option<String>) -> bool {
    forall|n: Seq<char>| #[trigger] r.contains_key(n) ==> detail_of(g, n, home, r[n])
}

} // verus!
