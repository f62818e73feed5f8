//! Built-in tool settings of the legacy manifest format, where forced
//! entries are called overrides.
use vstd::prelude::*;
use crate::set::StringSet;
use crate::kiro::hook::prefer;
use crate::kiro::tools::{AwsTool as KiroAwsTool, ExecuteShellTool as KiroShellTool, ReadTool as KiroReadTool,
    WriteTool as KiroWriteTool};
use crate::kg_config::native::forced_lists;

verus! {

/// One built-in tool's settings.
#[derive(Debug)]
pub struct NativeTool {
    pub allows: StringSet,
    pub denies: StringSet,
    pub overrides: StringSet,
    pub disable_auto_readonly: Option<bool>,
    pub deny_by_default: Option<bool>,
}

pub type ExecuteShellTool = NativeTool;
pub type AwsTool = NativeTool;
pub type WriteTool = NativeTool;
pub type ReadTool = NativeTool;

/// The contents of a tool's settings.
pub struct NativeToolView {
    pub allows: Set<Seq<char>>,
    pub denies: Set<Seq<char>>,
    pub overrides: Set<Seq<char>>,
    pub disable_auto_readonly: Option<bool>,
    pub deny_by_default: Option<bool>,
}

impl View for NativeTool {
    type V = NativeToolView;

    open spec fn view(&self) -> NativeToolView {
        NativeToolView {
            allows: self.allows@,
            denies: self.denies@,
            overrides: self.overrides@,
            disable_auto_readonly: self.disable_auto_readonly,
            deny_by_default: self.deny_by_default,
        }
    }
}

/// Settings with empty lists and unset flags.
pub open spec fn empty_tool() -> NativeToolView {
    NativeToolView {
        allows: Set::empty(),
        denies: Set::empty(),
        overrides: Set::empty(),
        disable_auto_readonly: None,
        deny_by_default: None,
    }
}

/// Lists are united; flags the child leaves unset come from the parent.
pub open spec fn tool_merged(c: NativeToolView, p: NativeToolView) -> NativeToolView {
    NativeToolView {
        allows: c.allows.union(p.allows),
        denies: c.denies.union(p.denies),
        overrides: c.overrides.union(p.overrides),
        disable_auto_readonly: prefer(c.disable_auto_readonly, p.disable_auto_readonly),
        deny_by_default: prefer(c.deny_by_default, p.deny_by_default),
    }
}

impl NativeTool {
    /// Merges this (child) tool with the parent's `other`.
    pub fn merge(self, other: Self) -> (r: Self)
        ensures
            r@ == tool_merged(self@, other@),
    {
        let mut s = self;
        s.allows.extend(other.allows);
        s.denies.extend(other.denies);
        s.overrides.extend(other.overrides);
        s.disable_auto_readonly = match s.disable_auto_readonly {
            Some(v) => Some(v),
            None => other.disable_auto_readonly,
        };
        s.deny_by_default = match s.deny_by_default {
            Some(v) => Some(v),
            None => other.deny_by_default,
        };
        s
    }
}

impl Default for NativeTool {
    fn default() -> (r: Self)
        ensures
            r@.allows == Set::<Seq<char>>::empty(),
            r@.denies == Set::<Seq<char>>::empty(),
            r@.overrides == Set::<Seq<char>>::empty(),
            r@.disable_auto_readonly is None,
            r@.deny_by_default is None,
    {
        NativeTool {
            allows: StringSet::new(),
            denies: StringSet::new(),
            overrides: StringSet::new(),
            disable_auto_readonly: None,
            deny_by_default: None,
        }
    }
}

/// The settings of the shell, AWS, read and write tools.
#[derive(Debug)]
pub struct NativeTools {
    pub shell: ExecuteShellTool,
    pub aws: AwsTool,
    pub read: ReadTool,
    pub write: WriteTool,
}

impl NativeTools {
    /// Merges this (child) configuration with the parent's `other`, tool by
    /// tool.
    pub fn merge(self, other: Self) -> (r: Self)
        ensures
            r.shell@ == tool_merged(self.shell@, other.shell@),
            r.aws@ == tool_merged(self.aws@, other.aws@),
            r.read@ == tool_merged(self.read@, other.read@),
            r.write@ == tool_merged(self.write@, other.write@),
    {
        NativeTools {
            shell: self.shell.merge(other.shell),
            aws: self.aws.merge(other.aws),
            read: self.read.merge(other.read),
            write: self.write.merge(other.write),
        }
    }

    /// The AWS settings: the service lists as declared; read-only calls
    /// allowed unless disabled.
    pub fn to_kiro_aws(&self) -> (r: KiroAwsTool)
        ensures
            r.allowed_services@ == self.aws@.allows,
            r.denied_services@ == self.aws@.denies,
            r.auto_allow_readonly == !(match self.aws.disable_auto_readonly { Some(b) => b, None => false }),
    {
        KiroAwsTool {
            allowed_services: self.aws.allows.duplicate(),
            denied_services: self.aws.denies.duplicate(),
            auto_allow_readonly: !match self.aws.disable_auto_readonly { Some(b) => b, None => false },
        }
    }

    /// The write settings: overridden paths are allowed and not denied.
    pub fn to_kiro_write(&self) -> (r: KiroWriteTool)
        ensures
            r.allowed_paths@ == self.write@.allows.union(self.write@.overrides),
            r.denied_paths@ == self.write@.denies.difference(self.write@.overrides),
    {
        let (allows, denies) = forced_lists(&self.write.allows, &self.write.denies, &self.write.overrides);
        KiroWriteTool { allowed_paths: allows, denied_paths: denies }
    }

    /// The read settings: overridden paths are allowed and not denied.
    pub fn to_kiro_read(&self) -> (r: KiroReadTool)
        ensures
            r.allowed_paths@ == self.read@.allows.union(self.read@.overrides),
            r.denied_paths@ == self.read@.denies.difference(self.read@.overrides),
    {
        let (allows, denies) = forced_lists(&self.read.allows, &self.read.denies, &self.read.overrides);
        KiroReadTool { allowed_paths: allows, denied_paths: denies }
    }

    /// The shell settings: overridden commands are allowed and not denied;
    /// not denying by default unless declared; read-only commands allowed
    /// as the (legacy format's) flag says, and by default.
    pub fn to_kiro_shell(&self) -> (r: KiroShellTool)
        ensures
            r.allowed_commands@ == self.shell@.allows.union(self.shell@.overrides),
            r.denied_commands@ == self.shell@.denies.difference(self.shell@.overrides),
            r.deny_by_default == (match self.shell.deny_by_default { Some(b) => b, None => false }),
            r.auto_allow_readonly == (match self.shell.disable_auto_readonly { Some(b) => b, None => true }),
    {
        let (allows, denies) = forced_lists(&self.shell.allows, &self.shell.denies, &self.shell.overrides);
        KiroShellTool {
            allowed_commands: allows,
            denied_commands: denies,
            deny_by_default: match self.shell.deny_by_default { Some(b) => b, None => false },
            auto_allow_readonly: match self.shell.disable_auto_readonly { Some(b) => b, None => true },
        }
    }
}

impl Default for NativeTools {
    fn default() -> (r: Self)
        ensures
            r.shell@ == empty_tool(),
            r.aws@ == empty_tool(),
            r.read@ == empty_tool(),
            r.write@ == empty_tool(),
    {
        NativeTools {
            shell: NativeTool::default(),
            aws: NativeTool::default(),
            read: NativeTool::default(),
            write: NativeTool::default(),
        }
    }
}

} // verus!
