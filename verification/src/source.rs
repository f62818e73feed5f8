//! Where each layer of an agent's declaration came from.
use vstd::prelude::*;
use crate::kg_config::manifest::Manifest;
use crate::text::concat;

verus! {

/// The file an agent declaration was read from.
#[derive(Debug, PartialEq, Eq)]
pub enum KgAgentSource {
    LocalFile(String),
    LocalManifest(String),
    GlobalFile(String),
    GlobalManifest(String),
}

impl Clone for KgAgentSource {
    fn clone(&self) -> (r: Self)
        ensures
            r == *self,
    {
        match self {
            KgAgentSource::LocalFile(p) => KgAgentSource::LocalFile(p.clone()),
            KgAgentSource::LocalManifest(p) => KgAgentSource::LocalManifest(p.clone()),
            KgAgentSource::GlobalFile(p) => KgAgentSource::GlobalFile(p.clone()),
            KgAgentSource::GlobalManifest(p) => KgAgentSource::GlobalManifest(p.clone()),
        }
    }
}

impl KgAgentSource {
    /// The file's path.
    pub open spec fn path_spec(self) -> String {
        match self {
            KgAgentSource::LocalFile(p) => p,
            KgAgentSource::LocalManifest(p) => p,
            KgAgentSource::GlobalFile(p) => p,
            KgAgentSource::GlobalManifest(p) => p,
        }
    }

    /// The kind of file.
    pub open spec fn source_type_spec(self) -> Seq<char> {
        match self {
            KgAgentSource::GlobalManifest(_) => "global-manifest"@,
            KgAgentSource::GlobalFile(_) => "global-file"@,
            KgAgentSource::LocalManifest(_) => "local-manifest"@,
            KgAgentSource::LocalFile(_) => "local-file"@,
        }
    }

    /// Whether the file belongs to the local (project) configuration.
    pub fn is_local(&self) -> (b: bool)
        ensures
            b == (*self is LocalFile || *self is LocalManifest),
    {
        match self {
            KgAgentSource::LocalFile(_) | KgAgentSource::LocalManifest(_) => true,
            _ => false,
        }
    }

    /// A manifest file, local or global.
    pub fn manifest(path: String, local: bool) -> (r: Self)
        ensures
            r == (if local { KgAgentSource::LocalManifest(path) } else { KgAgentSource::GlobalManifest(path) }),
    {
        if local {
            KgAgentSource::LocalManifest(path)
        } else {
            KgAgentSource::GlobalManifest(path)
        }
    }

    /// The kind of file, as shown to users.
    pub fn source_type(&self) -> (r: &'static str)
        ensures
            r@ == self.source_type_spec(),
    {
        match self {
            KgAgentSource::GlobalManifest(_) => "global-manifest",
            KgAgentSource::GlobalFile(_) => "global-file",
            KgAgentSource::LocalManifest(_) => "local-manifest",
            KgAgentSource::LocalFile(_) => "local-file",
        }
    }

    /// The file's path.
    pub fn path(&self) -> (r: &String)
        ensures
            *r == self.path_spec(),
    {
        match self {
            KgAgentSource::GlobalManifest(p) | KgAgentSource::GlobalFile(p) | KgAgentSource::LocalManifest(p)
            | KgAgentSource::LocalFile(p) => p,
        }
    }

    /// `<kind>:<path>` (the display form).
    pub fn to_string(&self) -> (r: String)
        ensures
            r@ == self.source_type_spec() + ":"@ + self.path_spec()@,
    {
        let head = concat(self.source_type(), ":");
        concat(head.as_str(), self.path().as_str())
    }

    /// The path alone (the debug form).
    pub fn debug_string(&self) -> (r: String)
        ensures
            r@ == self.path_spec()@,
    {
        self.path().clone()
    }
}

/// One layer of an agent's declaration: the file it came from, if any, and
/// what it declared.
#[derive(Clone, Debug)]
pub struct SourceSlot {
    pub path: Option<KgAgentSource>,
    pub manifest: Manifest,
}

impl SourceSlot {
    /// The kind of file the layer came from, if it came from one.
    pub fn source_type(&self) -> (r: Option<String>)
        ensures
            r is Some == self.path is Some,
            r is Some ==> r->0@ == self.path->0.source_type_spec(),
    {
        match &self.path {
            Some(p) => Some(String::from_str(p.source_type())),
            None => None,
        }
    }
}

impl SourceSlot {
    /// The path of the file the layer came from, if it came from one.
    pub fn location(&self) -> (r: Option<&String>)
        ensures
            r is Some == self.path is Some,
            r is Some ==> *r->0 == self.path->0.path_spec(),
    {
        match &self.path {
            Some(p) => Some(p.path()),
            None => None,
        }
    }

    /// `<kind>://<path>` for a layer read from a file, else the empty string
    /// (the display form).
    pub fn to_string(&self) -> (r: String)
        ensures
            r@ == slot_display(*self),
    {
        match &self.path {
            Some(p) => {
                let mut r = concat(p.source_type(), "://");
                r.append(p.path().as_str());
                r
            },
            None => String::new(),
        }
    }
}

/// The display form of a layer: `<kind>://<path>`, or empty where the layer
/// came from no file.
pub open spec fn slot_display(s: SourceSlot) -> Seq<char> {
    match s.path {
        Some(p) => p.source_type_spec() + "://"@ + p.path_spec()@,
        None => Seq::empty(),
    }
}

impl Default for SourceSlot {
    fn default() -> (r: Self)
        ensures
            r.path is None,
            crate::kg_config::manifest::manifest_is_empty(r.manifest@),
            r.manifest.name@.len() == 0,
            !r.manifest.template,
    {
        SourceSlot { path: None, manifest: Manifest::default() }
    }
}

/// The four layers of an agent's declaration and their merge.
#[derive(Clone, Debug)]
pub struct AgentSourceSlots {
    pub name: String,
    pub global_manifest: SourceSlot,
    pub local_manifest: SourceSlot,
    pub global_agent_file: SourceSlot,
    pub local_agent_file: SourceSlot,
    pub merged: Manifest,
}

impl AgentSourceSlots {
    /// Whether a local layer declared the agent.
    pub fn has_local(&self) -> (b: bool)
        ensures
            b == (self.local_manifest.path is Some || self.local_agent_file.path is Some),
    {
        self.local_manifest.path.is_some() || self.local_agent_file.path.is_some()
    }

    /// `[<name>][local=<bool>]` (the debug form).
    pub fn debug_string(&self) -> (r: String)
        ensures
            r@ == "["@ + self.name@ + "][local="@
                + (if self.local_manifest.path is Some || self.local_agent_file.path is Some { "true"@ } else { "false"@ }) + "]"@,
    {
        let mut r = concat("[", self.name.as_str());
        r.append("][local=");
        if self.has_local() {
            r.append("true");
        } else {
            r.append("false");
        }
        r.append("]");
        r
    }

    /// The four layers, lowest precedence first: global manifest, global
    /// agent file, local manifest, local agent file.
    pub fn source_slots(&self) -> (r: Vec<&SourceSlot>)
        ensures
            r@.len() == 4,
            *r@[0] == self.global_manifest,
            *r@[1] == self.global_agent_file,
            *r@[2] == self.local_manifest,
            *r@[3] == self.local_agent_file,
    {
        let mut r: Vec<&SourceSlot> = Vec::new();
        r.push(&self.global_manifest);
        r.push(&self.global_agent_file);
        r.push(&self.local_manifest);
        r.push(&self.local_agent_file);
        r
    }

    /// The files of the layers that exist, in the order global manifest,
    /// local manifest, global agent file, local agent file.
    pub fn sources(&self) -> (r: Vec<KgAgentSource>)
        ensures
            r@ == present_sources(self),
    {
        let mut r: Vec<KgAgentSource> = Vec::new();
        if let Some(p) = &self.global_manifest.path {
            r.push(p.clone());
        }
        if let Some(p) = &self.local_manifest.path {
            r.push(p.clone());
        }
        if let Some(p) = &self.global_agent_file.path {
            r.push(p.clone());
        }
        if let Some(p) = &self.local_agent_file.path {
            r.push(p.clone());
        }
        proof {
            reveal_with_fuel(flatten_options, 5);
            let s = seq![self.global_manifest.path, self.local_manifest.path,
                self.global_agent_file.path, self.local_agent_file.path];
            assert(s.drop_last().drop_last().drop_last().drop_last() =~= Seq::<Option<KgAgentSource>>::empty());
            assert(s.drop_last() =~= seq![self.global_manifest.path, self.local_manifest.path, self.global_agent_file.path]);
            assert(s.drop_last().drop_last() =~= seq![self.global_manifest.path, self.local_manifest.path]);
            assert(s.drop_last().drop_last().drop_last() =~= seq![self.global_manifest.path]);
            assert(r@ =~= flatten_options(s));
        }
        r
    }
}

/// The present entries of a sequence of optional sources.
pub open spec fn flatten_options(s: Seq<Option<KgAgentSource>>) -> Seq<KgAgentSource>
    decreases s.len(),
{
    if s.len() == 0 {
        Seq::empty()
    } else {
        let rest = flatten_options(s.drop_last());
        match s.last() {
            Some(x) => rest.push(x),
            None => rest,
        }
    }
}

/// The files of the layers that exist, in layer order.
pub open spec fn present_sources(slots: &AgentSourceSlots) -> Seq<KgAgentSource> {
    flatten_options(seq![slots.global_manifest.path, slots.local_manifest.path,
        slots.global_agent_file.path, slots.local_agent_file.path])
}

impl Default for AgentSourceSlots {
    fn default() -> (r: Self)
        ensures
            r.name@.len() == 0,
            r.global_manifest.path is None,
            r.local_manifest.path is None,
            r.global_agent_file.path is None,
            r.local_agent_file.path is None,
    {
        AgentSourceSlots {
            name: String::new(),
            global_manifest: SourceSlot::default(),
            local_manifest: SourceSlot::default(),
            global_agent_file: SourceSlot::default(),
            local_agent_file: SourceSlot::default(),
            merged: Manifest::default(),
        }
    }
}

} // verus!
