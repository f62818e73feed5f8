//! Where configuration files are looked for.
use vstd::prelude::*;
use crate::text::{concat, join_path, path_joined};

verus! {

/// Where configuration files are located.
#[derive(Debug)]
pub enum ConfigLocation {
    /// Only the global directory (usually `~/.kiro/generators`).
    Global(String),
    /// Only the project's `.kiro/generators`.
    Local,
    /// Both; local declarations take precedence over global ones.
    Both(String),
}

/// `name` with the TOML extension.
pub open spec fn toml_file(name: Seq<char>) -> Seq<char> {
    name + ".toml"@
}

/// The project's configuration directory.
pub open spec fn local_root() -> Seq<char> {
    ".kiro/generators"@
}

/// Where the files are: the project's agent file for a (relative) `name`
/// is `.kiro/generators/agents/<name>.toml` and its manifests lie in
/// `.kiro/generators/manifests`; a global directory `g` (given without a
/// trailing slash) holds `g/agents/<name>.toml` and `g/manifests`. Only the
/// global directory is used for `Global`, only the project's for `Local`,
/// and both for `Both`.
pub proof fn lemma_config_paths(location: ConfigLocation, name: Seq<char>)
    ensures
        !(name.len() > 0 && name[0] == '/') ==> path_joined(path_joined(local_root(), "agents"@), toml_file(name))
            == ".kiro/generators/agents/"@ + name + ".toml"@,
        path_joined(local_root(), "manifests"@) == ".kiro/generators/manifests"@,
        location.uses_local() <==> !(location is Global),
        location.global_root() is Some <==> !(location is Local),
        forall|g: Seq<char>| location.global_root() == Some(g) && g.len() > 0 && g.last() != '/'
            ==> #[trigger] path_joined(g, "manifests"@) == g + "/manifests"@,
{
    reveal_strlit(".kiro/generators");
    reveal_strlit("agents");
    reveal_strlit("manifests");
    reveal_strlit(".toml");
    reveal_strlit(".kiro/generators/agents/");
    reveal_strlit(".kiro/generators/agents");
    reveal_strlit(".kiro/generators/manifests");
    reveal_strlit("/manifests");
    reveal_strlit("/");
    assert(path_joined(local_root(), "agents"@) =~= ".kiro/generators/agents"@);
    if !(name.len() > 0 && name[0] == '/') {
        assert(toml_file(name).len() == 0 || toml_file(name)[0] != '/');
        assert(path_joined(path_joined(local_root(), "agents"@), toml_file(name))
            =~= ".kiro/generators/agents/"@ + name + ".toml"@);
    }
    assert(path_joined(local_root(), "manifests"@) =~= ".kiro/generators/manifests"@);
    assert forall|g: Seq<char>| location.global_root() == Some(g) && g.len() > 0 && g.last() != '/'
        implies #[trigger] path_joined(g, "manifests"@) == g + "/manifests"@ by {
        assert(path_joined(g, "manifests"@) =~= g + "/manifests"@);
    }
}

impl ConfigLocation {
    /// The global directory, when there is one.
    pub open spec fn global_root(self) -> Option<Seq<char>> {
        match self {
            ConfigLocation::Global(p) => Some(p@),
            ConfigLocation::Both(p) => Some(p@),
            ConfigLocation::Local => None,
        }
    }

    /// Whether the project's directory is used.
    pub open spec fn uses_local(self) -> bool {
        self is Local || self is Both
    }

    /// The global directory, or the empty path where only the project's is
    /// used.
    pub fn global_path(&self) -> (r: String)
        ensures
            r@ == match self.global_root() {
                Some(p) => p,
                None => Seq::empty(),
            },
    {
        match self {
            ConfigLocation::Global(p) | ConfigLocation::Both(p) => p.clone(),
            ConfigLocation::Local => String::new(),
        }
    }

    /// The global file `<name>.toml`, or the empty path where only the
    /// project's directory is used.
    pub fn global(&self, name: &str) -> (r: String)
        ensures
            r@ == match self.global_root() {
                Some(p) => path_joined(p, toml_file(name@)),
                None => Seq::empty(),
            },
    {
        let n = concat(name, ".toml");
        match self {
            ConfigLocation::Global(p) | ConfigLocation::Both(p) => join_path(p.as_str(), n.as_str()),
            ConfigLocation::Local => String::new(),
        }
    }

    /// The project's file `.kiro/generators/<name>.toml`, or the empty path
    /// where only the global directory is used.
    pub fn local(&self, name: &str) -> (r: String)
        ensures
            r@ == (if self.uses_local() { path_joined(local_root(), toml_file(name@)) } else { Seq::empty() }),
    {
        let n = concat(name, ".toml");
        match self {
            ConfigLocation::Local | ConfigLocation::Both(_) => join_path(".kiro/generators", n.as_str()),
            ConfigLocation::Global(_) => String::new(),
        }
    }

    /// The global `kg.toml`.
    pub fn global_kg(&self) -> (r: String)
        ensures
            r@ == match self.global_root() {
                Some(p) => path_joined(p, "kg.toml"@),
                None => Seq::empty(),
            },
    {
        proof {
            reveal_strlit("kg");
            reveal_strlit(".toml");
            reveal_strlit("kg.toml");
            assert(toml_file("kg"@) =~= "kg.toml"@);
        }
        self.global("kg")
    }

    /// The project's `kg.toml`.
    pub fn local_kg(&self) -> (r: String)
        ensures
            r@ == (if self.uses_local() { path_joined(local_root(), "kg.toml"@) } else { Seq::empty() }),
    {
        proof {
            reveal_strlit("kg");
            reveal_strlit(".toml");
            reveal_strlit("kg.toml");
            assert(toml_file("kg"@) =~= "kg.toml"@);
        }
        self.local("kg")
    }

    /// The directory of global manifests, `<global>/manifests`.
    pub fn global_manifests_dir(&self) -> (r: String)
        ensures
            r@ == match self.global_root() {
                Some(p) => path_joined(p, "manifests"@),
                None => Seq::empty(),
            },
    {
        match self {
            ConfigLocation::Global(p) | ConfigLocation::Both(p) => join_path(p.as_str(), "manifests"),
            ConfigLocation::Local => String::new(),
        }
    }

    /// The directory of the project's manifests, `.kiro/generators/manifests`.
    pub fn local_manifests_dir(&self) -> (r: String)
        ensures
            r@ == (if self.uses_local() { path_joined(local_root(), "manifests"@) } else { Seq::empty() }),
    {
        match self {
            ConfigLocation::Local | ConfigLocation::Both(_) => join_path(".kiro/generators", "manifests"),
            ConfigLocation::Global(_) => String::new(),
        }
    }

    /// Where agent `name`'s own global file would be,
    /// `<global>/agents/<name>.toml`.
    pub fn global_agent_path(&self, name: &str) -> (r: Option<String>)
        ensures
            r is Some == self.global_root() is Some,
            r is Some ==> r->0@ == path_joined(path_joined(self.global_root()->0, "agents"@), toml_file(name@)),
    {
        let n = concat(name, ".toml");
        match self {
            ConfigLocation::Global(p) | ConfigLocation::Both(p) => {
                let dir = join_path(p.as_str(), "agents");
                Some(join_path(dir.as_str(), n.as_str()))
            },
            ConfigLocation::Local => None,
        }
    }

    /// Where agent `name`'s own project file would be,
    /// `.kiro/generators/agents/<name>.toml`.
    pub fn local_agent_path(&self, name: &str) -> (r: Option<String>)
        ensures
            r is Some == self.uses_local(),
            r is Some ==> r->0@ == path_joined(path_joined(local_root(), "agents"@), toml_file(name@)),
    {
        let n = concat(name, ".toml");
        match self {
            ConfigLocation::Local | ConfigLocation::Both(_) => {
                let dir = join_path(".kiro/generators", "agents");
                Some(join_path(dir.as_str(), n.as_str()))
            },
            ConfigLocation::Global(_) => None,
        }
    }

    /// Succeeds when a `kg.toml` exists globally or in the project; else the
    /// message that names both places.
    pub fn check_kg_exists(&self, global_exists: bool, local_exists: bool) -> (r: Result<(), String>)
        ensures
            r is Ok <==> (global_exists || local_exists),
            r is Err ==> r->Err_0@ == "no kg.toml found at global ("@ + self.global_kg_spec() + ") or local ("@
                + self.local_kg_spec() + ")"@,
    {
        if !global_exists && !local_exists {
            let mut m = concat("no kg.toml found at global (", self.global_kg().as_str());
            m.append(") or local (");
            m.append(self.local_kg().as_str());
            m.append(")");
            return Err(m);
        }
        Ok(())
    }

    /// The global `kg.toml`, as `global_kg` gives it.
    pub open spec fn global_kg_spec(self) -> Seq<char> {
        match self.global_root() {
            Some(p) => path_joined(p, "kg.toml"@),
            None => Seq::empty(),
        }
    }

    /// The project's `kg.toml`, as `local_kg` gives it.
    pub open spec fn local_kg_spec(self) -> Seq<char> {
        if self.uses_local() { path_joined(local_root(), "kg.toml"@) } else { Seq::empty() }
    }

    /// `global=<path>`, `local` or `global=<path>,local` (the display form).
    pub fn to_string(&self) -> (r: String)
        ensures
            r@ == match *self {
                ConfigLocation::Global(p) => "global="@ + p@,
                ConfigLocation::Local => "local"@,
                ConfigLocation::Both(p) => "global="@ + p@ + ",local"@,
            },
    {
        match self {
            ConfigLocation::Global(p) => concat("global=", p.as_str()),
            ConfigLocation::Local => String::from_str("local"),
            ConfigLocation::Both(p) => {
                let mut r = concat("global=", p.as_str());
                r.append(",local");
                r
            },
        }
    }

    /// `[global]`, `[local]` or `[global,local]` (the debug form).
    pub fn debug_string(&self) -> (r: String)
        ensures
            r@ == match *self {
                ConfigLocation::Global(_) => "[global]"@,
                ConfigLocation::Local => "[local]"@,
                ConfigLocation::Both(_) => "[global,local]"@,
            },
    {
        match self {
            ConfigLocation::Global(_) => String::from_str("[global]"),
            ConfigLocation::Local => String::from_str("[local]"),
            ConfigLocation::Both(_) => String::from_str("[global,local]"),
        }
    }
}

} // verus!
