//! The command line: its subcommands and the decisions drawn from them.
use vstd::prelude::*;
use crate::output::{ColorOverride, OutputFormat, OutputFormatArg};
use crate::generator::config_location::ConfigLocation;
use crate::text::join_path;

pub mod bootstrap;
pub mod tree;

verus! {

/// The parsed command line.
pub struct Cli {
    pub debug: bool,
    /// Enable trace level debug for an agent. Use keyword 'all' to debug all
    /// agents. Note, this is very verbose
    pub trace: Option<String>,
    /// When to show color.
    pub color_override: ColorOverride,
    pub command: Command,
}

#[derive(Clone, Debug, Default)]
pub struct InitArgs {}

#[derive(Clone, Debug, Default)]
pub struct BootstrapArgs {
    /// Install SKILL.md from a reviewed file
    pub install: Option<String>,
}

#[derive(Clone, Debug)]
pub struct ValidateArgs {
    /// Use only local configuration (ignore global ~/.kiro/generators/)
    pub local: bool,
    /// Use only global configuration (ignore local .kiro/generators/)
    pub global: bool,
    /// Show template agents in output
    pub show_templates: bool,
    /// Format of the console output
    pub format: OutputFormatArg,
}

#[derive(Clone, Debug)]
pub struct GenerateArgs {
    /// Use only local configuration (ignore global ~/.kiro/generators/)
    pub local: bool,
    /// Use only global configuration (ignore local .kiro/generators/)
    pub global: bool,
    /// Show template agents in output
    pub show_templates: bool,
    /// Always write agent config even if nothing has changed
    pub force: bool,
    /// Show diff of changes before writing
    pub diff: bool,
    /// Format of the console output
    pub format: OutputFormatArg,
    /// Display desktop notification when generation completes or errors
    pub notify: bool,
}

#[derive(Clone, Debug, Default)]
pub struct DiffArgs {
    /// Use only global configuration (ignore local .kiro/generators/)
    pub global: bool,
    /// Use compact output (collapse unchanged items)
    pub compact: bool,
    /// Disable colored output
    pub plain: bool,
}

#[derive(Clone, Debug)]
pub struct WatchArgs {
    /// Disable the watcher instead of enabling it
    pub disable: bool,
    /// List active watchers
    pub list: bool,
    /// Project path to watch (defaults to current directory)
    pub path: Option<String>,
}

#[derive(Clone, Debug, Default)]
pub struct TreeArgs {
    /// Show specific agents and their inheritance chains
    pub agents: Vec<String>,
}

/// The subcommands.
#[derive(Clone, Debug)]
pub enum Command {
    /// Validate the agent configuration files but do not generate kiro agents
    Validate(ValidateArgs),
    /// Generate agent configuration JSON files, if local config found only
    /// local agents are generated. Use --global to generate $HOME agents
    Generate(GenerateArgs),
    /// Create default configuration in directory ~/.kiro/generators
    Init(InitArgs),
    /// Display version information
    Version,
    /// Compare generator files with Kiro agent files
    Diff(DiffArgs),
    /// Output JSON schema for configuration files
    Schema(SchemaCommand),
    /// Enable/disable systemd path watcher for automatic regeneration on
    /// config changes
    Watch(WatchArgs),
    /// Display agent hierarchy and configuration sources as a tree
    Tree(TreeArgs),
    /// Scan existing .kiro/agents/*.json files and install the kg-helper skill
    Bootstrap(BootstrapArgs),
}

/// The schemas that can be printed.
#[derive(Copy, Clone, Debug, PartialEq, Eq, Structural)]
pub enum SchemaCommand {
    /// Output JSON schema for manifest files (kg.toml)
    Manifest,
    /// Output JSON schema for agent definition files
    Agent,
}

impl SchemaCommand {
    /// `manifest` or `agent` (the display form).
    pub fn to_string(&self) -> (r: String)
        ensures
            r@ == match *self {
                SchemaCommand::Manifest => "manifest"@,
                SchemaCommand::Agent => "agent"@,
            },
    {
        match self {
            SchemaCommand::Manifest => String::from_str("manifest"),
            SchemaCommand::Agent => String::from_str("agent"),
        }
    }
}

impl Default for ValidateArgs {
    fn default() -> (r: Self)
        ensures
            !r.local && !r.global && !r.show_templates,
            r.format == OutputFormatArg::Table,
    {
        ValidateArgs { local: false, global: false, show_templates: false, format: OutputFormatArg::Table }
    }
}

impl Default for GenerateArgs {
    fn default() -> (r: Self)
        ensures
            !r.local && !r.global && !r.show_templates && !r.force && !r.diff && !r.notify,
            r.format == OutputFormatArg::Table,
    {
        GenerateArgs {
            local: false,
            global: false,
            show_templates: false,
            force: false,
            diff: false,
            format: OutputFormatArg::Table,
            notify: false,
        }
    }
}

impl Default for Command {
    fn default() -> (r: Self)
        ensures
            r matches Command::Validate(a) && !a.local && !a.global && !a.show_templates && a.format == OutputFormatArg::Table,
    {
        Command::Validate(ValidateArgs::default())
    }
}

/// What the color decision needs to know of the terminal and the
/// environment.
#[derive(Copy, Clone, Debug)]
pub struct ColorEnv {
    /// Standard output is a terminal.
    pub is_terminal: bool,
    /// `NO_COLOR` is set.
    pub no_color: bool,
    /// `CI` is set.
    pub ci: bool,
}

impl Cli {
    /// Whether to color output: as forced, or, on `auto`, when writing to a
    /// terminal and neither `NO_COLOR` nor `CI` is set.
    pub fn color(&self, env: &ColorEnv) -> (b: bool)
        ensures
            b == match self.color_override {
                ColorOverride::Auto => env.is_terminal && !env.no_color && !env.ci,
                ColorOverride::Never => false,
                ColorOverride::Always => true,
            },
    {
        match self.color_override {
            ColorOverride::Auto => env.is_terminal && !env.no_color && !env.ci,
            ColorOverride::Never => false,
            ColorOverride::Always => true,
        }
    }

    /// The output format: the one `validate` or `generate` asks for (a
    /// table colored as `color` decides), else a table.
    pub fn format_color(&self, env: &ColorEnv) -> (r: OutputFormat)
        ensures
            r == match self.command {
                Command::Validate(a) => format_of(a.format, self.color_spec(*env)),
                Command::Generate(a) => format_of(a.format, self.color_spec(*env)),
                _ => OutputFormat::Table(self.color_spec(*env)),
            },
    {
        let format = match &self.command {
            Command::Validate(a) => a.format,
            Command::Generate(a) => a.format,
            _ => {
                return OutputFormat::Table(self.color(env));
            },
        };
        match format {
            OutputFormatArg::Table => OutputFormat::Table(self.color(env)),
            OutputFormatArg::Json => OutputFormat::Json,
            OutputFormatArg::Plain => OutputFormat::Plain,
        }
    }

    /// Whether to color output, as `color` decides.
    pub open spec fn color_spec(self, env: ColorEnv) -> bool {
        match self.color_override {
            ColorOverride::Auto => env.is_terminal && !env.no_color && !env.ci,
            ColorOverride::Never => false,
            ColorOverride::Always => true,
        }
    }

    /// Whether nothing is written: only validation.
    pub fn dry_run(&self) -> (b: bool)
        ensures
            b == (self.command is Validate),
    {
        match self.command {
            Command::Validate(_) => true,
            _ => false,
        }
    }

    /// Whether only the project's configuration is used.
    pub fn is_local(&self) -> (b: bool)
        ensures
            b == match self.command {
                Command::Generate(a) => a.local,
                Command::Validate(a) => a.local,
                _ => false,
            },
    {
        match &self.command {
            Command::Generate(args) => args.local,
            Command::Validate(args) => args.local,
            _ => false,
        }
    }

    /// Whether only the global configuration is used.
    pub fn is_global(&self) -> (b: bool)
        ensures
            b == match self.command {
                Command::Generate(a) => a.global,
                Command::Validate(a) => a.global,
                Command::Diff(a) => a.global,
                _ => false,
            },
    {
        match &self.command {
            Command::Generate(args) => args.global,
            Command::Validate(args) => args.global,
            Command::Diff(args) => args.global,
            _ => false,
        }
    }

    /// Where configuration is read from, given the home and current
    /// directories: the project only when asked; the global directory
    /// (`<home>/.kiro/generators`) only when asked or when working in the
    /// home directory itself; else both.
    pub fn config_location(&self, home_dir: &str, current_dir: &str) -> (r: ConfigLocation)
        ensures
            ({
                let g = crate::text::path_joined(crate::text::path_joined(home_dir@, ".kiro"@), "generators"@);
                if self.is_local_spec() {
                    r == ConfigLocation::Local
                } else if self.is_global_spec() || current_dir@ == home_dir@ {
                    r is Global && r->Global_0@ == g
                } else {
                    r is Both && r->Both_0@ == g
                }
            }),
    {
        if self.is_local() {
            return ConfigLocation::Local;
        }
        let kiro = join_path(home_dir, ".kiro");
        let home_config = join_path(kiro.as_str(), "generators");
        if self.is_global() {
            return ConfigLocation::Global(home_config);
        }
        if crate::text::str_eq(current_dir, home_dir) {
            ConfigLocation::Global(home_config)
        } else {
            ConfigLocation::Both(home_config)
        }
    }

    /// Whether only the project's configuration is used, as `is_local`
    /// decides.
    pub open spec fn is_local_spec(self) -> bool {
        match self.command {
            Command::Generate(a) => a.local,
            Command::Validate(a) => a.local,
            _ => false,
        }
    }

    /// Whether only the global configuration is used, as `is_global`
    /// decides.
    pub open spec fn is_global_spec(self) -> bool {
        match self.command {
            Command::Generate(a) => a.global,
            Command::Validate(a) => a.global,
            Command::Diff(a) => a.global,
            _ => false,
        }
    }
}

/// The output format for a format argument, with the color decision for a
/// table.
pub open spec fn format_of(f: OutputFormatArg, color: bool) -> OutputFormat {
    match f {
        OutputFormatArg::Table => OutputFormat::Table(color),
        OutputFormatArg::Json => OutputFormat::Json,
        OutputFormatArg::Plain => OutputFormat::Plain,
    }
}

} // verus!
