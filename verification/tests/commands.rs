use kiro_generator::commands::{Cli, ColorEnv, Command, DiffArgs, GenerateArgs, SchemaCommand, ValidateArgs};
use kiro_generator::generator::config_location::ConfigLocation;
use kiro_generator::output::{ColorOverride, OutputFormat, OutputFormatArg};

fn env(is_terminal: bool) -> ColorEnv {
    ColorEnv { is_terminal, no_color: false, ci: false }
}

#[test]
fn test_dry_run() {
    let cli = Cli {
        debug: false,
        trace: None,
        color_override: ColorOverride::Auto,
        command: Command::Validate(ValidateArgs::default()),
    };
    assert!(cli.dry_run());

    let cli = Cli { command: Command::Generate(GenerateArgs::default()), ..cli };
    assert!(!cli.dry_run());
}

#[test]
fn test_is_local() {
    let cli = Cli {
        debug: false,
        trace: None,
        color_override: ColorOverride::Auto,
        command: Command::Validate(ValidateArgs { local: true, ..Default::default() }),
    };
    assert!(cli.is_local());
    assert!(!cli.is_global());
}

#[test]
fn test_is_global() {
    let cli = Cli {
        debug: false,
        trace: None,
        color_override: ColorOverride::Auto,
        command: Command::Generate(GenerateArgs { global: true, ..Default::default() }),
    };
    assert!(cli.is_global());
    assert!(!cli.is_local());
}

#[test]
fn test_color_auto() {
    let cli = Cli { debug: false, trace: None, color_override: ColorOverride::Auto, command: Command::default() };
    assert!(cli.color(&env(true)));
    assert!(!cli.color(&env(false)));
    assert!(!cli.color(&ColorEnv { is_terminal: true, no_color: true, ci: false }));
    assert!(!cli.color(&ColorEnv { is_terminal: true, no_color: false, ci: true }));
}

#[test]
fn test_color_always() {
    let cli = Cli { debug: false, trace: None, color_override: ColorOverride::Always, command: Command::default() };
    assert!(cli.color(&env(false)));
}

#[test]
fn test_color_never() {
    let cli = Cli { debug: false, trace: None, color_override: ColorOverride::Never, command: Command::default() };
    assert!(!cli.color(&env(true)));
}

#[test]
fn test_format_color() {
    let cli = Cli { debug: false, trace: None, color_override: ColorOverride::Always, command: Command::default() };
    assert!(matches!(cli.format_color(&env(false)), OutputFormat::Table(true)));

    let cli = Cli {
        command: Command::Validate(ValidateArgs { format: OutputFormatArg::Json, ..Default::default() }),
        ..cli
    };
    assert!(matches!(cli.format_color(&env(false)), OutputFormat::Json));
}

#[test]
fn config_location_follows_flags_and_directory() {
    let both = Cli { debug: false, trace: None, color_override: ColorOverride::Auto, command: Command::default() };
    match both.config_location("/home/u", "/work") {
        ConfigLocation::Both(p) => assert_eq!(p, "/home/u/.kiro/generators"),
        _ => panic!("expected both"),
    }
    match both.config_location("/home/u", "/home/u") {
        ConfigLocation::Global(p) => assert_eq!(p, "/home/u/.kiro/generators"),
        _ => panic!("expected global"),
    }
    let diff_global = Cli { command: Command::Diff(DiffArgs { global: true, ..Default::default() }), ..both };
    assert!(matches!(diff_global.config_location("/home/u", "/work"), ConfigLocation::Global(_)));
    let local = Cli {
        debug: false,
        trace: None,
        color_override: ColorOverride::Auto,
        command: Command::Generate(GenerateArgs { local: true, ..Default::default() }),
    };
    assert!(matches!(local.config_location("/home/u", "/home/u"), ConfigLocation::Local));
}

#[test]
fn display_forms() {
    assert_eq!(SchemaCommand::Manifest.to_string(), "manifest");
    assert_eq!(SchemaCommand::Agent.to_string(), "agent");
    assert_eq!(ColorOverride::Never.to_string(), "never");
    assert_eq!(OutputFormatArg::Plain.to_string(), "plain");
    assert!(matches!(OutputFormat::default(), OutputFormat::Table(true)));
}

#[test]
fn color_override_display() {
    assert_eq!(ColorOverride::Always.to_string(), "always");
    assert_eq!(ColorOverride::Auto.to_string(), "auto");
    assert_eq!(ColorOverride::Never.to_string(), "never");
}

#[test]
fn output_format_arg_display() {
    assert_eq!(OutputFormatArg::Table.to_string(), "table");
    assert_eq!(OutputFormatArg::Json.to_string(), "json");
}

#[test]
fn output_format_default() {
    let fmt = OutputFormat::default();
    assert!(matches!(fmt, OutputFormat::Table(true)));
}
