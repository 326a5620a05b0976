use montrs::cli::{
    agent_report, app_name_from_manifest, parse_channel, Channel, apply_root_package_name, is_cargo_subcommand, log_level,
    refreshes_agent_files, resolve_project_name, LogLevel,
};
use montrs::config::{E2eConfig, MontConfig, ProjectConfig, TailwindStyle, TaskConfig};
use montrs::errors::{sqlite_target, CliError, DbError, SqliteTarget};
use montrs::mcp::AgentSubcommand;

fn s(v: &[&str]) -> Vec<String> {
    v.iter().map(|x| x.to_string()).collect()
}

#[test]
fn cli_errors_explain_themselves() {
    let e = CliError::Task("lint".to_string());
    assert_eq!(e.message(), "Task execution failed: lint");
    assert_eq!(e.error_code(), "CLI_TASK");
    assert_eq!(e.explanation(), "A custom task failed to execute: lint.");
    assert_eq!(e.suggested_fixes(), s(&["Debug the task logic: lint."]));
    assert_eq!(e.subsystem(), "cli");
    let c = CliError::Config("bad".to_string());
    assert_eq!(c.error_code(), "CLI_CONFIG");
    assert_eq!(c.message(), "Configuration error: bad");
    assert_eq!(c.suggested_fixes().len(), 2);
    assert_eq!(CliError::Io("denied".to_string()).message(), "IO error: denied");
    assert_eq!(CliError::Io("x".to_string()).error_code(), "CLI_IO");
    assert_eq!(CliError::Build("x".to_string()).error_code(), "CLI_BUILD");
    assert_eq!(CliError::Build("x".to_string()).explanation(), "The project build process failed: x.");
}

#[test]
fn db_errors_and_sqlite_targets() {
    assert_eq!(DbError::Connection("down".to_string()).message(), "Database connection error: down");
    assert_eq!(DbError::Query("syntax".to_string()).message(), "Query execution error: syntax");
    assert_eq!(DbError::Migration("v2".to_string()).message(), "Migration error: v2");
    assert!(matches!(sqlite_target(":memory:"), SqliteTarget::InMemory));
    match sqlite_target("data.db") {
        SqliteTarget::File(p) => assert_eq!(p, "data.db"),
        _ => panic!(),
    }
}

#[test]
fn manifests_give_names() {
    assert_eq!(app_name_from_manifest(Some("[project]\nname = \"shop\"\n".to_string())), "shop");
    assert_eq!(app_name_from_manifest(Some("[project]\nname = 3\n".to_string())), "app");
    assert_eq!(app_name_from_manifest(Some("not toml =".to_string())), "app");
    assert_eq!(app_name_from_manifest(None), "app");
    let cur = "unknown".to_string();
    assert_eq!(resolve_project_name(Some("[package]\nname = \"web\"".to_string()), cur.clone()), "web");
    assert_eq!(resolve_project_name(Some("[package]\nversion = \"1\"".to_string()), cur.clone()), "unknown");
    assert_eq!(
        resolve_project_name(Some("[workspace.package]\nname = \"ws\"".to_string()), cur.clone()),
        "ws"
    );
    assert_eq!(
        resolve_project_name(Some("[workspace.package]\nversion = \"1\"".to_string()), cur.clone()),
        "workspace"
    );
    assert_eq!(resolve_project_name(Some("[workspace]\nmembers = []".to_string()), cur.clone()), "unknown");
    assert_eq!(resolve_project_name(Some("oops [".to_string()), "keep".to_string()), "keep");
    assert_eq!(resolve_project_name(None, "keep".to_string()), "keep");
}

#[test]
fn root_package_names_a_default_project() {
    let mut c = MontConfig::default();
    apply_root_package_name(&mut c, Some("real".to_string()));
    assert_eq!(c.project.name, "real");
    apply_root_package_name(&mut c, Some("other".to_string()));
    assert_eq!(c.project.name, "real");
    let mut d = MontConfig::default();
    apply_root_package_name(&mut d, None);
    assert_eq!(d.project.name, "app");
}

#[test]
fn invocation_decisions() {
    assert!(is_cargo_subcommand(&s(&["cargo-montrs", "montrs", "build"]), "montrs"));
    assert!(!is_cargo_subcommand(&s(&["montrs", "build"]), "montrs"));
    assert!(refreshes_agent_files(&s(&["montrs", "build"])));
    assert!(!refreshes_agent_files(&s(&["montrs", "new"])));
    assert!(!refreshes_agent_files(&s(&["montrs"])));
    assert_eq!(log_level(0), LogLevel::Info);
    assert_eq!(log_level(1), LogLevel::Debug);
    assert_eq!(log_level(2), LogLevel::Trace);
}

#[test]
fn agent_reports() {
    assert_eq!(
        agent_report(&AgentSubcommand::Check { path: "src".to_string() }, "").unwrap(),
        "Checking MontRS invariants at src...\n"
    );
    assert_eq!(
        agent_report(&AgentSubcommand::Doctor { package: None }, "").unwrap(),
        "Running agent doctor for the entire project...\n"
    );
    assert_eq!(
        agent_report(&AgentSubcommand::Doctor { package: Some("orm".to_string()) }, "").unwrap(),
        "Running agent doctor for package orm...\n"
    );
    let d = agent_report(&AgentSubcommand::Diff { path: "e.json".to_string() }, "E1").unwrap();
    assert!(d.starts_with("### Agent Diagnostic Report\nTarget: e.json\n\n#### Error Context\n```\nE1\n```\n"));
    assert!(d.ends_with("(use `agent check`).\n"));
    assert!(agent_report(&AgentSubcommand::ListErrors { status: None }, "").is_none());
}

#[test]
fn configuration_defaults() {
    let p = ProjectConfig::default();
    assert_eq!(p.name, "app");
    assert!(p.js_minify);
    let c = MontConfig::default();
    assert_eq!(c.serve.port, 8080);
    assert_eq!(c.serve.addr, "127.0.0.1");
    assert_eq!(c.build.target, "index.html");
    assert_eq!(c.build.site_root, "target/site");
    assert_eq!(TailwindStyle::default(), TailwindStyle::Auto);
    let e = E2eConfig::default();
    assert!(e.browser.is_none());
    let t = TaskConfig::Simple("echo".to_string());
    assert!(matches!(t, TaskConfig::Simple(_)));
}

#[test]
fn channels_are_parsed_case_insensitively() {
    assert_eq!(parse_channel("Stable"), Ok(Channel::Stable));
    assert_eq!(parse_channel("NIGHTLY"), Ok(Channel::Nightly));
    assert_eq!(
        parse_channel("beta"),
        Err("Invalid channel: beta. Supported channels are 'stable' and 'nightly'.".to_string())
    );
}
