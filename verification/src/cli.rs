//! Decisions of the command-line entry points: how the CLI was invoked,
//! what project name the manifests give, how verbose logging is, and the
//! reports of the agent commands.
use vstd::prelude::*;
use crate::config::MontConfig;
use crate::mcp::AgentSubcommand;
use crate::text::{push_str, str_eq};

verus! {

/// The item at the key path `keys` of the TOML document `content`: `None`
/// when the document does not parse or has no such item, `Some(None)` for
/// an item that is not a string, `Some(Some(s))` for the string `s`.
pub uninterp spec fn toml_item_at(content: Seq<char>, keys: Seq<Seq<char>>) -> Option<Option<Seq<char>>>;

/// Parses `content` as a TOML document (`str::parse::<toml::Value>`, the
/// same as `toml::from_str`) and follows `keys` with `Value::get`, reading
/// the item found with `Value::as_str`. The result is named, not stated: it
/// is `toml_item_at` of the arguments.
#[verifier::external_body]
fn toml_item(content: &str, keys: &[&str]) -> (r: Option<Option<String>>)
    ensures
        match r {
            Some(Some(s)) => toml_item_at(content@, keys@.map_values(|k: &str| k@)) == Some(Some(s@)),
            Some(None) => toml_item_at(content@, keys@.map_values(|k: &str| k@)) == Some(None::<Seq<char>>),
            None => toml_item_at(content@, keys@.map_values(|k: &str| k@)) is None,
        },
{
    let root: toml::Value = match content.parse() {
        Ok(v) => v,
        Err(_) => return None,
    };
    let mut cur = &root;
    for k in keys {
        cur = cur.get(*k)?;
    }
    Some(cur.as_str().map(|s| s.to_string()))
}

/// The string at `keys`, if the document has one there.
pub open spec fn toml_str_at(content: Seq<char>, keys: Seq<Seq<char>>) -> Option<Seq<char>> {
    match toml_item_at(content, keys) {
        Some(Some(s)) => Some(s),
        _ => None,
    }
}

/// The application name a `montrs.toml` gives: `project.name`, else "app".
pub open spec fn manifest_app_name(manifest: Option<Seq<char>>) -> Seq<char> {
    match manifest {
        Some(c) => match toml_str_at(c, seq!["project"@, "name"@]) {
            Some(n) => n,
            None => "app"@,
        },
        None => "app"@,
    }
}

/// The application name for the agent files, from the text of
/// `montrs.toml` if it could be read.
pub fn app_name_from_manifest(manifest: Option<String>) -> (name: String)
    ensures
        name@ == manifest_app_name(match manifest { Some(m) => Some(m@), None => None }),
{
    match manifest {
        Some(c) => {
            let keys: [&str; 2] = ["project", "name"];
            assert(keys@.map_values(|k: &str| k@) =~= seq!["project"@, "name"@]);
            match toml_item(c.as_str(), &keys) {
                Some(Some(n)) => n,
                _ => "app".to_owned(),
            }
        },
        None => "app".to_owned(),
    }
}

/// The project name a `Cargo.toml` gives to a snapshot named `current`:
/// `package.name` when there is a package table (else "unknown"), else
/// `workspace.package.name` when there is such a table (else "workspace");
/// a manifest that does not parse, or has neither, leaves `current`.
pub open spec fn cargo_project_name(manifest: Option<Seq<char>>, current: Seq<char>) -> Seq<char> {
    match manifest {
        Some(c) => if toml_item_at(c, seq!["package"@]) is Some {
            match toml_str_at(c, seq!["package"@, "name"@]) {
                Some(n) => n,
                None => "unknown"@,
            }
        } else if toml_item_at(c, seq!["workspace"@]) is Some && toml_item_at(c, seq!["workspace"@, "package"@]) is Some {
            match toml_str_at(c, seq!["workspace"@, "package"@, "name"@]) {
                Some(n) => n,
                None => "workspace"@,
            }
        } else {
            current
        },
        None => current,
    }
}

/// The project name of a snapshot, from the text of `Cargo.toml` if it
/// could be read.
pub fn resolve_project_name(manifest: Option<String>, current: String) -> (name: String)
    ensures
        name@ == cargo_project_name(match manifest { Some(m) => Some(m@), None => None }, current@),
{
    let c = match manifest {
        Some(c) => c,
        None => return current,
    };
    let package: [&str; 1] = ["package"];
    let package_name: [&str; 2] = ["package", "name"];
    let workspace: [&str; 1] = ["workspace"];
    let workspace_package: [&str; 2] = ["workspace", "package"];
    let workspace_name: [&str; 3] = ["workspace", "package", "name"];
    assert(package@.map_values(|k: &str| k@) =~= seq!["package"@]);
    assert(package_name@.map_values(|k: &str| k@) =~= seq!["package"@, "name"@]);
    assert(workspace@.map_values(|k: &str| k@) =~= seq!["workspace"@]);
    assert(workspace_package@.map_values(|k: &str| k@) =~= seq!["workspace"@, "package"@]);
    assert(workspace_name@.map_values(|k: &str| k@) =~= seq!["workspace"@, "package"@, "name"@]);
    if toml_item(c.as_str(), &package).is_some() {
        match toml_item(c.as_str(), &package_name) {
            Some(Some(n)) => n,
            _ => "unknown".to_owned(),
        }
    } else if toml_item(c.as_str(), &workspace).is_some() && toml_item(c.as_str(), &workspace_package).is_some() {
        match toml_item(c.as_str(), &workspace_name) {
            Some(Some(n)) => n,
            _ => "workspace".to_owned(),
        }
    } else {
        current
    }
}

/// Takes the root package's name as the project name when the project has
/// none of its own (its name is the default "app").
pub fn apply_root_package_name(config: &mut MontConfig, root_package: Option<String>)
    ensures
        final(config).project.name@ == (if old(config).project.name@ == "app"@ {
            match root_package {
                Some(r) => r@,
                None => "app"@,
            }
        } else {
            old(config).project.name@
        }),
        final(config).tasks == old(config).tasks,
        final(config).build == old(config).build,
        final(config).serve == old(config).serve,
        final(config).e2e == old(config).e2e,
{
    if str_eq(config.project.name.as_str(), "app") {
        if let Some(r) = root_package {
            config.project.name = r;
        }
    }
}

/// Whether the command line `args` is a cargo subcommand invocation: its
/// first argument is the subcommand's name `sub`.
pub fn is_cargo_subcommand(args: &Vec<String>, sub: &str) -> (b: bool)
    ensures
        b == (args@.len() > 1 && args@[1]@ == sub@),
{
    args.len() > 1 && str_eq(args[1].as_str(), sub)
}

/// Whether an invocation refreshes the agent files: any command but `new`.
pub fn refreshes_agent_files(args: &Vec<String>) -> (b: bool)
    ensures
        b == (args@.len() > 1 && args@[1]@ != "new"@),
{
    args.len() > 1 && !str_eq(args[1].as_str(), "new")
}

/// How much the CLI logs.
#[derive(Debug, Clone, Copy, PartialEq, Eq, Structural)]
pub enum LogLevel {
    Info,
    Debug,
    Trace,
}

/// The log level for `-v` given `verbose` times: info, debug, then trace.
pub fn log_level(verbose: u8) -> (l: LogLevel)
    ensures
        l == (if verbose == 0 { LogLevel::Info } else if verbose == 1 { LogLevel::Debug } else { LogLevel::Trace }),
{
    if verbose == 0 {
        LogLevel::Info
    } else if verbose == 1 {
        LogLevel::Debug
    } else {
        LogLevel::Trace
    }
}

/// The steps an agent is given with a diagnostic report.
pub open spec fn diff_instructions() -> Seq<char> {
    "\n#### LLM Workflow Instructions\n"@
        + "1. **Analyze**: Examine the error above and identify the root cause in the source code.\n"@
        + "2. **Locate**: Find the exact file and line range where the fix should be applied.\n"@
        + "3. **Draft**: Create a minimal, atomic diff that fixes the error while maintaining MontRS invariants.\n"@
        + "4. **Verify**: Ensure the fix doesn't introduce new structural issues (use `agent check`).\n"@
}

/// The report of an agent command; `error_content` is the text of the
/// error file that `Diff` names.
pub open spec fn agent_report_text(sub: AgentSubcommand, error_content: Seq<char>) -> Option<Seq<char>> {
    match sub {
        AgentSubcommand::Check { path } => Some("Checking MontRS invariants at "@ + path@ + "...\n"@),
        AgentSubcommand::Doctor { package } => Some(match package {
            Some(p) => "Running agent doctor for package "@ + p@ + "...\n"@,
            None => "Running agent doctor for the entire project...\n"@,
        }),
        AgentSubcommand::Diff { path } => Some(
            "### Agent Diagnostic Report\n"@ + "Target: "@ + path@ + "\n"@ + "\n#### Error Context\n```\n"@
                + error_content + "\n```\n"@ + diff_instructions(),
        ),
        AgentSubcommand::ListErrors { .. } => None,
    }
}

/// The report of the agent commands that need no tracking store: `None`
/// for `ListErrors`.
pub fn agent_report(sub: &AgentSubcommand, error_content: &str) -> (r: Option<String>)
    ensures
        match r {
            Some(s) => agent_report_text(*sub, error_content@) == Some(s@),
            None => agent_report_text(*sub, error_content@) is None,
        },
{
    let mut out = String::new();
    proof {
        reveal_strlit("");
    }
    match sub {
        AgentSubcommand::Check { path } => {
            push_str(&mut out, "Checking MontRS invariants at ");
            push_str(&mut out, path.as_str());
            push_str(&mut out, "...\n");
            assert(out@ =~= "Checking MontRS invariants at "@ + path@ + "...\n"@);
            Some(out)
        },
        AgentSubcommand::Doctor { package } => {
            match package {
                Some(p) => {
                    push_str(&mut out, "Running agent doctor for package ");
                    push_str(&mut out, p.as_str());
                    push_str(&mut out, "...\n");
                    assert(out@ =~= "Running agent doctor for package "@ + p@ + "...\n"@);
                },
                None => {
                    push_str(&mut out, "Running agent doctor for the entire project...\n");
                    assert(out@ =~= "Running agent doctor for the entire project...\n"@);
                },
            }
            Some(out)
        },
        AgentSubcommand::Diff { path } => {
            push_str(&mut out, "### Agent Diagnostic Report\n");
            push_str(&mut out, "Target: ");
            push_str(&mut out, path.as_str());
            push_str(&mut out, "\n");
            push_str(&mut out, "\n#### Error Context\n```\n");
            push_str(&mut out, error_content);
            push_str(&mut out, "\n```\n");
            push_str(&mut out, "\n#### LLM Workflow Instructions\n");
            push_str(&mut out, "1. **Analyze**: Examine the error above and identify the root cause in the source code.\n");
            push_str(&mut out, "2. **Locate**: Find the exact file and line range where the fix should be applied.\n");
            push_str(&mut out, "3. **Draft**: Create a minimal, atomic diff that fixes the error while maintaining MontRS invariants.\n");
            push_str(&mut out, "4. **Verify**: Ensure the fix doesn't introduce new structural issues (use `agent check`).\n");
            assert(out@ =~= "### Agent Diagnostic Report\n"@ + "Target: "@ + path@ + "\n"@ + "\n#### Error Context\n```\n"@
                + error_content@ + "\n```\n"@ + diff_instructions());
            Some(out)
        },
        AgentSubcommand::ListErrors { .. } => None,
    }
}

/// A release channel of the framework.
#[derive(Debug, Clone, Copy, PartialEq, Eq, Structural)]
pub enum Channel {
    Stable,
    Nightly,
}

/// The channel a name picks, compared in lowercase, or the error a name
/// that is neither is refused with.
pub fn parse_channel(name: &str) -> (r: Result<Channel, String>)
    ensures
        crate::sketch::lowercase(name@) == "stable"@ ==> r == Ok::<Channel, String>(Channel::Stable),
        crate::sketch::lowercase(name@) == "nightly"@ ==> r == Ok::<Channel, String>(Channel::Nightly),
        (crate::sketch::lowercase(name@) != "stable"@ && crate::sketch::lowercase(name@) != "nightly"@) ==> (
            r matches Err(m) && m@ == "Invalid channel: "@ + name@
                + ". Supported channels are 'stable' and 'nightly'."@),
{
    let lower = crate::sketch::to_lowercase(name);
    proof {
        reveal_strlit("stable");
        reveal_strlit("nightly");
        assert("stable"@.len() != "nightly"@.len());
    }
    if str_eq(lower.as_str(), "stable") {
        Ok(Channel::Stable)
    } else if str_eq(lower.as_str(), "nightly") {
        Ok(Channel::Nightly)
    } else {
        let mut m = "Invalid channel: ".to_owned();
        push_str(&mut m, name);
        push_str(&mut m, ". Supported channels are 'stable' and 'nightly'.");
        Err(m)
    }
}

} // verus!
