//! The errors of the CLI and of the database layer, with the explanations
//! and fixes offered for them.
use vstd::prelude::*;
use crate::text::push_str;

verus! {

/// An error of the CLI.
#[derive(Debug, Clone)]
pub enum CliError {
    Config(String),
    /// An I/O error, by its description.
    Io(String),
    Task(String),
    Build(String),
}

/// The text the error displays.
pub open spec fn cli_message(e: CliError) -> Seq<char> {
    match e {
        CliError::Config(d) => "Configuration error: "@ + d@,
        CliError::Io(d) => "IO error: "@ + d@,
        CliError::Task(d) => "Task execution failed: "@ + d@,
        CliError::Build(d) => "Build failed: "@ + d@,
    }
}

/// The stable code of the error kind.
pub open spec fn cli_code(e: CliError) -> Seq<char> {
    match e {
        CliError::Config(_) => "CLI_CONFIG"@,
        CliError::Io(_) => "CLI_IO"@,
        CliError::Task(_) => "CLI_TASK"@,
        CliError::Build(_) => "CLI_BUILD"@,
    }
}

/// The explanation offered for the error.
pub open spec fn cli_explanation(e: CliError) -> Seq<char> {
    match e {
        CliError::Config(d) => "Failed to load or parse the MontRS configuration: "@ + d@ + "."@,
        CliError::Io(d) => "An I/O error occurred during CLI operation: "@ + d@ + "."@,
        CliError::Task(d) => "A custom task failed to execute: "@ + d@ + "."@,
        CliError::Build(d) => "The project build process failed: "@ + d@ + "."@,
    }
}

/// The fixes suggested for the error.
pub open spec fn cli_fixes(e: CliError) -> Seq<Seq<char>> {
    match e {
        CliError::Config(_) => seq![
            "Check montrs.toml for syntax errors."@,
            "Ensure all required configuration fields are present."@,
        ],
        CliError::Io(_) => seq!["Verify file permissions and paths."@],
        CliError::Task(d) => seq!["Debug the task logic: "@ + d@ + "."@],
        CliError::Build(_) => seq![
            "Check the compiler output for detailed error messages."@,
            "Ensure all dependencies are correctly specified in Cargo.toml."@,
        ],
    }
}

fn concat2(a: &str, b: &str) -> (s: String)
    ensures
        s@ == a@ + b@,
{
    let mut s = a.to_owned();
    push_str(&mut s, b);
    s
}

fn concat3(a: &str, b: &str, c: &str) -> (s: String)
    ensures
        s@ == a@ + b@ + c@,
{
    let mut s = a.to_owned();
    push_str(&mut s, b);
    push_str(&mut s, c);
    s
}

impl CliError {
    /// The text the error displays.
    pub fn message(&self) -> (m: String)
        ensures
            m@ == cli_message(*self),
    {
        match self {
            CliError::Config(d) => concat2("Configuration error: ", d.as_str()),
            CliError::Io(d) => concat2("IO error: ", d.as_str()),
            CliError::Task(d) => concat2("Task execution failed: ", d.as_str()),
            CliError::Build(d) => concat2("Build failed: ", d.as_str()),
        }
    }

    /// The stable code of the error kind.
    pub fn error_code(&self) -> (c: &'static str)
        ensures
            c@ == cli_code(*self),
    {
        match self {
            CliError::Config(_) => "CLI_CONFIG",
            CliError::Io(_) => "CLI_IO",
            CliError::Task(_) => "CLI_TASK",
            CliError::Build(_) => "CLI_BUILD",
        }
    }

    /// The explanation offered for the error.
    pub fn explanation(&self) -> (x: String)
        ensures
            x@ == cli_explanation(*self),
    {
        match self {
            CliError::Config(d) => concat3("Failed to load or parse the MontRS configuration: ", d.as_str(), "."),
            CliError::Io(d) => concat3("An I/O error occurred during CLI operation: ", d.as_str(), "."),
            CliError::Task(d) => concat3("A custom task failed to execute: ", d.as_str(), "."),
            CliError::Build(d) => concat3("The project build process failed: ", d.as_str(), "."),
        }
    }

    /// The fixes suggested for the error.
    pub fn suggested_fixes(&self) -> (f: Vec<String>)
        ensures
            f@.map_values(|s: String| s@) == cli_fixes(*self),
    {
        let f = match self {
            CliError::Config(_) => vec![
                "Check montrs.toml for syntax errors.".to_owned(),
                "Ensure all required configuration fields are present.".to_owned(),
            ],
            CliError::Io(_) => vec!["Verify file permissions and paths.".to_owned()],
            CliError::Task(d) => vec![concat3("Debug the task logic: ", d.as_str(), ".")],
            CliError::Build(_) => vec![
                "Check the compiler output for detailed error messages.".to_owned(),
                "Ensure all dependencies are correctly specified in Cargo.toml.".to_owned(),
            ],
        };
        assert(f@.map_values(|s: String| s@) =~= cli_fixes(*self));
        f
    }

    /// The subsystem the error belongs to.
    pub fn subsystem(&self) -> (s: &'static str)
        ensures
            s@ == "cli"@,
    {
        "cli"
    }
}

/// An error of a database operation.
#[derive(Debug, Clone)]
pub enum DbError {
    Connection(String),
    Query(String),
    Migration(String),
}

/// The text a database error displays.
pub open spec fn db_message(e: DbError) -> Seq<char> {
    match e {
        DbError::Connection(d) => "Database connection error: "@ + d@,
        DbError::Query(d) => "Query execution error: "@ + d@,
        DbError::Migration(d) => "Migration error: "@ + d@,
    }
}

impl DbError {
    /// The text the error displays.
    pub fn message(&self) -> (m: String)
        ensures
            m@ == db_message(*self),
    {
        match self {
            DbError::Connection(d) => concat2("Database connection error: ", d.as_str()),
            DbError::Query(d) => concat2("Query execution error: ", d.as_str()),
            DbError::Migration(d) => concat2("Migration error: ", d.as_str()),
        }
    }
}

/// Where a SQLite backend keeps its data.
#[derive(Debug, Clone)]
pub enum SqliteTarget {
    /// A private database in memory.
    InMemory,
    /// The database file at this path.
    File(String),
}

/// The store a SQLite backend opens for `path`: memory for `:memory:`,
/// else the file.
pub fn sqlite_target(path: &str) -> (t: SqliteTarget)
    ensures
        path@ == ":memory:"@ ==> t is InMemory,
        path@ != ":memory:"@ ==> (t matches SqliteTarget::File(p) && p@ == path@),
{
    if crate::text::str_eq(path, ":memory:") {
        SqliteTarget::InMemory
    } else {
        SqliteTarget::File(path.to_owned())
    }
}

} // verus!
