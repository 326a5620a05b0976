//! The files a new project starts with: a workspace with an `app` crate,
//! developer tasks and ignore rules, for a Leptos or a plain application.
use vstd::prelude::*;
use crate::agent::{join_path, path_join};
use crate::text::push_str;

verus! {

/// The workspace manifest of a Leptos application.
pub const LEPTOS_WORKSPACE_MANIFEST: &'static str = r#"[workspace]
resolver = "2"
members = ["app"]

[workspace.package]
version = "0.1.0"
edition = "2024"
"#;

/// The manifest of the `app` crate of a Leptos application.
pub const LEPTOS_APP_MANIFEST: &'static str = r#"[package]
name = "app"
version = "0.1.0"
edition = "2024"

[dependencies]
montrs-core = { git = "https://github.com/afsall-labs/mont-rs.git" }
leptos = { version = "0.8", features = ["hydrate", "ssr"] }
"#;

/// The entry point of a Leptos application.
pub const LEPTOS_APP_MAIN: &'static str = r#"use leptos::prelude::*;
use montrs_core::{AppSpec, Target, AppConfig, EnvConfig, EnvError, FromEnv};

#[derive(Clone)]
struct MyAppConfig;
impl AppConfig for MyAppConfig {
    type Error = Box<dyn std::error::Error + Send + Sync>;
    type Env = MyEnv;
}

#[derive(Clone)]
struct MyEnv;
impl EnvConfig for MyEnv {
    fn get<T: FromEnv>(&self, _key: &str) -> Result<T, EnvError> {
        Err(EnvError::MissingKey(_key.to_string()))
    }
}

#[component]
fn App() -> impl IntoView {
    let (count, set_count) = signal(0);

    view! {
        <main class="flex flex-col items-center justify-center min-h-screen bg-slate-900 text-white">
            <h1 class="text-4xl font-bold mb-4">"Built with MontRS & Leptos"</h1>
            <button
                class="px-6 py-2 bg-blue-600 rounded-lg hover:bg-blue-500 transition-colors"
                on:click=move |_| set_count.update(|n| *n += 1)
            >
                "Count: " {count}
            </button>
        </main>
    }
}

fn main() {
    let spec = AppSpec::new(MyAppConfig, MyEnv)
        .with_target(Target::Wasm);
    
    spec.mount(|| view! { <App /> });
}
"#;

/// The page a Leptos application is served in.
pub const LEPTOS_INDEX_HTML: &'static str = r#"<!DOCTYPE html>
<html>
  <head>
    <meta charset="UTF-8" />
    <meta name="viewport" content="width=device-width, initial-scale=1.0" />
    <title>MontRS App</title>
    <script src="https://cdn.tailwindcss.com"></script>
  </head>
  <body></body>
</html>
"#;

/// The developer tasks of a Leptos application.
pub const LEPTOS_MAKEFILE: &'static str = r#"[tasks.dev]
command = "trunk"
args = ["serve"]

[tasks.test]
command = "cargo"
args = ["test", "--workspace"]

[tasks.build]
command = "trunk"
args = ["build", "--release"]
"#;

/// The workspace manifest of a plain application.
pub const WORKSPACE_MANIFEST: &'static str = r#"[workspace]
resolver = "2"
members = ["app", "crates/*"]

[workspace.package]
version = "0.1.0"
edition = "2024"
"#;

/// The manifest of the `app` crate of a plain application.
pub const APP_MANIFEST: &'static str = r#"[package]
name = "app"
version = "0.1.0"
edition = "2024"

[dependencies]
montrs-core = { git = "https://github.com/afsall-labs/mont-rs.git" }
"#;

/// The entry point of a plain application.
pub const APP_MAIN: &'static str = r#"fn main() { println!("Hello, MontRS!"); }"#;

/// The developer tasks of a plain application.
pub const MAKEFILE: &'static str = r#"[tasks.dev]
command = "cargo"
args = ["run", "-p", "app"]

[tasks.test]
command = "cargo"
args = ["test", "--workspace"]

[tasks.build]
command = "cargo"
args = ["build", "--release"]
"#;

/// The Trunk settings of a new project.
pub const TRUNK_TOML: &'static str = r#"[build]
target = "index.html"
dist = "dist"

[serve]
port = 8080
"#;

/// The files a new project keeps out of version control.
pub const GITIGNORE: &'static str = r#"/target
/dist
**/*.rs.bk
Cargo.lock
.env
"#;

/// Which application a new project holds.
#[derive(Debug, Clone, Copy, PartialEq, Eq, Structural)]
pub enum ScaffoldTemplate {
    /// A Leptos web application served by Trunk.
    Leptos,
    /// A plain application.
    Plain,
}

/// The folders and files that make up a new project.
#[derive(Debug, Clone)]
pub struct ScaffoldPlan {
    pub dirs: Vec<String>,
    pub files: Vec<(String, String)>,
}

/// The folders of a project at `base`.
pub open spec fn scaffold_dirs(base: Seq<char>) -> Seq<Seq<char>> {
    seq![join_path(base, "crates"@), join_path(base, "app/src"@), join_path(base, "docs"@)]
}

/// The files of a project at `base`, by path relative to it and content.
pub open spec fn scaffold_files(t: ScaffoldTemplate) -> Seq<(Seq<char>, Seq<char>)> {
    match t {
        ScaffoldTemplate::Leptos => seq![
            ("Cargo.toml"@, LEPTOS_WORKSPACE_MANIFEST@),
            ("app/Cargo.toml"@, LEPTOS_APP_MANIFEST@),
            ("app/src/main.rs"@, LEPTOS_APP_MAIN@),
            ("index.html"@, LEPTOS_INDEX_HTML@),
            ("Makefile.toml"@, LEPTOS_MAKEFILE@),
            ("trunk.toml"@, TRUNK_TOML@),
            (".gitignore"@, GITIGNORE@),
        ],
        ScaffoldTemplate::Plain => seq![
            ("Cargo.toml"@, WORKSPACE_MANIFEST@),
            ("app/Cargo.toml"@, APP_MANIFEST@),
            ("app/src/main.rs"@, APP_MAIN@),
            ("Makefile.toml"@, MAKEFILE@),
            ("trunk.toml"@, TRUNK_TOML@),
            (".gitignore"@, GITIGNORE@),
        ],
    }
}

fn file_entry(base: &str, rel: &str, content: &str) -> (f: (String, String))
    ensures
        f.0@ == join_path(base@, rel@),
        f.1@ == content@,
{
    (path_join(base, rel), content.to_owned())
}

/// The new project `name`: refused with "Directory <name> already exists"
/// when that folder exists, else its folders and files under `name`.
pub fn provision_project(name: &str, already_exists: bool, template: ScaffoldTemplate) -> (r: Result<ScaffoldPlan, String>)
    ensures
        already_exists ==> (r matches Err(m) && m@ == "Directory "@ + name@ + " already exists"@),
        !already_exists ==> (r matches Ok(plan)
            && plan.dirs@.map_values(|d: String| d@) == scaffold_dirs(name@)
            && plan.files@.map_values(|f: (String, String)| (f.0@, f.1@))
                == scaffold_files(template).map_values(|f: (Seq<char>, Seq<char>)| (join_path(name@, f.0), f.1))),
{
    if already_exists {
        let mut m = "Directory ".to_owned();
        push_str(&mut m, name);
        push_str(&mut m, " already exists");
        return Err(m);
    }
    let dirs = vec![path_join(name, "crates"), path_join(name, "app/src"), path_join(name, "docs")];
    assert(dirs@.map_values(|d: String| d@) =~= scaffold_dirs(name@));
    let files = match template {
        ScaffoldTemplate::Leptos => vec![
            file_entry(name, "Cargo.toml", LEPTOS_WORKSPACE_MANIFEST),
            file_entry(name, "app/Cargo.toml", LEPTOS_APP_MANIFEST),
            file_entry(name, "app/src/main.rs", LEPTOS_APP_MAIN),
            file_entry(name, "index.html", LEPTOS_INDEX_HTML),
            file_entry(name, "Makefile.toml", LEPTOS_MAKEFILE),
            file_entry(name, "trunk.toml", TRUNK_TOML),
            file_entry(name, ".gitignore", GITIGNORE),
        ],
        ScaffoldTemplate::Plain => vec![
            file_entry(name, "Cargo.toml", WORKSPACE_MANIFEST),
            file_entry(name, "app/Cargo.toml", APP_MANIFEST),
            file_entry(name, "app/src/main.rs", APP_MAIN),
            file_entry(name, "Makefile.toml", MAKEFILE),
            file_entry(name, "trunk.toml", TRUNK_TOML),
            file_entry(name, ".gitignore", GITIGNORE),
        ],
    };
    assert(files@.map_values(|f: (String, String)| (f.0@, f.1@)) =~= scaffold_files(template).map_values(
        |f: (Seq<char>, Seq<char>)| (join_path(name@, f.0), f.1),
    ));
    Ok(ScaffoldPlan { dirs, files })
}

} // verus!
