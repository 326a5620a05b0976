//! The project configuration (`mont.toml`): project identity, build, serve,
//! end-to-end and custom task settings, with their documented defaults.
use vstd::prelude::*;

verus! {

/// Tailwind CSS integration style.
#[derive(Debug, Clone, Copy, PartialEq, Eq, Structural)]
pub enum TailwindStyle {
    /// Detect the style from the files present.
    Auto,
    /// Generate the Tailwind config from `tailwind.toml`.
    Toml,
    /// Tailwind v4 CSS-only configuration.
    V4,
}

impl Default for TailwindStyle {
    fn default() -> (s: Self)
        ensures
            s == TailwindStyle::Auto,
    {
        TailwindStyle::Auto
    }
}

/// Project identity and the build flags handed on to the build tool.
#[derive(Debug, Clone)]
pub struct ProjectConfig {
    pub name: String,
    pub verbose: u8,
    pub log: Vec<String>,
    pub release: bool,
    pub hot_reload: bool,
    pub precompress: bool,
    pub wasm_debug: bool,
    pub js_minify: bool,
    pub split: bool,
    pub frontend_only: bool,
    pub server_only: bool,
    pub features: Vec<String>,
    pub tailwind_style: Option<TailwindStyle>,
}

/// The project name used when none is configured.
pub fn default_app_name() -> (s: String)
    ensures
        s@ == "app"@,
{
    "app".to_owned()
}

impl ProjectConfig {
    /// Whether every field holds its default: the name `app`, no flags but
    /// JavaScript minification, no logs, features or Tailwind style.
    pub open spec fn is_default(&self) -> bool {
        &&& self.name@ == "app"@
        &&& self.verbose == 0
        &&& self.log@.len() == 0
        &&& !self.release
        &&& !self.hot_reload
        &&& !self.precompress
        &&& !self.wasm_debug
        &&& self.js_minify
        &&& !self.split
        &&& !self.frontend_only
        &&& !self.server_only
        &&& self.features@.len() == 0
        &&& self.tailwind_style is None
    }
}

impl Default for ProjectConfig {
    fn default() -> (c: Self)
        ensures
            c.is_default(),
    {
        ProjectConfig {
            name: default_app_name(),
            verbose: 0,
            log: Vec::new(),
            release: false,
            hot_reload: false,
            precompress: false,
            wasm_debug: false,
            js_minify: true,
            split: false,
            frontend_only: false,
            server_only: false,
            features: Vec::new(),
            tailwind_style: None,
        }
    }
}

/// Build configuration settings.
#[derive(Debug, Clone)]
pub struct BuildConfig {
    pub target: String,
    pub dist: String,
    pub site_root: String,
    pub site_pkg_name: String,
    pub assets_dir: Option<String>,
    pub tailwind_input_file: Option<String>,
    pub tailwind_config_file: Option<String>,
    pub style_file: Option<String>,
    pub browserquery: String,
}

/// The default browser compatibility query.
pub fn default_browserquery() -> (s: String)
    ensures
        s@ == "defaults"@,
{
    "defaults".to_owned()
}

/// The default index page.
pub fn default_target() -> (s: String)
    ensures
        s@ == "index.html"@,
{
    "index.html".to_owned()
}

/// The default output directory.
pub fn default_dist() -> (s: String)
    ensures
        s@ == "dist"@,
{
    "dist".to_owned()
}

/// The default site root.
pub fn default_site_root() -> (s: String)
    ensures
        s@ == "target/site"@,
{
    "target/site".to_owned()
}

/// The default name of the WASM package directory.
pub fn default_site_pkg_name() -> (s: String)
    ensures
        s@ == "pkg"@,
{
    "pkg".to_owned()
}

/// The default static assets directory: none.
pub fn default_assets_dir() -> (d: Option<String>)
    ensures
        d is None,
{
    None
}

impl BuildConfig {
    /// Whether every field holds its documented default.
    pub open spec fn is_default(&self) -> bool {
        &&& self.target@ == "index.html"@
        &&& self.dist@ == "dist"@
        &&& self.site_root@ == "target/site"@
        &&& self.site_pkg_name@ == "pkg"@
        &&& self.assets_dir is None
        &&& self.tailwind_input_file is None
        &&& self.tailwind_config_file is None
        &&& self.style_file is None
        &&& self.browserquery@ == "defaults"@
    }
}

impl Default for BuildConfig {
    fn default() -> (c: Self)
        ensures
            c.is_default(),
    {
        BuildConfig {
            target: default_target(),
            dist: default_dist(),
            site_root: default_site_root(),
            site_pkg_name: default_site_pkg_name(),
            assets_dir: None,
            tailwind_input_file: None,
            tailwind_config_file: None,
            style_file: None,
            browserquery: default_browserquery(),
        }
    }
}

/// Development server configuration.
#[derive(Debug, Clone)]
pub struct ServeConfig {
    pub port: u16,
    pub addr: String,
}

/// The default server port.
pub fn default_port() -> (p: u16)
    ensures
        p == 8080,
{
    8080
}

/// The default bind address.
pub fn default_addr() -> (s: String)
    ensures
        s@ == "127.0.0.1"@,
{
    "127.0.0.1".to_owned()
}

impl Default for ServeConfig {
    fn default() -> (c: Self)
        ensures
            c.port == 8080,
            c.addr@ == "127.0.0.1"@,
    {
        ServeConfig { port: default_port(), addr: default_addr() }
    }
}

/// End-to-end testing configuration.
#[derive(Debug, Clone)]
pub struct E2eConfig {
    pub headless: Option<bool>,
    pub browser: Option<String>,
    pub base_url: Option<String>,
}

impl Default for E2eConfig {
    fn default() -> (c: Self)
        ensures
            c.headless is None,
            c.browser is None,
            c.base_url is None,
    {
        E2eConfig { headless: None, browser: None, base_url: None }
    }
}

/// A custom task: a bare command, or a command with metadata.
#[derive(Debug, Clone)]
pub enum TaskConfig {
    /// A simple command string.
    Simple(String),
    /// A detailed task definition.
    Detailed {
        command: String,
        description: Option<String>,
        category: Option<String>,
        /// Tasks to run before this one, in order.
        dependencies: Vec<String>,
        /// Environment variables set for the command.
        env: Vec<(String, String)>,
    },
}

/// The names of a list of strings.
pub open spec fn names_of(v: Seq<String>) -> Seq<Seq<char>> {
    v.map_values(|s: String| s@)
}

impl TaskConfig {
    /// The names of the tasks it depends on.
    pub open spec fn deps(&self) -> Seq<Seq<char>> {
        match self {
            TaskConfig::Simple(_) => Seq::empty(),
            TaskConfig::Detailed { dependencies, .. } => names_of(dependencies@),
        }
    }
}

/// Merge options of a Tailwind configuration.
#[derive(Debug, Clone)]
pub struct MergeConfig {
    pub prefix: Option<String>,
    pub separator: Option<String>,
}

/// The root configuration of a project.
#[derive(Debug, Clone)]
pub struct MontConfig {
    pub project: ProjectConfig,
    pub build: BuildConfig,
    pub serve: ServeConfig,
    pub e2e: E2eConfig,
    /// Custom task definitions, by name.
    pub tasks: Vec<(String, TaskConfig)>,
}

impl Default for MontConfig {
    fn default() -> (c: Self)
        ensures
            c.project.is_default(),
            c.build.is_default(),
            c.serve.port == 8080,
            c.serve.addr@ == "127.0.0.1"@,
            c.e2e.headless is None,
            c.e2e.browser is None,
            c.e2e.base_url is None,
            c.tasks@.len() == 0,
    {
        MontConfig {
            project: ProjectConfig::default(),
            build: BuildConfig::default(),
            serve: ServeConfig::default(),
            e2e: E2eConfig::default(),
            tasks: Vec::new(),
        }
    }
}

} // verus!
