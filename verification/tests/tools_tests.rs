use montrs::discovery::{
    diff_from_output, discover_plates_heuristically, generate_snapshot, get_file_description, is_rust_source,
    is_walkable_entry, snapshot_extension, WalkedFile, ARCHITECTURE_GUIDE,
};
use montrs::agent::Timestamp;
use montrs::tools::{
    base_tools, generate_tools_spec, package_tool, parse_agent_tool_marker, readme_advertises_capability,
    scan_source_for_tools, tool_from_marker, PackageSources, ParamKind, ToolSources,
};

fn names(tools: &[montrs::tools::ToolSpec]) -> Vec<String> {
    tools.iter().map(|t| t.name.clone()).collect()
}

#[test]
fn base_tools_are_the_five_builtins() {
    let t = base_tools();
    assert_eq!(
        names(&t),
        vec!["montrs_build", "montrs_spec", "montrs_fmt", "montrs_sketch", "montrs_expand"]
    );
    assert_eq!(t[3].required, vec!["name".to_string()]);
    assert_eq!(t[4].required, vec!["path".to_string()]);
    match &t[1].params[0].kind {
        ParamKind::Choice(v) => assert_eq!(v, &vec!["json".to_string(), "yaml".to_string(), "txt".to_string()]),
        _ => panic!("format is a choice"),
    }
    assert_eq!(t[2].params[1].description.as_deref(), Some("Path to format (default: .)"));
}

#[test]
fn marker_lines_are_parsed() {
    let t = parse_agent_tool_marker("// @agent-tool: name=\"deploy\" desc=\"Deploys the app\"").unwrap();
    assert_eq!(t.name, "deploy");
    assert_eq!(t.description, "Deploys the app");
    assert!(t.params.is_empty());
    assert!(parse_agent_tool_marker("// @agent-tool: name=\"x\"").is_none());
    assert!(parse_agent_tool_marker("// @agent-tool:name=\"x\" desc=\"y\"").is_none());
    assert!(tool_from_marker(None).is_none());
}

#[test]
fn scanning_skips_known_names() {
    let mut tools = base_tools();
    let src = "// @agent-tool: name=\"a\" desc=\"first\"\nfn x() {}\n// @agent-tool: name=\"a\" desc=\"again\"\r\n// @agent-tool: name=\"montrs_fmt\" desc=\"dup\"\n// name=\"b\" desc=\"no marker\"\n";
    scan_source_for_tools(&mut tools, src);
    assert_eq!(names(&tools).len(), 6);
    assert_eq!(tools[5].name, "a");
    assert_eq!(tools[5].description, "first");
}

#[test]
fn readmes_and_packages_add_tools() {
    assert!(readme_advertises_capability("## Key Features"));
    assert!(readme_advertises_capability("An Agent guide"));
    assert!(!readme_advertises_capability("plain readme"));
    let p = package_tool("orm");
    assert_eq!(p.name, "montrs_pkg_orm");
    assert_eq!(p.description, "Capability provided by package orm. Refer to its README for details.");
    let src = ToolSources::Packages(vec![
        PackageSources {
            name: "orm".to_string(),
            readme: Some("Key Components".to_string()),
            sources: vec!["// @agent-tool: name=\"migrate\" desc=\"Runs migrations\"".to_string()],
        },
        PackageSources { name: "quiet".to_string(), readme: Some("nothing".to_string()), sources: vec![] },
    ]);
    let all = generate_tools_spec(&src);
    assert_eq!(names(&all)[5..].to_vec(), vec!["montrs_pkg_orm".to_string(), "migrate".to_string()]);
    let flat = generate_tools_spec(&ToolSources::Flat(vec!["// @agent-tool: name=\"f\" desc=\"d\"".to_string()]));
    assert_eq!(names(&flat).len(), 6);
}

#[test]
fn file_descriptions_come_from_doc_lines() {
    assert_eq!(get_file_description("//! Top docs\nfn x() {}"), Some("Top docs".to_string()));
    assert_eq!(get_file_description("fn x() {}\n   /// Item docs  \n"), Some("Item docs".to_string()));
    assert_eq!(get_file_description("//!\n//!   \n/// second"), Some("second".to_string()));
    assert_eq!(get_file_description("// plain\nfn x() {}"), None);
    assert_eq!(get_file_description("///! both"), Some("! both".to_string()));
    assert_eq!(get_file_description("\u{3000}//!\u{A0}wide\u{2003}"), Some("wide".to_string()));
}

#[test]
fn plates_and_routes_are_discovered() {
    let files = vec![
        "//! Auth plate\nimpl Plate for AuthPlate {}\nimpl<C> Plate<C> for AuthPlate {}\nimpl Route for LoginRoute {}".to_string(),
        "impl  Plate<AppCfg>  for BlogPlate {}\nimpl Route for LoginRoute {}".to_string(),
    ];
    let (plates, routes) = discover_plates_heuristically(&files);
    let pn: Vec<(String, String)> = plates.iter().map(|p| (p.name.clone(), p.description.clone())).collect();
    assert_eq!(
        pn,
        vec![
            ("AuthPlate".to_string(), "Auth plate".to_string()),
            ("BlogPlate".to_string(), "Discovered plate".to_string())
        ]
    );
    assert_eq!(routes.len(), 2);
    assert_eq!(routes[0].path, "(impl) LoginRoute");
    assert_eq!(routes[0].description, "Heuristically discovered Route: LoginRoute");
}

#[test]
fn test_agent_generation() {
    let files = vec![
        WalkedFile { path: "test.rs".to_string(), content: Some("fn main() {}".to_string()) },
        WalkedFile { path: "src/lib.rs".to_string(), content: Some("//! The lib".to_string()) },
        WalkedFile { path: "README.md".to_string(), content: None },
    ];
    let snap = generate_snapshot("test-project".to_string(), Timestamp { secs: 0, nanos: 0 }, &files, &vec![]);
    assert_eq!(snap.project_name, "test-project");
    assert!(snap.structure.iter().any(|f| f.path == "test.rs"));
    assert_eq!(snap.structure[1].description, Some("The lib".to_string()));
    assert_eq!(snap.structure[2].description, None);
    assert!(snap.documentation_snippets.iter().any(|(k, v)| k == "architecture" && v == ARCHITECTURE_GUIDE));
    assert_eq!(snap.framework_version, "0.1.0");
    assert_eq!(snapshot_extension("json"), "json");
    assert_eq!(snapshot_extension("yaml"), "yaml");
    assert_eq!(snapshot_extension("txt"), "txt");
    assert_eq!(snapshot_extension("xml"), "json");
}

#[test]
fn walking_and_extensions() {
    assert!(!is_walkable_entry(".git"));
    assert!(!is_walkable_entry("target"));
    assert!(!is_walkable_entry(".agent"));
    assert!(is_walkable_entry("src"));
    assert!(is_rust_source("src/main.rs"));
    assert!(!is_rust_source("src/.rs"));
    assert!(is_rust_source("a/..rs"));
    assert!(!is_rust_source("notes.rst"));
    assert!(!is_rust_source("dir.rs/file"));
    assert_eq!(diff_from_output(true, "d".to_string()), Some("d".to_string()));
    assert_eq!(diff_from_output(true, String::new()), None);
    assert_eq!(diff_from_output(false, "d".to_string()), None);
}
