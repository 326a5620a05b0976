use montrs::config::{BuildConfig, MontConfig, TailwindStyle, TaskConfig};
use montrs::framework::{get_framework_invariants, InvariantDocs};
use montrs::scaffold::{provision_project, ScaffoldTemplate, GITIGNORE, LEPTOS_INDEX_HTML};
use montrs::schema::{derive_schema, run_check, validate, CheckInput, FieldCheck, SchemaRule};
use montrs::sketch::{parse_sketch_kind, plate_name_from_sketch, sketch_file_name, sketch_kind, strip_sketch_doc_lines, SketchKind};
use montrs::tailwind::{tailwind_action, use_generated_config, TailwindAction, TailwindToml};
use montrs::tasks::{list_tasks, PlanOutcome};
use montrs::test_report::{collect_test_suites, junit_suite_attrs, TestEvent, TestReportState, TestStatus};

fn s(v: &[&str]) -> Vec<String> {
    v.iter().map(|x| x.to_string()).collect()
}

fn detailed(cmd: &str, deps: &[&str], category: Option<&str>, description: Option<&str>) -> TaskConfig {
    TaskConfig::Detailed {
        command: cmd.to_string(),
        description: description.map(|d| d.to_string()),
        category: category.map(|c| c.to_string()),
        dependencies: s(deps),
        env: Vec::new(),
    }
}

fn config_with(tasks: Vec<(&str, TaskConfig)>) -> MontConfig {
    let mut c = MontConfig::default();
    c.tasks = tasks.into_iter().map(|(n, t)| (n.to_string(), t)).collect();
    c
}

#[test]
fn tasks_run_after_their_dependencies() {
    let c = config_with(vec![
        ("build", detailed("cargo build", &["fmt", "lint"], None, None)),
        ("fmt", TaskConfig::Simple("cargo fmt".to_string())),
        ("lint", detailed("cargo clippy", &["fmt"], Some("Checks"), Some("Lints"))),
    ]);
    let plan = c.plan_task("build");
    assert_eq!(plan.steps, s(&["fmt", "lint", "build"]));
    assert_eq!(plan.outcome, PlanOutcome::Complete);
    assert!(matches!(c.task("fmt"), Some(TaskConfig::Simple(_))));
    assert!(c.task("deploy").is_none());
    let missing = c.plan_task("deploy");
    assert!(missing.steps.is_empty());
    assert_eq!(missing.outcome, PlanOutcome::MissingTask("deploy".to_string()));
}

#[test]
fn missing_dependencies_and_cycles_stop_the_run() {
    let c = config_with(vec![
        ("a", detailed("x", &["b", "ghost", "c"], None, None)),
        ("b", TaskConfig::Simple("y".to_string())),
        ("c", TaskConfig::Simple("z".to_string())),
    ]);
    let plan = c.plan_task("a");
    assert_eq!(plan.steps, s(&["b"]));
    assert_eq!(plan.outcome, PlanOutcome::MissingTask("ghost".to_string()));
    let cyc = config_with(vec![
        ("a", detailed("x", &["b"], None, None)),
        ("b", detailed("y", &["a"], None, None)),
    ]);
    let plan = cyc.plan_task("a");
    assert!(plan.steps.is_empty());
    assert_eq!(plan.outcome, PlanOutcome::Cycle("a".to_string()));
}

#[test]
fn tasks_are_listed_by_category() {
    let c = config_with(vec![
        ("fmt", TaskConfig::Simple("cargo fmt".to_string())),
        ("lint", detailed("cargo clippy", &[], Some("Checks"), Some("Lints"))),
        ("test", detailed("cargo test", &[], None, None)),
        ("audit", detailed("cargo audit", &[], Some("Checks"), None)),
    ]);
    let groups = list_tasks(&c);
    let cats: Vec<String> = groups.iter().map(|g| g.0.clone()).collect();
    assert_eq!(cats, s(&["General", "Checks"]));
    let general: Vec<(String, Option<String>)> =
        groups[0].1.iter().map(|l| (l.name.clone(), l.description.clone())).collect();
    assert_eq!(
        general,
        vec![("fmt".to_string(), None), ("test".to_string(), Some("No description".to_string()))]
    );
    assert_eq!(groups[1].1.len(), 2);
    assert_eq!(groups[1].1[0].description, Some("Lints".to_string()));
    let total: usize = groups.iter().map(|g| g.1.len()).sum();
    assert_eq!(total, c.tasks.len());
}

fn ev(kind: &str, event: &str, name: Option<&str>, bits: Option<u64>, stdout: Option<&str>) -> TestEvent {
    TestEvent {
        kind: Some(kind.to_string()),
        event: Some(event.to_string()),
        name: name.map(|n| n.to_string()),
        exec_time_bits: bits,
        stdout: stdout.map(|o| o.to_string()),
    }
}

#[test]
fn test_events_become_suites() {
    let events = vec![
        ev("suite", "started", None, None, None),
        ev("test", "ok", Some("a"), Some(0.5f64.to_bits()), None),
        ev("test", "failed", Some("b"), None, Some("boom")),
        ev("test", "ignored", Some("c"), None, None),
        ev("suite", "failed", None, None, None),
        ev("suite", "started", None, None, None),
        ev("test", "ok", None, None, None),
        ev("suite", "started", None, None, None),
    ];
    let suites = collect_test_suites(&events);
    assert_eq!(suites.len(), 2);
    assert_eq!(suites[0].tests.len(), 2);
    assert_eq!(suites[0].tests[0].status, TestStatus::Pass);
    assert_eq!(f64::from_bits(suites[0].tests[0].duration_bits), 0.5);
    assert_eq!(suites[0].tests[1].message, Some("boom".to_string()));
    assert_eq!(suites[1].tests[0].name, "unknown");
    assert_eq!(suites[1].tests[0].duration_bits, 0.0f64.to_bits());
    let (name, tests, failures) = junit_suite_attrs(0, &suites[0]);
    assert_eq!((name.as_str(), tests.as_str(), failures.as_str()), ("suite-0", "2", "1"));
    let mut st = TestReportState::new();
    st.apply(&ev("suite", "started", None, None, None));
    assert!(st.finish().is_empty());
}

#[test]
fn tailwind_config_generation() {
    assert_eq!(tailwind_action(TailwindStyle::V4, true), TailwindAction::Skip);
    assert_eq!(tailwind_action(TailwindStyle::Toml, false), TailwindAction::MissingToml);
    assert_eq!(tailwind_action(TailwindStyle::Toml, true), TailwindAction::Generate);
    assert_eq!(tailwind_action(TailwindStyle::Auto, false), TailwindAction::Skip);
    assert_eq!(tailwind_action(TailwindStyle::Auto, true), TailwindAction::Generate);
    let t = TailwindToml {
        content: Some(s(&["./src/**/*.rs"])),
        theme: None,
        plugins: Some(s(&["@tailwindcss/forms"])),
        merge: None,
    };
    assert_eq!(
        t.to_js(),
        "module.exports = {\n  content: [\"./src/**/*.rs\"],\n  theme: {},\n  plugins: [require('@tailwindcss/forms'),]\n}"
    );
    let escaped = TailwindToml {
        content: Some(vec!["a\"b".to_string(), "c\\d\n\u{1}é/".to_string()]),
        theme: None,
        plugins: None,
        merge: None,
    };
    assert_eq!(
        escaped.to_js(),
        "module.exports = {\n  content: [\"a\\\"b\",\"c\\\\d\\n\\u0001é/\"],\n  theme: {},\n  plugins: []\n}"
    );
    let none = TailwindToml { content: Some(Vec::new()), theme: None, plugins: None, merge: None };
    assert!(none.to_js().contains("content: [],"));
    let empty = TailwindToml { content: None, theme: Some(serde_json::from_str::<serde_json::Value>("{\"x\": 1}").unwrap()), plugins: None, merge: None };
    assert_eq!(
        empty.to_js(),
        "module.exports = {\n  content: [],\n  theme: {\n  \"x\": 1\n},\n  plugins: []\n}"
    );
    let mut b = BuildConfig::default();
    use_generated_config(&mut b, "tailwind.config.js".to_string());
    assert_eq!(b.tailwind_config_file, Some("tailwind.config.js".to_string()));
    use_generated_config(&mut b, "other.js".to_string());
    assert_eq!(b.tailwind_config_file, Some("tailwind.config.js".to_string()));
}

#[test]
fn new_projects_get_their_files() {
    match provision_project("shop", true, ScaffoldTemplate::Plain) {
        Err(m) => assert_eq!(m, "Directory shop already exists"),
        Ok(_) => panic!(),
    }
    let plan = provision_project("shop", false, ScaffoldTemplate::Leptos).unwrap();
    assert_eq!(plan.dirs, s(&["shop/crates", "shop/app/src", "shop/docs"]));
    let paths: Vec<String> = plan.files.iter().map(|f| f.0.clone()).collect();
    assert_eq!(
        paths,
        s(&[
            "shop/Cargo.toml",
            "shop/app/Cargo.toml",
            "shop/app/src/main.rs",
            "shop/index.html",
            "shop/Makefile.toml",
            "shop/trunk.toml",
            "shop/.gitignore"
        ])
    );
    assert_eq!(plan.files[3].1, LEPTOS_INDEX_HTML);
    assert_eq!(plan.files[6].1, GITIGNORE);
    let plain = provision_project("p", false, ScaffoldTemplate::Plain).unwrap();
    assert_eq!(plain.files.len(), 6);
    assert_eq!(plain.files[2].1, "fn main() { println!(\"Hello, MontRS!\"); }");
    assert!(plain.files[0].1.contains("members = [\"app\", \"crates/*\"]"));
}

#[test]
fn schema_checks_and_messages() {
    let checks = derive_schema(&vec![
        ("name".to_string(), vec![SchemaRule::MinLen(3)]),
        ("email".to_string(), vec![SchemaRule::Email, SchemaRule::Custom("check_domain".to_string())]),
        ("code".to_string(), vec![SchemaRule::Regex("^[a-z]+$".to_string())]),
    ]);
    let fields: Vec<String> = checks.iter().map(|c| c.field.clone()).collect();
    assert_eq!(fields, s(&["name", "email", "email", "code"]));
    assert_eq!(run_check(&checks[0], "ab", None), Err("name is too short (min 3)".to_string()));
    assert_eq!(run_check(&checks[0], "abc", None), Ok(()));
    assert_eq!(run_check(&checks[0], "é", None), Err("name is too short (min 3)".to_string()));
    // the minimum counts characters, not bytes
    assert_eq!(run_check(&checks[0], "éa", None), Err("name is too short (min 3)".to_string()));
    assert_eq!(run_check(&checks[0], "éab", None), Ok(()));
    assert_eq!(run_check(&checks[1], "a.b", None), Err("email must be a valid email".to_string()));
    assert_eq!(run_check(&checks[1], "a@b", None), Ok(()));
    assert_eq!(run_check(&checks[2], "x", Some("bad domain".to_string())), Err("email: bad domain".to_string()));
    assert_eq!(run_check(&checks[3], "", None), Ok(()));
    let c = FieldCheck { field: "f".to_string(), rule: SchemaRule::Custom("g".to_string()) };
    assert_eq!(run_check(&c, "v", None), Ok(()));
}

fn input(value: &str, custom_error: Option<&str>) -> CheckInput {
    CheckInput { value: value.to_string(), custom_error: custom_error.map(|e| e.to_string()) }
}

#[test]
fn validation_reports_the_first_failing_check() {
    let checks = derive_schema(&vec![
        ("name".to_string(), vec![SchemaRule::MinLen(3)]),
        ("email".to_string(), vec![SchemaRule::Email, SchemaRule::Custom("check_domain".to_string())]),
        ("code".to_string(), vec![SchemaRule::Regex("^[a-z]+$".to_string())]),
    ]);
    let run = |inputs: Vec<CheckInput>| {
        let items: Vec<(FieldCheck, CheckInput)> = checks.iter().cloned().zip(inputs).collect();
        validate(&items)
    };
    assert_eq!(
        run(vec![input("bob", None), input("b@x", None), input("b@x", None), input("zz", None)]),
        Ok(())
    );
    assert_eq!(
        run(vec![input("bo", None), input("bx", None), input("bx", Some("bad")), input("", None)]),
        Err("name is too short (min 3)".to_string())
    );
    assert_eq!(
        run(vec![input("bob", None), input("bx", None), input("bx", Some("bad")), input("", None)]),
        Err("email must be a valid email".to_string())
    );
    assert_eq!(
        run(vec![input("bob", None), input("b@x", None), input("b@x", Some("bad")), input("", None)]),
        Err("email: bad".to_string())
    );
    assert_eq!(validate(&Vec::new()), Ok(()));
}

#[test]
fn sketches_are_recognised() {
    assert_eq!(sketch_kind("impl<C: AppConfig> Plate<C> for X"), Some(SketchKind::Plate));
    assert_eq!(sketch_kind("impl<C: AppConfig> Route<C> for X"), Some(SketchKind::Route));
    assert_eq!(sketch_kind("impl AppConfig for X"), Some(SketchKind::App));
    assert_eq!(sketch_kind("fn main() {}"), None);
    assert_eq!(parse_sketch_kind("route"), Ok(SketchKind::Route));
    assert_eq!(
        parse_sketch_kind("widget"),
        Err("Unknown component kind: widget. Use plate, route, or app.".to_string())
    );
    assert_eq!(sketch_file_name("My Blog"), "my_blog.sketch.rs");
    assert_eq!(sketch_file_name("ÀB C"), "àb_c.sketch.rs");
    let sketch = "//! Plate Sketch\n// [REQUIRED] Plate structure\npub struct BlogPlate;\nimpl X {}";
    // the comment line mentions both words first, and its third word is "Plate"
    assert_eq!(plate_name_from_sketch(sketch), "");
    assert_eq!(plate_name_from_sketch("//! x\npub struct BlogPlate;\n"), "Blog");
    assert_eq!(plate_name_from_sketch("struct Plate"), "Unknown");
    assert_eq!(plate_name_from_sketch("no plates here"), "Unknown");
    assert_eq!(strip_sketch_doc_lines(sketch), "// [REQUIRED] Plate structure\npub struct BlogPlate;\nimpl X {}");
    assert_eq!(strip_sketch_doc_lines("//! only"), "");
}

#[test]
fn invariants_are_keyed_by_package() {
    let d = |x: &str| x.to_string();
    let docs = InvariantDocs {
        core: d("c"),
        agent: d("a"),
        cli: d("l"),
        orm: d("o"),
        schema: d("s"),
        test: d("t"),
        utils: d("u"),
        fmt: d("f"),
        bench: d("b"),
        montrs: d("m"),
    };
    let m = get_framework_invariants(&docs);
    assert_eq!(m.len(), 10);
    assert_eq!(m[0], ("core".to_string(), "c".to_string()));
    assert_eq!(m[9], ("montrs".to_string(), "m".to_string()));
}
