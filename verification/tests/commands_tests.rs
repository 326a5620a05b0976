use montrs::commands::{
    appspec_config_path, bench_mode, cargo_leptos_args, cargo_test_args, e2e_env, mont_bench_plan,
    native_target_kind, report_output_path, run_cargo_bench, uses_json_output, BenchMode, NativeTarget,
};
use montrs::config::{E2eConfig, ProjectConfig};

fn s(v: &[&str]) -> Vec<String> {
    v.iter().map(|x| x.to_string()).collect()
}

fn pairs(v: &[(&str, &str)]) -> Vec<(String, String)> {
    v.iter().map(|(a, b)| (a.to_string(), b.to_string())).collect()
}

#[test]
fn project_bench_invocation() {
    let p = run_cargo_bench(
        Some("t".to_string()),
        50,
        5,
        Some(30),
        Some("db".to_string()),
        Some("out.json".to_string()),
        Some("w.rs".to_string()),
    );
    assert_eq!(p.program, "cargo");
    assert_eq!(
        p.args,
        s(&[
            "bench",
            "t",
            "db",
            "--",
            "--iterations=50",
            "--warmup=5",
            "--timeout=30",
            "--json-output=out.json",
            "--generate-weights=w.rs"
        ])
    );
    assert_eq!(
        p.env,
        pairs(&[
            ("MONTRS_BENCH_ITERATIONS", "50"),
            ("MONTRS_BENCH_WARMUP", "5"),
            ("MONTRS_BENCH_TIMEOUT", "30"),
            ("MONTRS_BENCH_JSON_OUTPUT", "out.json"),
            ("MONTRS_BENCH_GENERATE_WEIGHTS", "w.rs")
        ])
    );
    let q = run_cargo_bench(None, 100, 10, None, None, None, None);
    assert_eq!(q.args, s(&["bench", "--", "--iterations=100", "--warmup=10"]));
    assert_eq!(q.env.len(), 2);
    let m = mont_bench_plan(7, 0, None, Some("f".to_string()), Some("r.json".to_string()));
    assert_eq!(m.args, s(&["bench", "f", "--", "--iterations=7", "--warmup=0", "--json-output=r.json"]));
    assert_eq!(
        m.env,
        pairs(&[("MONT_BENCH_ITERATIONS", "7"), ("MONT_BENCH_WARMUP", "0"), ("MONT_BENCH_JSON_OUTPUT", "r.json")])
    );
}

#[test]
fn build_tool_arguments_follow_flags() {
    let mut p = ProjectConfig::default();
    assert_eq!(cargo_leptos_args("build", &vec![], &p), s(&["cargo-leptos", "build", "--js-minify"]));
    p.release = true;
    p.js_minify = false;
    p.server_only = true;
    p.features = s(&["ssr", "csr"]);
    p.verbose = 2;
    assert_eq!(
        cargo_leptos_args("watch", &s(&["a", "b"]), &p),
        s(&[
            "cargo-leptos",
            "watch",
            "--release",
            "--js-minify=false",
            "--server-only",
            "--features",
            "ssr",
            "--features",
            "csr",
            "-v",
            "-v",
            "--",
            "a",
            "b"
        ])
    );
}

#[test]
fn test_command_arguments() {
    assert_eq!(cargo_test_args(None, None, "human"), s(&["test", "--workspace"]));
    assert_eq!(
        cargo_test_args(Some("api".to_string()), Some(4), "junit"),
        s(&["test", "--workspace", "api", "-j", "4", "--message-format=json"])
    );
    assert!(uses_json_output("json"));
    assert!(!uses_json_output("human"));
    assert_eq!(report_output_path("junit", None), "report.xml");
    assert_eq!(report_output_path("json", None), "report.json");
    assert_eq!(report_output_path("junit", Some("x.xml".to_string())), "x.xml");
}

#[test]
fn end_to_end_settings() {
    let cfg = E2eConfig { headless: Some(true), browser: Some("firefox".to_string()), base_url: Some("http://x".to_string()) };
    assert_eq!(
        e2e_env(false, true, None, &cfg, false, true),
        pairs(&[
            ("MONT_E2E_HEADLESS", "true"),
            ("MONT_E2E_KEEP_ALIVE", "true"),
            ("MONT_E2E_BROWSER", "firefox"),
            ("MONT_SITE_URL", "http://x"),
            ("LEPTOS_END2END_CMD", "cargo test --package e2e")
        ])
    );
    let none = E2eConfig { headless: None, browser: None, base_url: None };
    assert_eq!(
        e2e_env(false, false, Some("webkit".to_string()), &none, true, false),
        pairs(&[
            ("MONT_E2E_HEADLESS", "false"),
            ("MONT_E2E_BROWSER", "webkit"),
            ("LEPTOS_END2END_DIR", "e2e")
        ])
    );
    assert_eq!(e2e_env(false, false, None, &none, true, true)[1], ("MONT_E2E_BROWSER".to_string(), "chromium".to_string()));
}

#[test]
fn bench_modes_and_targets() {
    assert!(matches!(bench_mode(false, None), Ok(BenchMode::Cargo)));
    match bench_mode(true, None) {
        Err(m) => assert_eq!(m, "--simple mode requires a target file or directory."),
        _ => panic!(),
    }
    match bench_mode(true, Some("bin".to_string())) {
        Ok(BenchMode::Native(t)) => assert_eq!(t, "bin"),
        _ => panic!(),
    }
    assert_eq!(native_target_kind("app", true), NativeTarget::AppSpec);
    assert_eq!(native_target_kind("x/montrs.toml", false), NativeTarget::AppSpec);
    assert_eq!(native_target_kind("x/main.rs", false), NativeTarget::RustSource);
    assert_eq!(native_target_kind("x/tool", false), NativeTarget::Executable);
    assert_eq!(appspec_config_path("app", true), "app/montrs.toml");
    assert_eq!(appspec_config_path("a/montrs.toml", false), "a/montrs.toml");
}
