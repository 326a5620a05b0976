use montrs::app_spec::{AppConfig, ModuleContext, Target, TypedEnv};
use montrs::env::{EnvConfig, EnvConfigExt, EnvError, TestEnv};
use montrs::text::{decimal_string, lines_chars, parse_u32, trim_chars, trim_start_matches_chars};

#[test]
fn test_env_reads_back_what_was_set() {
    let mut env = TestEnv::new();
    assert!(matches!(env.get_var("K"), Err(EnvError::MissingKey(k)) if k == "K"));
    env.set("K", "1");
    env.set("K", "2");
    env.set("J", "x");
    assert_eq!(env.get_var("K").unwrap(), "2");
    assert_eq!(env.get::<String>("J").unwrap(), "x");
    assert!(env.get::<String>("missing").is_err());
    assert_eq!(EnvError::MissingKey("A".to_string()).message(), "Missing environment variable: A");
    assert_eq!(EnvError::InvalidType("B".to_string()).message(), "Invalid type for environment variable: B");
    let d = TestEnv::default();
    assert!(d.get_var("K").is_err());
}

#[test]
fn typed_env_holds_the_captured_variables() {
    let env = TypedEnv::from_vars(vec![
        ("A".to_string(), "1".to_string()),
        ("B".to_string(), "2".to_string()),
        ("A".to_string(), "3".to_string()),
    ]);
    assert_eq!(env.get_var("A").unwrap(), "3");
    assert_eq!(env.get_var("B").unwrap(), "2");
    assert!(env.get_var("C").is_err());
}

struct Cfg;
impl AppConfig for Cfg {
    type Error = String;
    type Env = TestEnv;
}

#[test]
fn module_context_exposes_config_and_env() {
    let mut env = TestEnv::new();
    env.set("DB", "url");
    let cfg = Cfg;
    let ctx = ModuleContext::new(&cfg, &env);
    assert_eq!(ctx.env.get_var("DB").unwrap(), "url");
    assert_ne!(Target::Server, Target::Wasm);
}

#[test]
fn text_helpers_follow_std() {
    let cases = ["a\nb", "a\r\nb\r\n", "\n\nx", "", "x\r", "a\n\n"];
    for c in cases {
        let chars: Vec<char> = c.chars().collect();
        let ours: Vec<String> = lines_chars(&chars).into_iter().map(|l| l.into_iter().collect()).collect();
        let std_lines: Vec<String> = c.lines().map(|l| l.to_string()).collect();
        assert_eq!(ours, std_lines, "lines of {:?}", c);
    }
    let t: String = trim_chars(&" \t\u{2028} x y \u{3000}".chars().collect::<Vec<char>>()).into_iter().collect();
    assert_eq!(t, " \t\u{2028} x y \u{3000}".trim());
    let m: String = trim_start_matches_chars(&"ababc".chars().collect::<Vec<char>>(), &['a', 'b'])
        .into_iter()
        .collect();
    assert_eq!(m, "ababc".trim_start_matches("ab"));
    assert_eq!(parse_u32("4294967295"), Some(u32::MAX));
    assert_eq!(parse_u32("4294967296"), None);
    assert_eq!(parse_u32("12a"), None);
    assert_eq!(decimal_string(0), "0");
    assert_eq!(decimal_string(1907), "1907");
}
