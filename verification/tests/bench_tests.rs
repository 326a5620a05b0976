use montrs::parameter::Parameter;
use montrs::weights::Weight;

#[test]
fn test_weight_calculation() {
    // Cost = Base + (Slope * N)
    let weight = Weight::from_ns(1000, 10);

    assert_eq!(weight.calc(0), 1000);
    assert_eq!(weight.calc(1), 1010);
    assert_eq!(weight.calc(100), 2000);

    // Saturation
    let huge_weight = Weight::from_ns(u64::MAX - 10, 10);
    assert_eq!(huge_weight.calc(10), u64::MAX);
}

#[test]
fn test_parameter_iteration() {
    let param = Parameter::new("test", 1..=5).with_step(2);
    let values = param.values();

    assert_eq!(values, vec![1, 3, 5]);
}

use montrs::bench::{
    bench_selected, continue_measuring, parametric_plan, runs_per_value, BenchCase, BenchStep, ParametricBench,
    SimpleBench,
};
use montrs::bench_config::{parse_duration, BenchConfig, CliArgs};
use montrs::env::TestEnv;

fn no_args() -> CliArgs {
    CliArgs { warmup_iterations: None, iterations: None, duration: None, filter: None, json_output: None }
}

#[test]
fn test_config_priority() {
    // 1. Default values
    let empty_env = TestEnv::new();
    let config = BenchConfig::resolve(no_args(), &empty_env);
    assert_eq!(config.warmup_iterations, 10);
    assert_eq!(config.iterations, 100);
    assert_eq!(config.duration, Some(5));

    // 2. Env vars
    let mut env = TestEnv::new();
    env.set("MONTRS_BENCH_WARMUP", "30");
    let config = BenchConfig::resolve(no_args(), &env);
    assert_eq!(config.warmup_iterations, 30);

    // 3. Arguments win over the environment
    let mut args = no_args();
    args.warmup_iterations = Some(40);
    let config = BenchConfig::resolve(args, &env);
    assert_eq!(config.warmup_iterations, 40);

    // 4. Timeout from the arguments
    let mut args = no_args();
    args.duration = parse_duration("10");
    let config = BenchConfig::resolve(args, &empty_env);
    assert_eq!(config.duration, Some(10));

    // 5. Filter and JSON output
    let mut args = no_args();
    args.filter = Some("my_test".to_string());
    args.json_output = Some("report.json".to_string());
    let config = BenchConfig::resolve(args, &empty_env);
    assert_eq!(config.filter, Some("my_test".to_string()));
    assert_eq!(config.json_output, Some("report.json".to_string()));
}

#[test]
fn resolve_falls_back_to_old_names_and_defaults() {
    let mut env = TestEnv::new();
    env.set("MONTRS_BENCH_ITERATIONS", "not-a-number");
    env.set("MONT_BENCH_ITERATIONS", "7");
    env.set("MONTRS_BENCH_TIMEOUT", "oops");
    env.set("MONT_BENCH_TIMEOUT", "9");
    env.set("MONT_BENCH_JSON_OUTPUT", "old.json");
    env.set("MONT_BENCH_FILTER", "ignored");
    let config = BenchConfig::resolve(no_args(), &env);
    // an unparsable current value falls back to the older name for numbers
    assert_eq!(config.iterations, 7);
    // the timeout too: arguments, new name, old name, default
    assert_eq!(config.duration, Some(9));
    assert_eq!(config.json_output, Some("old.json".to_string()));
    // the filter has no older name
    assert_eq!(config.filter, None);
}

#[test]
fn unusable_timeout_with_no_old_name_means_the_default() {
    let mut env = TestEnv::new();
    env.set("MONTRS_BENCH_TIMEOUT", "abc");
    let config = BenchConfig::resolve(no_args(), &env);
    assert_eq!(config.duration, Some(5));
    env.set("MONT_BENCH_TIMEOUT", "7");
    let config = BenchConfig::resolve(no_args(), &env);
    assert_eq!(config.duration, Some(7));
}

#[test]
fn default_config_matches_documented_defaults() {
    let c = BenchConfig::default();
    assert_eq!(c.warmup_iterations, 10);
    assert_eq!(c.iterations, 100);
    assert_eq!(c.duration, Some(5));
    assert_eq!(c.filter, None);
    assert_eq!(c.json_output, None);
}

#[test]
fn parse_duration_reads_whole_seconds() {
    assert_eq!(parse_duration("42"), Some(42));
    assert_eq!(parse_duration("+3"), Some(3));
    assert_eq!(parse_duration("-3"), None);
    assert_eq!(parse_duration(""), None);
    assert_eq!(parse_duration("18446744073709551615"), Some(u64::MAX));
    assert_eq!(parse_duration("18446744073709551616"), None);
}

#[test]
fn weight_formula_and_laws() {
    let w = Weight::from_ns(5, 3);
    assert_eq!(w.base(), 5);
    assert_eq!(w.slope(), 3);
    assert_eq!(w.calc(0), w.base());
    assert_eq!(w.calc(7), 26);
    assert!(w.calc(7) <= w.calc(8));
    let huge = Weight::from_ns(1, u64::MAX);
    assert_eq!(huge.calc(2), u64::MAX);
}

#[test]
fn parameter_values_edges() {
    assert_eq!(Parameter::new("p", 3..=3).values(), vec![3]);
    assert_eq!(Parameter::new("p", 4..=2).values(), Vec::<u32>::new());
    assert_eq!(Parameter::new("p", 1..=9).with_step(0).values(), vec![1]);
    assert_eq!(Parameter::new("p", 0..=10).with_step(5).values(), vec![0, 5, 10]);
    assert!(Parameter::new("p", 0..=u32::MAX).with_step(2).can_enumerate() == false);
    assert!(Parameter::new("p", 0..=10).with_step(3).can_enumerate());
}

#[test]
fn runs_per_value_shares_iterations() {
    assert_eq!(runs_per_value(100, 3), 33);
    assert_eq!(runs_per_value(2, 5), 1);
    assert_eq!(runs_per_value(0, 1), 1);
}

#[test]
fn measuring_stops_at_count_or_time_limit() {
    let c = BenchConfig::default();
    assert!(continue_measuring(&c, 0, 10_000_000_000));
    assert!(continue_measuring(&c, 5, 5_000_000_000));
    assert!(!continue_measuring(&c, 5, 5_000_000_001));
    assert!(!continue_measuring(&c, 100, 0));
    let mut no_limit = BenchConfig::default();
    no_limit.duration = None;
    assert!(continue_measuring(&no_limit, 99, u128::MAX));
}

#[test]
fn parametric_plan_measures_each_value() {
    let plan = parametric_plan(&vec![1, 3], 2);
    assert_eq!(
        plan,
        vec![
            BenchStep::SetParameter(1),
            BenchStep::Prime,
            BenchStep::Measure(1),
            BenchStep::Measure(1),
            BenchStep::SetParameter(3),
            BenchStep::Prime,
            BenchStep::Measure(3),
            BenchStep::Measure(3),
        ]
    );
    let measured: Vec<u32> = plan
        .iter()
        .filter_map(|s| if let BenchStep::Measure(v) = s { Some(*v) } else { None })
        .collect();
    assert_eq!(measured.len(), 2 * 2);
}

#[test]
fn filter_selects_by_substring() {
    let mut c = BenchConfig::default();
    assert!(bench_selected(&c, "anything"));
    c.filter = Some("db".to_string());
    assert!(bench_selected(&c, "db_insert"));
    assert!(!bench_selected(&c, "render"));
}

#[test]
fn bench_cases_report_names_and_parameters() {
    let s = SimpleBench::new("simple", || 1);
    assert_eq!(s.name(), "simple");
    assert!(s.parameter().is_none());
    assert_eq!((s.func())(), 1);
    let p = Parameter::new("n", 2..=6).with_step(2);
    let mut b = ParametricBench::new("param", p, |n: u32| n);
    assert_eq!(b.current_param(), 2);
    b.set_parameter(6);
    assert_eq!(b.current_param(), 6);
    let q = b.parameter().unwrap();
    assert_eq!(q.name, "n");
    assert_eq!(q.values(), vec![2, 4, 6]);
    b.set_param(4);
    assert_eq!(b.name(), "param");
    assert_eq!((b.func())(b.current_param()), 4);
    assert_eq!(b.start_run(), 4);
    assert_eq!(b.start_run(), 4);
    b.set_param(5);
    assert_eq!(b.start_run(), 5);
}
