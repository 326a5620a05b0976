//! Benchmark run configuration: explicit arguments win over environment
//! variables (current names first, then their older names), which win over
//! the built-in defaults.
use vstd::prelude::*;
use crate::env::EnvConfig;
use crate::text::{parse_bounded, parse_u32, parse_u64};

verus! {

/// Warm-up runs when nothing else is configured.
pub const DEFAULT_WARMUP: u32 = 10;

/// Measured runs when nothing else is configured.
pub const DEFAULT_ITERATIONS: u32 = 100;

/// Time limit in seconds when nothing else is configured.
pub const DEFAULT_TIMEOUT_SECS: u64 = 5;

/// Configuration for benchmark execution.
#[derive(Debug, Clone)]
pub struct BenchConfig {
    /// Number of warm-up iterations.
    pub warmup_iterations: u32,
    /// Number of measurement iterations.
    pub iterations: u32,
    /// Maximum duration of a benchmark, in whole seconds.
    pub duration: Option<u64>,
    /// Only benchmarks whose name contains this text run.
    pub filter: Option<String>,
    /// Path to export the JSON report to.
    pub json_output: Option<String>,
}

/// The values given explicitly on the command line; `None` where an option
/// was not given.
#[derive(Debug, Clone)]
pub struct CliArgs {
    pub warmup_iterations: Option<u32>,
    pub iterations: Option<u32>,
    /// The `--timeout` value, in seconds.
    pub duration: Option<u64>,
    pub filter: Option<String>,
    pub json_output: Option<String>,
}

impl Default for BenchConfig {
    /// Ten warm-up runs, a hundred measured runs, a five second limit, no
    /// filter and no report file.
    fn default() -> (c: Self)
        ensures
            c.warmup_iterations == DEFAULT_WARMUP,
            c.iterations == DEFAULT_ITERATIONS,
            c.duration == Some(DEFAULT_TIMEOUT_SECS),
            c.filter is None,
            c.json_output is None,
    {
        BenchConfig {
            warmup_iterations: DEFAULT_WARMUP,
            iterations: DEFAULT_ITERATIONS,
            duration: Some(DEFAULT_TIMEOUT_SECS),
            filter: None,
            json_output: None,
        }
    }
}

/// The raw value of `new_key`, else (when `old_key` is not empty) that of
/// `old_key`.
pub open spec fn env_string<E: EnvConfig>(env: &E, new_key: Seq<char>, old_key: Seq<char>) -> Option<Seq<char>> {
    match env.var(new_key) {
        Some(v) => Some(v),
        None => if old_key.len() > 0 { env.var(old_key) } else { None },
    }
}

/// `v` read as a `u32`, when it is set and parses.
pub open spec fn read_u32(v: Option<Seq<char>>) -> Option<u32> {
    match v {
        Some(s) => match parse_bounded(s, u32::MAX as nat) {
            Some(n) => Some(n as u32),
            None => None,
        },
        None => None,
    }
}

/// `v` read as a `u64`, when it is set and parses.
pub open spec fn read_u64(v: Option<Seq<char>>) -> Option<u64> {
    match v {
        Some(s) => match parse_bounded(s, u64::MAX as nat) {
            Some(n) => Some(n as u64),
            None => None,
        },
        None => None,
    }
}

/// The `u32` under `new_key` if it is set and parses, else the one under
/// `old_key` (when that is not empty) if it is set and parses.
pub open spec fn env_u32<E: EnvConfig>(env: &E, new_key: Seq<char>, old_key: Seq<char>) -> Option<u32> {
    match read_u32(env.var(new_key)) {
        Some(n) => Some(n),
        None => if old_key.len() > 0 { read_u32(env.var(old_key)) } else { None },
    }
}

/// The `u64` under `new_key` if it is set and parses, else the one under
/// `old_key` (when that is not empty) if it is set and parses.
pub open spec fn env_u64<E: EnvConfig>(env: &E, new_key: Seq<char>, old_key: Seq<char>) -> Option<u64> {
    match read_u64(env.var(new_key)) {
        Some(n) => Some(n),
        None => if old_key.len() > 0 { read_u64(env.var(old_key)) } else { None },
    }
}

/// `first` if present, else `second`.
pub open spec fn or_else<T>(first: Option<T>, second: Option<T>) -> Option<T> {
    match first {
        Some(v) => Some(v),
        None => second,
    }
}

/// The value present in `o`, else `d`.
pub open spec fn or_default<T>(o: Option<T>, d: T) -> T {
    match o {
        Some(v) => v,
        None => d,
    }
}

/// Views of an optional string.
pub open spec fn opt_view(o: Option<String>) -> Option<Seq<char>> {
    match o {
        Some(s) => Some(s@),
        None => None,
    }
}

/// Parses a duration given in whole seconds, as `str::parse::<u64>` does.
pub fn parse_duration(arg: &str) -> (r: Option<u64>)
    ensures
        r == read_u64(Some(arg@)),
{
    parse_u64(arg)
}

impl BenchConfig {
    /// The raw value of `new_key`, else that of `old_key` unless it is empty.
    pub fn fetch_env_string<E: EnvConfig>(new_key: &str, old_key: &str, env: &E) -> (r: Option<String>)
        ensures
            opt_view(r) == env_string(env, new_key@, old_key@),
    {
        match env.get_var(new_key) {
            Ok(v) => Some(v),
            Err(_) => {
                if !old_key.is_empty() {
                    match env.get_var(old_key) {
                        Ok(v) => Some(v),
                        Err(_) => None,
                    }
                } else {
                    None
                }
            },
        }
    }

    /// The `u32` under `new_key` if it parses, else the one under `old_key`
    /// (unless that is empty) if it parses.
    pub fn fetch_env<E: EnvConfig>(new_key: &str, old_key: &str, env: &E) -> (r: Option<u32>)
        ensures
            r == env_u32(env, new_key@, old_key@),
    {
        if let Ok(v) = env.get_var(new_key) {
            if let Some(n) = parse_u32(v.as_str()) {
                return Some(n);
            }
        }
        if !old_key.is_empty() {
            if let Ok(v) = env.get_var(old_key) {
                if let Some(n) = parse_u32(v.as_str()) {
                    return Some(n);
                }
            }
        }
        None
    }

    /// The `u64` under `new_key` if it parses, else the one under `old_key`
    /// (unless that is empty) if it parses.
    fn fetch_env_u64<E: EnvConfig>(new_key: &str, old_key: &str, env: &E) -> (r: Option<u64>)
        ensures
            r == env_u64(env, new_key@, old_key@),
    {
        if let Ok(v) = env.get_var(new_key) {
            if let Some(n) = parse_duration(v.as_str()) {
                return Some(n);
            }
        }
        if !old_key.is_empty() {
            if let Ok(v) = env.get_var(old_key) {
                if let Some(n) = parse_duration(v.as_str()) {
                    return Some(n);
                }
            }
        }
        None
    }

    /// The configuration that `args` and `env` select: each value comes from
    /// the arguments if given there, else from the environment, else from
    /// the defaults.
    pub fn resolve<E: EnvConfig>(args: CliArgs, env: &E) -> (c: Self)
        ensures
            c.warmup_iterations == or_default(
                or_else(args.warmup_iterations, env_u32(env, "MONTRS_BENCH_WARMUP"@, "MONT_BENCH_WARMUP"@)),
                DEFAULT_WARMUP,
            ),
            c.iterations == or_default(
                or_else(args.iterations, env_u32(env, "MONTRS_BENCH_ITERATIONS"@, "MONT_BENCH_ITERATIONS"@)),
                DEFAULT_ITERATIONS,
            ),
            c.duration == Some(or_default(
                or_else(args.duration, env_u64(env, "MONTRS_BENCH_TIMEOUT"@, "MONT_BENCH_TIMEOUT"@)),
                DEFAULT_TIMEOUT_SECS,
            )),
            opt_view(c.filter) == or_else(opt_view(args.filter), env_string(env, "MONTRS_BENCH_FILTER"@, ""@)),
            opt_view(c.json_output) == or_else(
                opt_view(args.json_output),
                env_string(env, "MONTRS_BENCH_JSON_OUTPUT"@, "MONT_BENCH_JSON_OUTPUT"@),
            ),
    {
        let warmup_iterations = match args.warmup_iterations {
            Some(w) => w,
            None => match Self::fetch_env("MONTRS_BENCH_WARMUP", "MONT_BENCH_WARMUP", env) {
                Some(w) => w,
                None => DEFAULT_WARMUP,
            },
        };
        let iterations = match args.iterations {
            Some(n) => n,
            None => match Self::fetch_env("MONTRS_BENCH_ITERATIONS", "MONT_BENCH_ITERATIONS", env) {
                Some(n) => n,
                None => DEFAULT_ITERATIONS,
            },
        };
        let duration = match args.duration {
            Some(d) => d,
            None => match Self::fetch_env_u64("MONTRS_BENCH_TIMEOUT", "MONT_BENCH_TIMEOUT", env) {
                Some(d) => d,
                None => DEFAULT_TIMEOUT_SECS,
            },
        };
        let filter = match args.filter {
            Some(f) => Some(f),
            None => Self::fetch_env_string("MONTRS_BENCH_FILTER", "", env),
        };
        let json_output = match args.json_output {
            Some(j) => Some(j),
            None => Self::fetch_env_string("MONTRS_BENCH_JSON_OUTPUT", "MONT_BENCH_JSON_OUTPUT", env),
        };
        BenchConfig { warmup_iterations, iterations, duration: Some(duration), filter, json_output }
    }
}

} // verus!
