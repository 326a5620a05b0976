//! The external commands the CLI runs, worked out from its options and the
//! project configuration: the build tool's arguments, the benchmark and
//! test invocations, and the end-to-end test settings.
use vstd::prelude::*;
use crate::config::{E2eConfig, ProjectConfig};
use crate::text::{decimal, push_decimal, push_str, str_eq};

verus! {

/// A program to run, with its arguments and the environment variables it
/// gets on top of the inherited ones.
#[derive(Debug, Clone)]
pub struct CommandPlan {
    pub program: String,
    pub args: Vec<String>,
    pub env: Vec<(String, String)>,
}

/// The texts of a list of strings.
pub open spec fn texts(v: Seq<String>) -> Seq<Seq<char>> {
    v.map_values(|s: String| s@)
}

/// The texts of a list of variables.
pub open spec fn vars(v: Seq<(String, String)>) -> Seq<(Seq<char>, Seq<char>)> {
    v.map_values(|p: (String, String)| (p.0@, p.1@))
}

fn push_text(v: &mut Vec<String>, s: &str)
    ensures
        texts(final(v)@) == texts(old(v)@).push(s@),
{
    let ghost before = v@;
    v.push(s.to_owned());
    assert(texts(v@) =~= texts(before).push(s@));
}

fn push_owned(v: &mut Vec<String>, s: String)
    ensures
        texts(final(v)@) == texts(old(v)@).push(s@),
{
    let ghost before = v@;
    v.push(s);
    assert(texts(v@) =~= texts(before).push(s@));
}

fn push_var(v: &mut Vec<(String, String)>, k: &str, val: String)
    ensures
        vars(final(v)@) == vars(old(v)@).push((k@, val@)),
{
    let ghost before = v@;
    v.push((k.to_owned(), val));
    assert(vars(v@) =~= vars(before).push((k@, val@)));
}

/// `prefix` followed by the decimal digits of `n`.
fn with_number(prefix: &str, n: u64) -> (s: String)
    ensures
        s@ == prefix@ + decimal(n as nat),
{
    let mut s = prefix.to_owned();
    push_decimal(&mut s, n);
    s
}

/// `prefix` followed by `t`.
fn with_text(prefix: &str, t: &str) -> (s: String)
    ensures
        s@ == prefix@ + t@,
{
    let mut s = prefix.to_owned();
    push_str(&mut s, t);
    s
}

/// The optional argument `o` as a sequence of at most one item.
pub open spec fn opt_seq(o: Option<Seq<char>>) -> Seq<Seq<char>> {
    match o {
        Some(x) => seq![x],
        None => Seq::empty(),
    }
}

/// The texts of an optional string.
pub open spec fn opt_text(o: Option<String>) -> Option<Seq<char>> {
    match o {
        Some(s) => Some(s@),
        None => None,
    }
}

/// The arguments of `cargo bench` for a project benchmark run: the target
/// and filter as cargo filters, then after `--` the harness options.
pub open spec fn bench_args(
    target: Option<Seq<char>>,
    iterations: u32,
    warmup: u32,
    timeout: Option<u64>,
    filter: Option<Seq<char>>,
    json_output: Option<Seq<char>>,
    generate_weights: Option<Seq<char>>,
) -> Seq<Seq<char>> {
    seq!["bench"@] + opt_seq(target) + opt_seq(filter) + seq!["--"@]
        + seq!["--iterations="@ + decimal(iterations as nat), "--warmup="@ + decimal(warmup as nat)]
        + opt_seq(match timeout { Some(t) => Some("--timeout="@ + decimal(t as nat)), None => None })
        + opt_seq(match json_output { Some(j) => Some("--json-output="@ + j), None => None })
        + opt_seq(match generate_weights { Some(w) => Some("--generate-weights="@ + w), None => None })
}

/// The variables a project benchmark run gets.
pub open spec fn bench_vars(
    iterations: u32,
    warmup: u32,
    timeout: Option<u64>,
    json_output: Option<Seq<char>>,
    generate_weights: Option<Seq<char>>,
) -> Seq<(Seq<char>, Seq<char>)> {
    seq![
        ("MONTRS_BENCH_ITERATIONS"@, decimal(iterations as nat)),
        ("MONTRS_BENCH_WARMUP"@, decimal(warmup as nat)),
    ] + match timeout {
        Some(t) => seq![("MONTRS_BENCH_TIMEOUT"@, decimal(t as nat))],
        None => Seq::empty(),
    } + match json_output {
        Some(j) => seq![("MONTRS_BENCH_JSON_OUTPUT"@, j)],
        None => Seq::empty(),
    } + match generate_weights {
        Some(w) => seq![("MONTRS_BENCH_GENERATE_WEIGHTS"@, w)],
        None => Seq::empty(),
    }
}

/// The `cargo bench` run for a project: arguments for cargo and the
/// benchmark harness, and the same settings as `MONTRS_BENCH_*` variables.
pub fn run_cargo_bench(
    target: Option<String>,
    iterations: u32,
    warmup: u32,
    timeout: Option<u64>,
    filter: Option<String>,
    json_output: Option<String>,
    generate_weights: Option<String>,
) -> (plan: CommandPlan)
    ensures
        plan.program@ == "cargo"@,
        texts(plan.args@) == bench_args(
            opt_text(target),
            iterations,
            warmup,
            timeout,
            opt_text(filter),
            opt_text(json_output),
            opt_text(generate_weights),
        ),
        vars(plan.env@) == bench_vars(iterations, warmup, timeout, opt_text(json_output), opt_text(generate_weights)),
{
    let mut args: Vec<String> = Vec::new();
    push_text(&mut args, "bench");
    if let Some(t) = target {
        push_owned(&mut args, t);
    }
    if let Some(f) = filter {
        push_owned(&mut args, f);
    }
    push_text(&mut args, "--");
    push_owned(&mut args, with_number("--iterations=", iterations as u64));
    push_owned(&mut args, with_number("--warmup=", warmup as u64));
    if let Some(t) = timeout {
        push_owned(&mut args, with_number("--timeout=", t));
    }
    if let Some(j) = &json_output {
        push_owned(&mut args, with_text("--json-output=", j.as_str()));
    }
    if let Some(w) = &generate_weights {
        push_owned(&mut args, with_text("--generate-weights=", w.as_str()));
    }
    let mut env: Vec<(String, String)> = Vec::new();
    push_var(&mut env, "MONTRS_BENCH_ITERATIONS", with_number("", iterations as u64));
    push_var(&mut env, "MONTRS_BENCH_WARMUP", with_number("", warmup as u64));
    if let Some(t) = timeout {
        push_var(&mut env, "MONTRS_BENCH_TIMEOUT", with_number("", t));
    }
    if let Some(j) = json_output {
        push_var(&mut env, "MONTRS_BENCH_JSON_OUTPUT", j);
    }
    if let Some(w) = generate_weights {
        push_var(&mut env, "MONTRS_BENCH_GENERATE_WEIGHTS", w);
    }
    proof {
        reveal_strlit("");
        assert(texts(args@) =~= bench_args(
            opt_text(target),
            iterations,
            warmup,
            timeout,
            opt_text(filter),
            opt_text(json_output),
            opt_text(generate_weights),
        ));
        assert(vars(env@) =~= bench_vars(iterations, warmup, timeout, opt_text(json_output), opt_text(generate_weights)));
    }
    CommandPlan { program: "cargo".to_owned(), args, env }
}

/// The `cargo bench` run of `cargo mont bench`: the filter for cargo, the
/// harness options after `--`, and the settings as `MONT_BENCH_*`
/// variables.
pub fn mont_bench_plan(
    iterations: u32,
    warmup: u32,
    timeout: Option<u64>,
    filter: Option<String>,
    json_output: Option<String>,
) -> (plan: CommandPlan)
    ensures
        plan.program@ == "cargo"@,
        texts(plan.args@) == seq!["bench"@] + opt_seq(opt_text(filter)) + seq!["--"@]
            + seq!["--iterations="@ + decimal(iterations as nat), "--warmup="@ + decimal(warmup as nat)]
            + opt_seq(match timeout { Some(t) => Some("--timeout="@ + decimal(t as nat)), None => None })
            + opt_seq(match opt_text(json_output) { Some(j) => Some("--json-output="@ + j), None => None }),
        vars(plan.env@) == seq![
            ("MONT_BENCH_ITERATIONS"@, decimal(iterations as nat)),
            ("MONT_BENCH_WARMUP"@, decimal(warmup as nat)),
        ] + match timeout {
            Some(t) => seq![("MONT_BENCH_TIMEOUT"@, decimal(t as nat))],
            None => Seq::empty(),
        } + match opt_text(json_output) {
            Some(j) => seq![("MONT_BENCH_JSON_OUTPUT"@, j)],
            None => Seq::empty(),
        },
{
    let mut args: Vec<String> = Vec::new();
    push_text(&mut args, "bench");
    if let Some(f) = filter {
        push_owned(&mut args, f);
    }
    push_text(&mut args, "--");
    push_owned(&mut args, with_number("--iterations=", iterations as u64));
    push_owned(&mut args, with_number("--warmup=", warmup as u64));
    if let Some(t) = timeout {
        push_owned(&mut args, with_number("--timeout=", t));
    }
    if let Some(j) = &json_output {
        push_owned(&mut args, with_text("--json-output=", j.as_str()));
    }
    let mut env: Vec<(String, String)> = Vec::new();
    push_var(&mut env, "MONT_BENCH_ITERATIONS", with_number("", iterations as u64));
    push_var(&mut env, "MONT_BENCH_WARMUP", with_number("", warmup as u64));
    if let Some(t) = timeout {
        push_var(&mut env, "MONT_BENCH_TIMEOUT", with_number("", t));
    }
    if let Some(j) = json_output {
        push_var(&mut env, "MONT_BENCH_JSON_OUTPUT", j);
    }
    proof {
        reveal_strlit("");
    }
    let ghost a = texts(args@);
    let ghost e = vars(env@);
    assert(a =~= seq!["bench"@] + opt_seq(opt_text(filter)) + seq!["--"@]
        + seq!["--iterations="@ + decimal(iterations as nat), "--warmup="@ + decimal(warmup as nat)]
        + opt_seq(match timeout { Some(t) => Some("--timeout="@ + decimal(t as nat)), None => None })
        + opt_seq(match opt_text(json_output) { Some(j) => Some("--json-output="@ + j), None => None }));
    assert(e =~= seq![
        ("MONT_BENCH_ITERATIONS"@, decimal(iterations as nat)),
        ("MONT_BENCH_WARMUP"@, decimal(warmup as nat)),
    ] + match timeout {
        Some(t) => seq![("MONT_BENCH_TIMEOUT"@, decimal(t as nat))],
        None => Seq::empty(),
    } + match opt_text(json_output) {
        Some(j) => seq![("MONT_BENCH_JSON_OUTPUT"@, j)],
        None => Seq::empty(),
    });
    CommandPlan { program: "cargo".to_owned(), args, env }
}

/// Each flag of the build tool with whether the project settings turn it
/// on, in the tool's order; JavaScript minification is always passed, as
/// on or off.
pub open spec fn flag_table(p: ProjectConfig) -> Seq<(bool, Seq<char>)> {
    seq![
        (p.release, "--release"@),
        (p.precompress, "--precompress"@),
        (p.hot_reload, "--hot-reload"@),
        (p.wasm_debug, "--wasm-debug"@),
        (true, if p.js_minify { "--js-minify"@ } else { "--js-minify=false"@ }),
        (p.split, "--split"@),
        (p.frontend_only, "--frontend-only"@),
        (p.server_only, "--server-only"@),
    ]
}

/// The flags of `table` that are on, in order.
pub open spec fn flags_on(table: Seq<(bool, Seq<char>)>) -> Seq<Seq<char>>
    decreases table.len(),
{
    if table.len() == 0 {
        Seq::empty()
    } else {
        flags_on(table.drop_last()) + (if table.last().0 { seq![table.last().1] } else { Seq::empty() })
    }
}

/// The flags that the project settings turn on, in the build tool's order.
pub open spec fn leptos_flags(p: ProjectConfig) -> Seq<Seq<char>> {
    flags_on(flag_table(p))
}

/// `--features <f>` for each feature, in order.
pub open spec fn feature_args(fs: Seq<Seq<char>>) -> Seq<Seq<char>>
    decreases fs.len(),
{
    if fs.len() == 0 {
        Seq::empty()
    } else {
        feature_args(fs.drop_last()) + seq!["--features"@, fs.last()]
    }
}

/// The command line for the build tool running `cmd` with the project's
/// settings: its flags, features, `-v` once per verbosity level, then the
/// extra arguments after `--`.
pub open spec fn leptos_args(cmd: Seq<char>, extra: Seq<Seq<char>>, p: ProjectConfig) -> Seq<Seq<char>> {
    seq!["cargo-leptos"@, cmd] + leptos_flags(p) + feature_args(texts(p.features@))
        + Seq::new(p.verbose as nat, |i: int| "-v"@)
        + (if extra.len() > 0 { seq!["--"@] + extra } else { Seq::empty() })
}

/// Whether `f` is among the flags of `table` that are on.
proof fn lemma_flags_on_contains(table: Seq<(bool, Seq<char>)>, f: Seq<char>)
    ensures
        flags_on(table).contains(f) <==> exists|i: int| 0 <= i < table.len() && (#[trigger] table[i]).0 && table[i].1 == f,
    decreases table.len(),
{
    if table.len() > 0 {
        let rest = table.drop_last();
        lemma_flags_on_contains(rest, f);
        let r = flags_on(rest);
        let tail = if table.last().0 { seq![table.last().1] } else { Seq::<Seq<char>>::empty() };
        let s = flags_on(table);
        assert(s == r + tail);
        if s.contains(f) {
            let m = choose|m: int| 0 <= m < s.len() && s[m] == f;
            if m < r.len() {
                assert(r[m] == f);
                let i = choose|i: int| 0 <= i < rest.len() && (#[trigger] rest[i]).0 && rest[i].1 == f;
                assert(table[i] == rest[i]);
            } else {
                assert(tail[m - r.len()] == f);
                assert(table[table.len() - 1].0 && table[table.len() - 1].1 == f);
            }
        }
        if exists|i: int| 0 <= i < table.len() && (#[trigger] table[i]).0 && table[i].1 == f {
            let i = choose|i: int| 0 <= i < table.len() && (#[trigger] table[i]).0 && table[i].1 == f;
            if i < rest.len() {
                assert(rest[i] == table[i]);
                let m = choose|m: int| 0 <= m < r.len() && r[m] == f;
                assert(s[m] == f);
            } else {
                assert(s[r.len() as int] == f);
            }
        }
    }
}

/// The build tool gets, right after its name and the command, exactly the
/// flags the project settings turn on: each boolean setting's flag is there
/// exactly when the setting is on, and JavaScript minification is passed
/// as `--js-minify` when on and `--js-minify=false` when off.
pub proof fn law_leptos_flags_follow_settings(cmd: Seq<char>, extra: Seq<Seq<char>>, p: ProjectConfig)
    ensures
        leptos_args(cmd, extra, p).take(2) == seq!["cargo-leptos"@, cmd],
        leptos_args(cmd, extra, p).subrange(2, 2 + leptos_flags(p).len() as int) == leptos_flags(p),
        leptos_flags(p).contains("--release"@) <==> p.release,
        leptos_flags(p).contains("--precompress"@) <==> p.precompress,
        leptos_flags(p).contains("--hot-reload"@) <==> p.hot_reload,
        leptos_flags(p).contains("--wasm-debug"@) <==> p.wasm_debug,
        leptos_flags(p).contains("--split"@) <==> p.split,
        leptos_flags(p).contains("--frontend-only"@) <==> p.frontend_only,
        leptos_flags(p).contains("--server-only"@) <==> p.server_only,
        leptos_flags(p).contains("--js-minify"@) <==> p.js_minify,
        leptos_flags(p).contains("--js-minify=false"@) <==> !p.js_minify,
{
    reveal_strlit("--release");
    reveal_strlit("--precompress");
    reveal_strlit("--hot-reload");
    reveal_strlit("--wasm-debug");
    reveal_strlit("--js-minify");
    reveal_strlit("--js-minify=false");
    reveal_strlit("--split");
    reveal_strlit("--frontend-only");
    reveal_strlit("--server-only");
    assert("--release"@.len() == 9);
    assert("--precompress"@.len() == 13);
    assert("--hot-reload"@.len() == 12);
    assert("--wasm-debug"@.len() == 12);
    assert("--js-minify"@.len() == 11);
    assert("--js-minify=false"@.len() == 17);
    assert("--split"@.len() == 7);
    assert("--frontend-only"@.len() == 15);
    assert("--server-only"@.len() == 13);
    assert("--precompress"@[2] != "--server-only"@[2]);
    assert("--hot-reload"@[2] != "--wasm-debug"@[2]);
    let a = leptos_args(cmd, extra, p);
    assert(a.take(2) =~= seq!["cargo-leptos"@, cmd]);
    assert(a.subrange(2, 2 + leptos_flags(p).len() as int) =~= leptos_flags(p));
    let t = flag_table(p);
    lemma_flags_on_contains(t, "--release"@);
    assert forall|i: int| 0 <= i < t.len() && (#[trigger] t[i]).1 == "--release"@ implies i == 0 by {
        if i == 0 {} else if i == 1 {} else if i == 2 {} else if i == 3 {} else if i == 4 {} else if i == 5 {} else if i == 6 {} else if i == 7 {}
    }
    if p.release {
        assert(t[0].0 && t[0].1 == "--release"@);
    }
    lemma_flags_on_contains(t, "--precompress"@);
    assert forall|i: int| 0 <= i < t.len() && (#[trigger] t[i]).1 == "--precompress"@ implies i == 1 by {
        if i == 0 {} else if i == 1 {} else if i == 2 {} else if i == 3 {} else if i == 4 {} else if i == 5 {} else if i == 6 {} else if i == 7 {}
    }
    if p.precompress {
        assert(t[1].0 && t[1].1 == "--precompress"@);
    }
    lemma_flags_on_contains(t, "--hot-reload"@);
    assert forall|i: int| 0 <= i < t.len() && (#[trigger] t[i]).1 == "--hot-reload"@ implies i == 2 by {
        if i == 0 {} else if i == 1 {} else if i == 2 {} else if i == 3 {} else if i == 4 {} else if i == 5 {} else if i == 6 {} else if i == 7 {}
    }
    if p.hot_reload {
        assert(t[2].0 && t[2].1 == "--hot-reload"@);
    }
    lemma_flags_on_contains(t, "--wasm-debug"@);
    assert forall|i: int| 0 <= i < t.len() && (#[trigger] t[i]).1 == "--wasm-debug"@ implies i == 3 by {
        if i == 0 {} else if i == 1 {} else if i == 2 {} else if i == 3 {} else if i == 4 {} else if i == 5 {} else if i == 6 {} else if i == 7 {}
    }
    if p.wasm_debug {
        assert(t[3].0 && t[3].1 == "--wasm-debug"@);
    }
    lemma_flags_on_contains(t, "--split"@);
    assert forall|i: int| 0 <= i < t.len() && (#[trigger] t[i]).1 == "--split"@ implies i == 5 by {
        if i == 0 {} else if i == 1 {} else if i == 2 {} else if i == 3 {} else if i == 4 {} else if i == 5 {} else if i == 6 {} else if i == 7 {}
    }
    if p.split {
        assert(t[5].0 && t[5].1 == "--split"@);
    }
    lemma_flags_on_contains(t, "--frontend-only"@);
    assert forall|i: int| 0 <= i < t.len() && (#[trigger] t[i]).1 == "--frontend-only"@ implies i == 6 by {
        if i == 0 {} else if i == 1 {} else if i == 2 {} else if i == 3 {} else if i == 4 {} else if i == 5 {} else if i == 6 {} else if i == 7 {}
    }
    if p.frontend_only {
        assert(t[6].0 && t[6].1 == "--frontend-only"@);
    }
    lemma_flags_on_contains(t, "--server-only"@);
    assert forall|i: int| 0 <= i < t.len() && (#[trigger] t[i]).1 == "--server-only"@ implies i == 7 by {
        if i == 0 {} else if i == 1 {} else if i == 2 {} else if i == 3 {} else if i == 4 {} else if i == 5 {} else if i == 6 {} else if i == 7 {}
    }
    if p.server_only {
        assert(t[7].0 && t[7].1 == "--server-only"@);
    }
    lemma_flags_on_contains(t, "--js-minify"@);
    assert forall|i: int| 0 <= i < t.len() && (#[trigger] t[i]).1 == "--js-minify"@ implies i == 4 by {
        if i == 0 {} else if i == 1 {} else if i == 2 {} else if i == 3 {} else if i == 4 {} else if i == 5 {} else if i == 6 {} else if i == 7 {}
    }
    if p.js_minify {
        assert(t[4].0 && t[4].1 == "--js-minify"@);
    }
    lemma_flags_on_contains(t, "--js-minify=false"@);
    assert forall|i: int| 0 <= i < t.len() && (#[trigger] t[i]).1 == "--js-minify=false"@ implies i == 4 by {
        if i == 0 {} else if i == 1 {} else if i == 2 {} else if i == 3 {} else if i == 4 {} else if i == 5 {} else if i == 6 {} else if i == 7 {}
    }
    if !p.js_minify {
        assert(t[4].0 && t[4].1 == "--js-minify=false"@);
    }
}

fn push_leptos_flags(args: &mut Vec<String>, project: &ProjectConfig)
    ensures
        texts(final(args)@) == texts(old(args)@) + leptos_flags(*project),
{
    let ghost a0 = texts(args@);
    let table: Vec<(bool, &str)> = vec![
        (project.release, "--release"),
        (project.precompress, "--precompress"),
        (project.hot_reload, "--hot-reload"),
        (project.wasm_debug, "--wasm-debug"),
        (true, if project.js_minify { "--js-minify" } else { "--js-minify=false" }),
        (project.split, "--split"),
        (project.frontend_only, "--frontend-only"),
        (project.server_only, "--server-only"),
    ];
    let ghost spec_table = flag_table(*project);
    assert(table@.len() == spec_table.len());
    assert(forall|k: int| 0 <= k < table@.len() ==> (#[trigger] table@[k]).0 == spec_table[k].0 && table@[k].1@ == spec_table[k].1);
    let mut i: usize = 0;
    while i < table.len()
        invariant
            i <= table@.len(),
            table@.len() == spec_table.len(),
            spec_table == flag_table(*project),
            forall|k: int| 0 <= k < table@.len() ==> (#[trigger] table@[k]).0 == spec_table[k].0
                && table@[k].1@ == spec_table[k].1,
            texts(args@) == a0 + flags_on(spec_table.take(i as int)),
        decreases table.len() - i,
    {
        let (on, flag) = table[i];
        assert(spec_table.take(i + 1).drop_last() =~= spec_table.take(i as int));
        assert(spec_table.take(i + 1).last() == spec_table[i as int]);
        if on {
            push_text(args, flag);
        }
        assert(texts(args@) =~= a0 + flags_on(spec_table.take(i + 1)));
        i = i + 1;
    }
    assert(spec_table.take(spec_table.len() as int) =~= spec_table);
}

fn push_features(args: &mut Vec<String>, features: &Vec<String>)
    ensures
        texts(final(args)@) == texts(old(args)@) + feature_args(texts(features@)),
{
    let ghost base = texts(args@);
    let ghost fs = texts(features@);
    let mut i: usize = 0;
    while i < features.len()
        invariant
            i <= features@.len(),
            fs == texts(features@),
            texts(args@) == base + feature_args(fs.take(i as int)),
        decreases features.len() - i,
    {
        push_text(args, "--features");
        push_text(args, features[i].as_str());
        assert(fs.take(i + 1).drop_last() =~= fs.take(i as int));
        assert(fs.take(i + 1).last() == features@[i as int]@);
        assert(texts(args@) =~= base + feature_args(fs.take(i + 1)));
        i = i + 1;
    }
    assert(fs.take(fs.len() as int) =~= fs);
}

fn push_verbose(args: &mut Vec<String>, verbose: u8)
    ensures
        texts(final(args)@) == texts(old(args)@) + Seq::new(verbose as nat, |j: int| "-v"@),
{
    let ghost base = texts(args@);
    let mut k: u8 = 0;
    while k < verbose
        invariant
            k <= verbose,
            texts(args@) == base + Seq::new(k as nat, |j: int| "-v"@),
        decreases verbose - k,
    {
        push_text(args, "-v");
        k = k + 1;
        assert(texts(args@) =~= base + Seq::new(k as nat, |j: int| "-v"@));
    }
}

fn push_all(args: &mut Vec<String>, extra: &Vec<String>)
    ensures
        texts(final(args)@) == texts(old(args)@) + texts(extra@),
{
    let ghost base = texts(args@);
    let mut j: usize = 0;
    while j < extra.len()
        invariant
            j <= extra@.len(),
            texts(args@) == base + texts(extra@).take(j as int),
        decreases extra.len() - j,
    {
        push_text(args, extra[j].as_str());
        assert(texts(args@) =~= base + texts(extra@).take(j + 1));
        j = j + 1;
    }
    assert(texts(extra@).take(extra@.len() as int) =~= texts(extra@));
}

/// The command line handed to the build tool for `cmd`.
pub fn cargo_leptos_args(cmd: &str, extra: &Vec<String>, project: &ProjectConfig) -> (args: Vec<String>)
    ensures
        texts(args@) == leptos_args(cmd@, texts(extra@), *project),
{
    let mut args: Vec<String> = Vec::new();
    push_text(&mut args, "cargo-leptos");
    push_text(&mut args, cmd);
    push_leptos_flags(&mut args, project);
    push_features(&mut args, &project.features);
    push_verbose(&mut args, project.verbose);
    let ghost before_extra = texts(args@);
    if extra.len() > 0 {
        push_text(&mut args, "--");
        push_all(&mut args, extra);
    }
    assert(texts(args@) =~= leptos_args(cmd@, texts(extra@), *project));
    args
}

/// Whether a test report format needs the machine-readable test output.
pub open spec fn wants_json(report: Seq<char>) -> bool {
    report == "json"@ || report == "junit"@
}

/// Whether the test run must read cargo's JSON output to write `report`.
pub fn uses_json_output(report: &str) -> (b: bool)
    ensures
        b == wants_json(report@),
{
    str_eq(report, "json") || str_eq(report, "junit")
}

/// The arguments of `cargo test` for the workspace: the filter, the job
/// count, and the JSON message format when a report is to be written.
pub fn cargo_test_args(filter: Option<String>, jobs: Option<usize>, report: &str) -> (args: Vec<String>)
    ensures
        texts(args@) == seq!["test"@, "--workspace"@] + opt_seq(opt_text(filter))
            + (match jobs { Some(j) => seq!["-j"@, decimal(j as nat)], None => Seq::empty() })
            + (if wants_json(report@) { seq!["--message-format=json"@] } else { Seq::empty() }),
{
    let mut args: Vec<String> = Vec::new();
    push_text(&mut args, "test");
    push_text(&mut args, "--workspace");
    if let Some(f) = filter {
        push_owned(&mut args, f);
    }
    if let Some(j) = jobs {
        push_text(&mut args, "-j");
        push_owned(&mut args, with_number("", j as u64));
    }
    if uses_json_output(report) {
        push_text(&mut args, "--message-format=json");
    }
    proof {
        reveal_strlit("");
    }
    assert(texts(args@) =~= seq!["test"@, "--workspace"@] + opt_seq(opt_text(filter))
        + (match jobs { Some(j) => seq!["-j"@, decimal(j as nat)], None => Seq::empty() })
        + (if wants_json(report@) { seq!["--message-format=json"@] } else { Seq::empty() }));
    args
}

/// The file a test report is written to: the one asked for, else
/// `report.xml` for JUnit and `report.json` otherwise.
pub fn report_output_path(report: &str, output: Option<String>) -> (p: String)
    ensures
        p@ == (match output {
            Some(o) => o@,
            None => if report@ == "junit"@ { "report.xml"@ } else { "report.json"@ },
        }),
{
    match output {
        Some(o) => o,
        None => if str_eq(report, "junit") {
            "report.xml".to_owned()
        } else {
            "report.json".to_owned()
        },
    }
}

/// The settings the end-to-end tests run with: the headless flag (on if
/// asked or configured), the browser (asked, else configured, else
/// chromium), keep-alive when asked, the configured base URL, and the
/// default test command and folder where the environment sets none.
pub open spec fn e2e_vars(
    headless: bool,
    keep_alive: bool,
    browser: Option<Seq<char>>,
    config: E2eConfig,
    has_cmd: bool,
    has_dir: bool,
) -> Seq<(Seq<char>, Seq<char>)> {
    let h = headless || (match config.headless { Some(b) => b, None => false });
    let b = match browser {
        Some(x) => x,
        None => match config.browser {
            Some(x) => x@,
            None => "chromium"@,
        },
    };
    seq![("MONT_E2E_HEADLESS"@, if h { "true"@ } else { "false"@ })]
        + (if keep_alive { seq![("MONT_E2E_KEEP_ALIVE"@, "true"@)] } else { Seq::empty() })
        + seq![("MONT_E2E_BROWSER"@, b)]
        + (match config.base_url { Some(u) => seq![("MONT_SITE_URL"@, u@)], None => Seq::empty() })
        + (if has_cmd { Seq::empty() } else { seq![("LEPTOS_END2END_CMD"@, "cargo test --package e2e"@)] })
        + (if has_dir { Seq::empty() } else { seq![("LEPTOS_END2END_DIR"@, "e2e"@)] })
}

/// The variables to set for an end-to-end run; `has_cmd` and `has_dir`
/// tell whether the environment already sets the test command and folder.
pub fn e2e_env(
    headless: bool,
    keep_alive: bool,
    browser: Option<String>,
    config: &E2eConfig,
    has_cmd: bool,
    has_dir: bool,
) -> (env: Vec<(String, String)>)
    ensures
        vars(env@) == e2e_vars(headless, keep_alive, opt_text(browser), *config, has_cmd, has_dir),
{
    let h = headless || match config.headless {
        Some(b) => b,
        None => false,
    };
    let b = match browser {
        Some(x) => x,
        None => match &config.browser {
            Some(x) => x.clone(),
            None => "chromium".to_owned(),
        },
    };
    let mut env: Vec<(String, String)> = Vec::new();
    push_var(&mut env, "MONT_E2E_HEADLESS", if h { "true".to_owned() } else { "false".to_owned() });
    if keep_alive {
        push_var(&mut env, "MONT_E2E_KEEP_ALIVE", "true".to_owned());
    }
    push_var(&mut env, "MONT_E2E_BROWSER", b);
    if let Some(u) = &config.base_url {
        push_var(&mut env, "MONT_SITE_URL", u.clone());
    }
    if !has_cmd {
        push_var(&mut env, "LEPTOS_END2END_CMD", "cargo test --package e2e".to_owned());
    }
    if !has_dir {
        push_var(&mut env, "LEPTOS_END2END_DIR", "e2e".to_owned());
    }
    assert(vars(env@) =~= e2e_vars(headless, keep_alive, opt_text(browser), *config, has_cmd, has_dir));
    env
}

/// How a `bench` command runs.
#[derive(Debug, Clone)]
pub enum BenchMode {
    /// Benchmark the file or folder at this path directly.
    Native(String),
    /// Run the project's benchmarks through `cargo bench`.
    Cargo,
}

/// The mode of a `bench` command: `--simple` needs a target, and benches it
/// directly; without it the project's benchmarks run.
pub fn bench_mode(simple: bool, target: Option<String>) -> (r: Result<BenchMode, String>)
    ensures
        simple && target is None ==> (r matches Err(m) && m@ == "--simple mode requires a target file or directory."@),
        simple && target is Some ==> (r matches Ok(BenchMode::Native(t)) && Some(t) == target),
        !simple ==> (r matches Ok(BenchMode::Cargo)),
{
    if simple {
        match target {
            Some(t) => Ok(BenchMode::Native(t)),
            None => Err("--simple mode requires a target file or directory.".to_owned()),
        }
    } else {
        Ok(BenchMode::Cargo)
    }
}

/// What a native benchmark target is.
#[derive(Debug, Clone, Copy, PartialEq, Eq, Structural)]
pub enum NativeTarget {
    /// An application folder or its `montrs.toml`: its config load is timed.
    AppSpec,
    /// A Rust source file: it is compiled, then run.
    RustSource,
    /// Anything else is run as a program.
    Executable,
}

/// The last component of `path`.
pub open spec fn file_name_of(path: Seq<char>) -> Seq<char> {
    path.subrange(crate::discovery::last_slash_end(path, path.len() as int), path.len() as int)
}

/// The kind of the native target at `path`, which is a folder or not.
pub fn native_target_kind(path: &str, is_dir: bool) -> (k: NativeTarget)
    ensures
        k == (if is_dir || file_name_of(path@) == "montrs.toml"@ {
            NativeTarget::AppSpec
        } else if crate::discovery::path_extension(path@) == Some("rs"@) {
            NativeTarget::RustSource
        } else {
            NativeTarget::Executable
        }),
{
    if is_dir {
        return NativeTarget::AppSpec;
    }
    let cs = crate::text::chars_of(path);
    let n = cs.len();
    let mut start: usize = n;
    while start > 0 && cs[start - 1] != '/'
        invariant
            start <= n,
            n == cs@.len(),
            crate::discovery::last_slash_end(cs@, n as int) == crate::discovery::last_slash_end(cs@, start as int),
        decreases start,
    {
        start = start - 1;
    }
    let mut name: Vec<char> = Vec::new();
    let mut k: usize = start;
    while k < n
        invariant
            start <= k <= n,
            n == cs@.len(),
            name@ == cs@.subrange(start as int, k as int),
        decreases n - k,
    {
        name.push(cs[k]);
        assert(cs@.subrange(start as int, k + 1) =~= cs@.subrange(start as int, k as int).push(cs@[k as int]));
        k = k + 1;
    }
    let name_s = crate::text::string_from_chars(name.as_slice());
    if str_eq(name_s.as_str(), "montrs.toml") {
        NativeTarget::AppSpec
    } else if crate::discovery::is_rust_source(path) {
        NativeTarget::RustSource
    } else {
        NativeTarget::Executable
    }
}

/// The config file an application benchmark loads: `montrs.toml` inside a
/// folder, else the path itself.
pub fn appspec_config_path(path: &str, is_dir: bool) -> (p: String)
    ensures
        p@ == (if is_dir { crate::agent::join_path(path@, "montrs.toml"@) } else { path@ }),
{
    if is_dir {
        crate::agent::path_join(path, "montrs.toml")
    } else {
        path.to_owned()
    }
}

} // verus!
