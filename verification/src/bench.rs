//! Benchmark cases and the decisions of a benchmark run: which cases run,
//! how many measurements each parameter value gets, when a timed run stops,
//! and in which order a parametric case is driven.
use vstd::prelude::*;
use crate::bench_config::BenchConfig;
use crate::parameter::Parameter;
use crate::text::{contains_str, push_str, seq_contains};

verus! {

/// A benchmark case: a named workload, possibly driven by a parameter.
///
/// The workload itself (setup, the measured run and teardown) is run by the
/// driver of the benchmarks; this trait carries what the run decisions read.
pub trait BenchCase {
    /// The name of the benchmark.
    fn name(&self) -> &str;

    /// The parameter the workload is measured over, if any.
    fn parameter(&self) -> Option<Parameter>;

    /// Sets the parameter value for the next runs.
    fn set_parameter(&mut self, value: u32);
}

/// A benchmark made of a plain closure.
pub struct SimpleBench<F> {
    name: String,
    func: F,
}

impl<F> SimpleBench<F> {
    /// The name the benchmark was created with.
    pub closed spec fn name_spec(&self) -> Seq<char> {
        self.name@
    }

    /// The workload closure.
    pub closed spec fn func_spec(&self) -> F {
        self.func
    }

    /// A benchmark called `name` that runs `func`.
    pub fn new(name: &str, func: F) -> (b: Self)
        ensures
            b.name_spec() == name@,
            b.func_spec() == func,
    {
        SimpleBench { name: name.to_owned(), func }
    }

    /// The workload closure.
    pub fn func(&self) -> (f: &F)
        ensures
            *f == self.func_spec(),
    {
        &self.func
    }
}

impl<F> BenchCase for SimpleBench<F> {
    fn name(&self) -> (n: &str)
        ensures
            n@ == self.name_spec(),
    {
        self.name.as_str()
    }

    /// A simple benchmark has no parameter.
    fn parameter(&self) -> (p: Option<Parameter>)
        ensures
            p is None,
    {
        None
    }

    /// A simple benchmark ignores parameter values.
    fn set_parameter(&mut self, value: u32)
        ensures
            *final(self) == *old(self),
    {
    }
}

/// A benchmark whose workload takes the current parameter value.
pub struct ParametricBench<F> {
    name: String,
    parameter: Parameter,
    func: F,
    current_param: u32,
}

impl<F> ParametricBench<F> {
    /// The name the benchmark was created with.
    pub closed spec fn name_spec(&self) -> Seq<char> {
        self.name@
    }

    /// The parameter the benchmark varies.
    pub closed spec fn parameter_spec(&self) -> Parameter {
        self.parameter
    }

    /// The parameter value the next run uses.
    pub closed spec fn current_param_spec(&self) -> u32 {
        self.current_param
    }

    /// A benchmark over `parameter`, starting at the lower bound of its
    /// range.
    pub fn new(name: &str, parameter: Parameter, func: F) -> (b: Self)
        ensures
            b.name_spec() == name@,
            b.parameter_spec() == parameter,
            b.func_spec() == func,
            b.current_param_spec() == parameter.range@.start,
    {
        let start = *parameter.range.start();
        ParametricBench { name: name.to_owned(), parameter, func, current_param: start }
    }

    /// Sets the parameter value for the next run.
    pub fn set_param(&mut self, val: u32)
        ensures
            final(self).current_param_spec() == val,
            final(self).name_spec() == old(self).name_spec(),
            final(self).parameter_spec() == old(self).parameter_spec(),
            final(self).func_spec() == old(self).func_spec(),
    {
        self.current_param = val;
    }

    /// The parameter value the next run uses.
    pub fn current_param(&self) -> (v: u32)
        ensures
            v == self.current_param_spec(),
    {
        self.current_param
    }

    /// The workload closure.
    pub closed spec fn func_spec(&self) -> F {
        self.func
    }

    /// The workload closure.
    pub fn func(&self) -> (f: &F)
        ensures
            *f == self.func_spec(),
    {
        &self.func
    }
}

impl<R, F: Fn(u32) -> R> ParametricBench<F> {
    /// Starts one run of the workload: calls it with the current parameter
    /// value and hands back what it returns, for the driver to await. The
    /// benchmark itself is left as it is.
    pub fn start_run(&self) -> (r: R)
        requires
            call_requires(self.func_spec(), (self.current_param_spec(),)),
        ensures
            call_ensures(self.func_spec(), (self.current_param_spec(),), r),
    {
        (self.func)(self.current_param)
    }
}

/// After `set_param(val)`, a run calls the same workload with `val`, and
/// every later run does so until the value is set again: a run leaves the
/// benchmark unchanged.
pub proof fn law_run_after_set_param<R, F: Fn(u32) -> R>(
    before: ParametricBench<F>,
    after: ParametricBench<F>,
    val: u32,
    r: R,
)
    requires
        after.current_param_spec() == val,
        after.func_spec() == before.func_spec(),
        call_ensures(after.func_spec(), (after.current_param_spec(),), r),
    ensures
        call_ensures(before.func_spec(), (val,), r),
{
}

impl<F> BenchCase for ParametricBench<F> {
    fn name(&self) -> (n: &str)
        ensures
            n@ == self.name_spec(),
    {
        self.name.as_str()
    }

    /// A copy of the parameter the benchmark varies.
    fn parameter(&self) -> (p: Option<Parameter>)
        ensures
            p matches Some(q) && q.name@ == self.parameter_spec().name@
                && q.range@.start == self.parameter_spec().range@.start
                && q.range@.end == self.parameter_spec().range@.end
                && q.step == self.parameter_spec().step,
    {
        Some(self.parameter.clone())
    }

    fn set_parameter(&mut self, value: u32)
        ensures
            final(self).current_param_spec() == value,
            final(self).name_spec() == old(self).name_spec(),
            final(self).parameter_spec() == old(self).parameter_spec(),
            final(self).func_spec() == old(self).func_spec(),
    {
        self.set_param(value);
    }
}

/// Whether a benchmark called `name` runs under `filter`: every benchmark
/// runs without a filter, else those whose name contains it.
pub open spec fn selected_by(filter: Option<Seq<char>>, name: Seq<char>) -> bool {
    match filter {
        Some(f) => seq_contains(name, f),
        None => true,
    }
}

/// Whether the benchmark called `name` runs under `config`.
pub fn bench_selected(config: &BenchConfig, name: &str) -> (b: bool)
    ensures
        b == selected_by(
            match config.filter {
                Some(f) => Some(f@),
                None => None,
            },
            name@,
        ),
{
    match &config.filter {
        Some(f) => contains_str(name, f.as_str()),
        None => true,
    }
}

/// Without a filter every benchmark runs; with a filter a benchmark runs
/// exactly when the filter text occurs somewhere in its name, so a name
/// always selects itself and the empty filter selects every benchmark.
pub proof fn law_filter_selects_by_substring(filter: Seq<char>, name: Seq<char>)
    ensures
        selected_by(None, name),
        selected_by(Some(filter), name) <==> exists|i: int|
            0 <= i && i + filter.len() <= name.len() && #[trigger] name.subrange(i, i + filter.len()) == filter,
        selected_by(Some(name), name),
        selected_by(Some(Seq::empty()), name),
{
    if selected_by(Some(filter), name) {
        let i = choose|i: int| crate::text::occurs_at(name, filter, i);
        assert(name.subrange(i, i + filter.len()) == filter);
    }
    if exists|i: int| 0 <= i && i + filter.len() <= name.len() && #[trigger] name.subrange(i, i + filter.len()) == filter {
        let i = choose|i: int| 0 <= i && i + filter.len() <= name.len() && #[trigger] name.subrange(i, i + filter.len()) == filter;
        assert(crate::text::occurs_at(name, filter, i));
    }
    assert(name.subrange(0, name.len() as int) =~= name);
    assert(name.subrange(0, 0) =~= Seq::<char>::empty());
    assert(crate::text::occurs_at(name, name, 0));
    assert(crate::text::occurs_at(name, Seq::empty(), 0));
}

/// Measured runs per parameter value: the iterations shared out evenly over
/// the values, and at least one.
pub fn runs_per_value(iterations: u32, n_values: usize) -> (r: u32)
    requires
        0 < n_values <= u32::MAX,
    ensures
        r == (if (iterations as int) / (n_values as int) >= 1 { (iterations as int) / (n_values as int) } else { 1 }),
{
    let share = iterations / (n_values as u32);
    if share >= 1 {
        share
    } else {
        1
    }
}

/// Whether a timed run has gone past the limit: `elapsed_ns` is strictly
/// more than the limit of `limit_secs` seconds.
pub open spec fn over_limit(limit_secs: Option<u64>, elapsed_ns: u128) -> bool {
    match limit_secs {
        Some(s) => elapsed_ns > s * 1_000_000_000,
        None => false,
    }
}

/// Whether a benchmark without parameter measures another run, after
/// `runs_done` measured runs that took `elapsed_ns` in all: it stops at
/// the configured number of runs, and after any run that ends past the
/// time limit.
pub fn continue_measuring(config: &BenchConfig, runs_done: u32, elapsed_ns: u128) -> (b: bool)
    ensures
        b == (runs_done < config.iterations && (runs_done == 0 || !over_limit(config.duration, elapsed_ns))),
{
    if runs_done >= config.iterations {
        return false;
    }
    if runs_done == 0 {
        return true;
    }
    match config.duration {
        Some(s) => {
            let limit: u128 = (s as u128) * 1_000_000_000u128;
            !(elapsed_ns > limit)
        },
        None => true,
    }
}

/// One step of driving a parametric benchmark.
#[derive(Debug, Clone, Copy, PartialEq, Eq, Structural)]
pub enum BenchStep {
    /// Set the parameter to this value.
    SetParameter(u32),
    /// Run the workload once, untimed, after a new value is set.
    Prime,
    /// Run the workload once, timed, and record it under this value.
    Measure(u32),
}

/// The steps for one parameter value: set it, prime once, then measure
/// `runs` times.
pub open spec fn value_steps(v: u32, runs: nat) -> Seq<BenchStep> {
    seq![BenchStep::SetParameter(v), BenchStep::Prime] + Seq::new(runs, |i: int| BenchStep::Measure(v))
}

/// The steps for all values, in order.
pub open spec fn param_steps(values: Seq<u32>, runs: nat) -> Seq<BenchStep>
    decreases values.len(),
{
    if values.len() == 0 {
        Seq::empty()
    } else {
        param_steps(values.drop_last(), runs) + value_steps(values.last(), runs)
    }
}

/// The order in which a parametric benchmark is driven over `values`, with
/// `runs` measured runs per value.
pub fn parametric_plan(values: &Vec<u32>, runs: u32) -> (steps: Vec<BenchStep>)
    ensures
        steps@ == param_steps(values@, runs as nat),
{
    let mut steps: Vec<BenchStep> = Vec::new();
    let mut i: usize = 0;
    while i < values.len()
        invariant
            i <= values@.len(),
            steps@ == param_steps(values@.take(i as int), runs as nat),
        decreases values.len() - i,
    {
        let v = values[i];
        let ghost before = steps@;
        steps.push(BenchStep::SetParameter(v));
        steps.push(BenchStep::Prime);
        let mut k: u32 = 0;
        while k < runs
            invariant
                k <= runs,
                steps@ == before + seq![BenchStep::SetParameter(v), BenchStep::Prime]
                    + Seq::new(k as nat, |j: int| BenchStep::Measure(v)),
            decreases runs - k,
        {
            steps.push(BenchStep::Measure(v));
            k = k + 1;
            assert(Seq::new(k as nat, |j: int| BenchStep::Measure(v)) =~= Seq::new(
                (k - 1) as nat,
                |j: int| BenchStep::Measure(v),
            ).push(BenchStep::Measure(v)));
        }
        assert(values@.take(i + 1).drop_last() =~= values@.take(i as int));
        assert(values@.take(i + 1).last() == v);
        assert(steps@ =~= param_steps(values@.take(i + 1), runs as nat));
        i = i + 1;
    }
    assert(values@.take(values@.len() as int) =~= values@);
    steps
}

/// The parameter values the measurements of a plan are recorded under, in
/// order.
pub open spec fn measured_values(steps: Seq<BenchStep>) -> Seq<u32>
    decreases steps.len(),
{
    if steps.len() == 0 {
        Seq::empty()
    } else {
        let rest = measured_values(steps.drop_last());
        match steps.last() {
            BenchStep::Measure(v) => rest.push(v),
            _ => rest,
        }
    }
}

proof fn lemma_measured_concat(a: Seq<BenchStep>, b: Seq<BenchStep>)
    ensures
        measured_values(a + b) == measured_values(a) + measured_values(b),
    decreases b.len(),
{
    if b.len() == 0 {
        assert(a + b =~= a);
        assert(measured_values(a) + measured_values(b) =~= measured_values(a));
    } else {
        lemma_measured_concat(a, b.drop_last());
        assert((a + b).drop_last() =~= a + b.drop_last());
        assert((a + b).last() == b.last());
        match b.last() {
            BenchStep::Measure(v) => {
                assert(measured_values(a) + measured_values(b) =~= (measured_values(a) + measured_values(b.drop_last())).push(v));
            },
            _ => {},
        }
    }
}

proof fn lemma_measured_block(v: u32, runs: nat)
    ensures
        measured_values(value_steps(v, runs)) == Seq::new(runs, |i: int| v),
    decreases runs,
{
    let s = value_steps(v, runs);
    if runs == 0 {
        assert(s =~= seq![BenchStep::SetParameter(v), BenchStep::Prime]);
        assert(s.drop_last() =~= seq![BenchStep::SetParameter(v)]);
        assert(s.drop_last().drop_last() =~= Seq::<BenchStep>::empty());
        assert(measured_values(s.drop_last().drop_last()) == Seq::<u32>::empty());
        assert(s.drop_last().last() == BenchStep::SetParameter(v));
        assert(measured_values(s.drop_last()) == Seq::<u32>::empty());
        assert(s.last() == BenchStep::Prime);
        assert(measured_values(s) == Seq::<u32>::empty());
        assert(measured_values(s) =~= Seq::new(runs, |i: int| v));
    } else {
        lemma_measured_block(v, (runs - 1) as nat);
        assert(s.drop_last() =~= value_steps(v, (runs - 1) as nat));
        assert(s.last() == BenchStep::Measure(v));
        assert(measured_values(s) =~= Seq::new(runs, |i: int| v));
    }
}

/// A parametric benchmark measures each parameter value exactly `runs`
/// times, value after value in the order given: the measurements are
/// recorded under `values[0]` `runs` times, then `values[1]`, and so on.
pub proof fn law_each_value_measured_runs_times(values: Seq<u32>, runs: nat)
    ensures
        measured_values(param_steps(values, runs)).len() == values.len() * runs,
        forall|k: int, j: int| 0 <= k < values.len() && 0 <= j < runs
            ==> #[trigger] measured_values(param_steps(values, runs))[k * runs + j] == values[k],
    decreases values.len(),
{
    if values.len() > 0 {
        let init = values.drop_last();
        law_each_value_measured_runs_times(init, runs);
        lemma_measured_concat(param_steps(init, runs), value_steps(values.last(), runs));
        lemma_measured_block(values.last(), runs);
        let m = measured_values(param_steps(values, runs));
        let m0 = measured_values(param_steps(init, runs));
        assert(m == m0 + Seq::new(runs, |i: int| values.last()));
        assert(values.len() * runs == init.len() * runs + runs) by (nonlinear_arith)
            requires values.len() == init.len() + 1;
        assert forall|k: int, j: int| 0 <= k < values.len() && 0 <= j < runs
            implies #[trigger] m[k * runs + j] == values[k] by {
            if k < init.len() {
                assert(k * runs + j < init.len() * runs) by (nonlinear_arith)
                    requires 0 <= k < init.len(), 0 <= j < runs;
                assert(m0[k * runs + j] == init[k]);
            } else {
                assert(k * runs == init.len() * runs) by (nonlinear_arith)
                    requires k == init.len();
            }
        }
    }
}

/// A benchmark defined by a name and a closure.
pub struct Benchmark<F> {
    name: String,
    func: F,
}

impl<F> Benchmark<F> {
    /// The name the benchmark was created with.
    pub closed spec fn name_spec(&self) -> Seq<char> {
        self.name@
    }

    /// The workload closure.
    pub closed spec fn func_spec(&self) -> F {
        self.func
    }

    /// A benchmark called `name` that runs `func`.
    pub fn new(name: &str, func: F) -> (b: Self)
        ensures
            b.name_spec() == name@,
            b.func_spec() == func,
    {
        Benchmark { name: name.to_owned(), func }
    }

    /// The workload closure.
    pub fn func(&self) -> (f: &F)
        ensures
            *f == self.func_spec(),
    {
        &self.func
    }
}

impl<F> BenchCase for Benchmark<F> {
    fn name(&self) -> (n: &str)
        ensures
            n@ == self.name_spec(),
    {
        self.name.as_str()
    }

    /// A benchmark of this kind has no parameter.
    fn parameter(&self) -> (p: Option<Parameter>)
        ensures
            p is None,
    {
        None
    }

    /// A benchmark of this kind ignores parameter values.
    fn set_parameter(&mut self, value: u32)
        ensures
            *final(self) == *old(self),
    {
    }
}

/// The configuration summary printed before a run: warm-up and measured
/// runs, the time limit in seconds ("None" without one), then the filter
/// and report file when set.
pub open spec fn config_lines(c: BenchConfig) -> Seq<Seq<char>> {
    seq![
        "  Warmup:     "@ + crate::text::decimal(c.warmup_iterations as nat) + " iterations"@,
        "  Iterations: "@ + crate::text::decimal(c.iterations as nat),
        match c.duration {
            Some(d) => "  Timeout:    "@ + crate::text::decimal(d as nat) + "s"@,
            None => "  Timeout:    None"@,
        },
    ] + match c.filter {
        Some(f) => seq!["  Filter:     "@ + f@],
        None => Seq::empty(),
    } + match c.json_output {
        Some(j) => seq!["  JSON Out:   "@ + j@],
        None => Seq::empty(),
    }
}

/// The lines of the configuration summary.
pub fn log_config(c: &BenchConfig) -> (lines: Vec<String>)
    ensures
        lines@.map_values(|l: String| l@) == config_lines(*c),
{
    let mut lines: Vec<String> = Vec::new();
    let mut w = "  Warmup:     ".to_owned();
    crate::text::push_decimal(&mut w, c.warmup_iterations as u64);
    push_str(&mut w, " iterations");
    lines.push(w);
    let mut it = "  Iterations: ".to_owned();
    crate::text::push_decimal(&mut it, c.iterations as u64);
    lines.push(it);
    match c.duration {
        Some(d) => {
            let mut t = "  Timeout:    ".to_owned();
            crate::text::push_decimal(&mut t, d);
            push_str(&mut t, "s");
            lines.push(t);
        },
        None => {
            lines.push("  Timeout:    None".to_owned());
        },
    }
    if let Some(f) = &c.filter {
        let mut l = "  Filter:     ".to_owned();
        push_str(&mut l, f.as_str());
        lines.push(l);
    }
    if let Some(j) = &c.json_output {
        let mut l = "  JSON Out:   ".to_owned();
        push_str(&mut l, j.as_str());
        lines.push(l);
    }
    assert(lines@.map_values(|l: String| l@) =~= config_lines(*c));
    lines
}

} // verus!
