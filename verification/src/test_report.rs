//! Test reports built from the machine-readable event stream of
//! `cargo test`: passed and failed tests are collected, and a new suite
//! starts whenever a suite starts after tests were recorded.
use vstd::prelude::*;
use crate::text::{decimal, push_decimal, str_eq};

verus! {

/// The outcome of a test.
#[derive(Debug, Clone, Copy, PartialEq, Eq, Structural)]
pub enum TestStatus {
    Pass,
    Fail,
    Ignored,
}

/// One test and its outcome. The duration is kept as the bits of the
/// `f64` number of seconds that the test run reported.
#[derive(Debug, Clone)]
pub struct TestCase {
    pub name: String,
    pub status: TestStatus,
    pub message: Option<String>,
    pub duration_bits: u64,
}

/// The tests of one test binary.
#[derive(Debug, Clone)]
pub struct TestSuite {
    pub name: String,
    pub tests: Vec<TestCase>,
}

/// One line of the event stream, as far as the report reads it: the
/// string fields `type`, `event`, `name` and `stdout`, and the bits of the
/// number `exec_time`.
#[derive(Debug, Clone)]
pub struct TestEvent {
    pub kind: Option<String>,
    pub event: Option<String>,
    pub name: Option<String>,
    pub exec_time_bits: Option<u64>,
    pub stdout: Option<String>,
}

/// What a recorded test says: name, status, message and duration bits.
pub open spec fn case_view(c: TestCase) -> (Seq<char>, TestStatus, Option<Seq<char>>, u64) {
    (c.name@, c.status, match c.message { Some(m) => Some(m@), None => None }, c.duration_bits)
}

/// The tests of a suite.
pub open spec fn suite_view(s: TestSuite) -> Seq<(Seq<char>, TestStatus, Option<Seq<char>>, u64)> {
    s.tests@.map_values(|c: TestCase| case_view(c))
}

/// The text of an optional field, or `d` when it is absent.
pub open spec fn field_or(f: Option<String>, d: Seq<char>) -> Seq<char> {
    match f {
        Some(s) => s@,
        None => d,
    }
}

/// The test an event records, if any: a passed test with its time (zero
/// when none is given), or a failed test with its output and no time.
pub open spec fn event_case(e: TestEvent) -> Option<(Seq<char>, TestStatus, Option<Seq<char>>, u64)> {
    if field_or(e.kind, ""@) == "test"@ && e.kind is Some {
        let ev = field_or(e.event, ""@);
        let name = field_or(e.name, "unknown"@);
        if ev == "ok"@ {
            Some((name, TestStatus::Pass, None, match e.exec_time_bits { Some(b) => b, None => 0 }))
        } else if ev == "failed"@ {
            Some((name, TestStatus::Fail, match e.stdout { Some(s) => Some(s@), None => None }, 0))
        } else {
            None
        }
    } else {
        None
    }
}

/// Whether an event starts a new suite.
pub open spec fn event_starts_suite(e: TestEvent) -> bool {
    e.kind is Some && field_or(e.kind, ""@) == "suite"@ && field_or(e.event, ""@) == "started"@
}

/// The finished suites and the tests of the open suite after `events`.
pub open spec fn fold_events(events: Seq<TestEvent>) -> (
    Seq<Seq<(Seq<char>, TestStatus, Option<Seq<char>>, u64)>>,
    Seq<(Seq<char>, TestStatus, Option<Seq<char>>, u64)>,
)
    decreases events.len(),
{
    if events.len() == 0 {
        (Seq::empty(), Seq::empty())
    } else {
        let (done, open) = fold_events(events.drop_last());
        let e = events.last();
        match event_case(e) {
            Some(c) => (done, open.push(c)),
            None => if event_starts_suite(e) && open.len() > 0 {
                (done.push(open), Seq::empty())
            } else {
                (done, open)
            },
        }
    }
}

/// The suites of a whole stream: the finished ones, then the open one
/// unless it is empty.
pub open spec fn report_suites(events: Seq<TestEvent>) -> Seq<Seq<(Seq<char>, TestStatus, Option<Seq<char>>, u64)>> {
    let (done, open) = fold_events(events);
    if open.len() > 0 { done.push(open) } else { done }
}

/// The suites collected so far and the one being filled.
pub struct TestReportState {
    suites: Vec<TestSuite>,
    current: TestSuite,
}

fn field_text(f: &Option<String>, d: &str) -> (s: String)
    ensures
        s@ == field_or(*f, d@),
{
    match f {
        Some(x) => x.clone(),
        None => d.to_owned(),
    }
}

impl TestReportState {
    /// Suites are not named: every suite's name is empty.
    pub closed spec fn unnamed_suites(&self) -> bool {
        &&& self.current.name@ == Seq::<char>::empty()
        &&& forall|i: int| 0 <= i < self.suites@.len() ==> (#[trigger] self.suites@[i]).name@ == Seq::<char>::empty()
    }

    /// The finished suites and the tests of the open one.
    pub closed spec fn view_pair(&self) -> (
        Seq<Seq<(Seq<char>, TestStatus, Option<Seq<char>>, u64)>>,
        Seq<(Seq<char>, TestStatus, Option<Seq<char>>, u64)>,
    ) {
        (self.suites@.map_values(|s: TestSuite| suite_view(s)), suite_view(self.current))
    }

    /// A report before any event.
    pub fn new() -> (s: Self)
        ensures
            s.view_pair() == fold_events(Seq::empty()),
            s.unnamed_suites(),
    {
        let s = TestReportState { suites: Vec::new(), current: TestSuite { name: String::new(), tests: Vec::new() } };
        assert(s.view_pair().0 =~= Seq::<Seq<(Seq<char>, TestStatus, Option<Seq<char>>, u64)>>::empty());
        assert(s.view_pair().1 =~= Seq::<(Seq<char>, TestStatus, Option<Seq<char>>, u64)>::empty());
        s
    }

    /// Takes in one event of the stream.
    pub fn apply(&mut self, e: &TestEvent)
        requires
            old(self).unnamed_suites(),
        ensures
            final(self).unnamed_suites(),
            final(self).view_pair() == (match event_case(*e) {
                Some(c) => (old(self).view_pair().0, old(self).view_pair().1.push(c)),
                None => if event_starts_suite(*e) && old(self).view_pair().1.len() > 0 {
                    (old(self).view_pair().0.push(old(self).view_pair().1), Seq::empty())
                } else {
                    old(self).view_pair()
                },
            }),
    {
        let kind = field_text(&e.kind, "");
        let ev = field_text(&e.event, "");
        proof {
            reveal_strlit("");
            reveal_strlit("test");
            reveal_strlit("suite");
        }
        let is_kind = e.kind.is_some();
        if is_kind && str_eq(kind.as_str(), "test") {
            let name = field_text(&e.name, "unknown");
            if str_eq(ev.as_str(), "ok") {
                let bits = match e.exec_time_bits {
                    Some(b) => b,
                    None => 0,
                };
                let c = TestCase { name, status: TestStatus::Pass, message: None, duration_bits: bits };
                assert(event_case(*e) == Some(case_view(c)));
                let ghost before = self.current.tests@;
                self.current.tests.push(c);
                assert(suite_view(self.current) =~= before.map_values(|c: TestCase| case_view(c)).push(case_view(c)));
                assert(self.view_pair().0 == old(self).view_pair().0);
            } else if str_eq(ev.as_str(), "failed") {
                let message = match &e.stdout {
                    Some(s) => Some(s.clone()),
                    None => None,
                };
                let c = TestCase { name, status: TestStatus::Fail, message, duration_bits: 0 };
                assert(event_case(*e) == Some(case_view(c)));
                let ghost before = self.current.tests@;
                self.current.tests.push(c);
                assert(suite_view(self.current) =~= before.map_values(|c: TestCase| case_view(c)).push(case_view(c)));
                assert(self.view_pair().0 == old(self).view_pair().0);
            } else {
                assert("test"@.len() != "suite"@.len());
            }
        } else if is_kind && str_eq(kind.as_str(), "suite") && str_eq(ev.as_str(), "started")
            && self.current.tests.len() > 0 {
            let mut finished = TestSuite { name: String::new(), tests: Vec::new() };
            core::mem::swap(&mut finished, &mut self.current);
            let ghost before = self.suites@;
            self.suites.push(finished);
            assert(self.suites@.map_values(|s: TestSuite| suite_view(s)) =~= before.map_values(
                |s: TestSuite| suite_view(s),
            ).push(suite_view(finished)));
            assert(suite_view(self.current) =~= Seq::<(Seq<char>, TestStatus, Option<Seq<char>>, u64)>::empty());
        }
    }

    /// The suites of the whole stream: the open suite is kept unless empty.
    pub fn finish(self) -> (suites: Vec<TestSuite>)
        requires
            self.unnamed_suites(),
        ensures
            suites@.map_values(|s: TestSuite| suite_view(s)) == (if self.view_pair().1.len() > 0 {
                self.view_pair().0.push(self.view_pair().1)
            } else {
                self.view_pair().0
            }),
        forall|i: int| 0 <= i < suites@.len() ==> (#[trigger] suites@[i]).name@ == Seq::<char>::empty(),
    {
        let TestReportState { mut suites, current } = self;
        let ghost before = suites@;
        if current.tests.len() > 0 {
            suites.push(current);
            assert(suites@.map_values(|s: TestSuite| suite_view(s)) =~= before.map_values(
                |s: TestSuite| suite_view(s),
            ).push(suite_view(current)));
        }
        suites
    }
}

/// The suites a whole event stream reports.
pub fn collect_test_suites(events: &Vec<TestEvent>) -> (suites: Vec<TestSuite>)
    ensures
        suites@.map_values(|s: TestSuite| suite_view(s)) == report_suites(events@),
        forall|i: int| 0 <= i < suites@.len() ==> (#[trigger] suites@[i]).name@ == Seq::<char>::empty(),
{
    let mut st = TestReportState::new();
    let mut i: usize = 0;
    while i < events.len()
        invariant
            i <= events@.len(),
            st.view_pair() == fold_events(events@.take(i as int)),
            st.unnamed_suites(),
        decreases events.len() - i,
    {
        st.apply(&events[i]);
        assert(events@.take(i + 1).drop_last() =~= events@.take(i as int));
        assert(events@.take(i + 1).last() == events@[i as int]);
        i = i + 1;
    }
    assert(events@.take(events@.len() as int) =~= events@);
    st.finish()
}

/// How many tests of `tests` failed.
pub open spec fn failures(tests: Seq<TestCase>) -> nat
    decreases tests.len(),
{
    if tests.len() == 0 {
        0
    } else {
        failures(tests.drop_last()) + if tests.last().status == TestStatus::Fail { 1nat } else { 0nat }
    }
}

/// The count of failures is the number of tests whose status is `Fail`:
/// appending a failed test raises it by one, appending any other test
/// leaves it as it is, and a suite with no failed test counts none.
pub proof fn law_failures_count_failed_tests(tests: Seq<TestCase>, c: TestCase)
    ensures
        failures(tests) == tests.filter(|t: TestCase| t.status == TestStatus::Fail).len(),
        failures(tests.push(c)) == failures(tests) + (if c.status == TestStatus::Fail { 1int } else { 0int }),
        (forall|i: int| 0 <= i < tests.len() ==> (#[trigger] tests[i]).status != TestStatus::Fail) ==> failures(tests) == 0,
        failures(tests) <= tests.len(),
    decreases tests.len(),
{
    let pred = |t: TestCase| t.status == TestStatus::Fail;
    assert(tests.push(c).drop_last() =~= tests);
    if tests.len() > 0 {
        let rest = tests.drop_last();
        law_failures_count_failed_tests(rest, tests.last());
        assert(rest.push(tests.last()) =~= tests);
        rest.lemma_filter_len_push(pred, tests.last());
        if forall|i: int| 0 <= i < tests.len() ==> (#[trigger] tests[i]).status != TestStatus::Fail {
            assert forall|i: int| 0 <= i < rest.len() implies (#[trigger] rest[i]).status != TestStatus::Fail by {
                assert(rest[i] == tests[i]);
            }
            assert(tests[tests.len() - 1].status != TestStatus::Fail);
        }
    } else {
        assert(tests.filter(pred) =~= Seq::<TestCase>::empty()) by {
            reveal(Seq::filter);
        }
    }
}

/// The attributes of the JUnit element for the suite at `index`: its name
/// `suite-<index>`, its number of tests and of failures.
pub fn junit_suite_attrs(index: usize, suite: &TestSuite) -> (attrs: (String, String, String))
    ensures
        attrs.0@ == "suite-"@ + decimal(index as nat),
        attrs.1@ == decimal(suite.tests@.len()),
        attrs.2@ == decimal(failures(suite.tests@)),
{
    let mut name = "suite-".to_owned();
    push_decimal(&mut name, index as u64);
    let mut tests = String::new();
    push_decimal(&mut tests, suite.tests.len() as u64);
    let mut count: usize = 0;
    let mut i: usize = 0;
    while i < suite.tests.len()
        invariant
            i <= suite.tests@.len(),
            count == failures(suite.tests@.take(i as int)),
            count <= i,
        decreases suite.tests.len() - i,
    {
        assert(suite.tests@.take(i + 1).drop_last() =~= suite.tests@.take(i as int));
        if let TestStatus::Fail = suite.tests[i].status {
            count = count + 1;
        }
        i = i + 1;
    }
    assert(suite.tests@.take(suite.tests@.len() as int) =~= suite.tests@);
    let mut failed = String::new();
    push_decimal(&mut failed, count as u64);
    proof {
        assert(Seq::<char>::empty() + decimal(suite.tests@.len()) == decimal(suite.tests@.len()));
        assert(Seq::<char>::empty() + decimal(count as nat) == decimal(count as nat));
    }
    (name, tests, failed)
}

/// Every suite a report lists holds at least one test, and the reported
/// tests are exactly the passed and failed test events, in stream order.
pub proof fn law_report_lists_each_test_once(events: Seq<TestEvent>)
    ensures
        forall|k: int| 0 <= k < report_suites(events).len() ==> #[trigger] report_suites(events)[k].len() > 0,
        flatten_cases(report_suites(events)) == event_cases(events),
{
    lemma_fold_events(events);
    let (done, open) = fold_events(events);
    if open.len() > 0 {
        lemma_flatten_push(done, open);
    }
}

/// The recorded tests of a list of suites, in order.
pub open spec fn flatten_cases(
    suites: Seq<Seq<(Seq<char>, TestStatus, Option<Seq<char>>, u64)>>,
) -> Seq<(Seq<char>, TestStatus, Option<Seq<char>>, u64)>
    decreases suites.len(),
{
    if suites.len() == 0 {
        Seq::empty()
    } else {
        flatten_cases(suites.drop_last()) + suites.last()
    }
}

/// The tests that the events of a stream record, in order.
pub open spec fn event_cases(events: Seq<TestEvent>) -> Seq<(Seq<char>, TestStatus, Option<Seq<char>>, u64)>
    decreases events.len(),
{
    if events.len() == 0 {
        Seq::empty()
    } else {
        match event_case(events.last()) {
            Some(c) => event_cases(events.drop_last()).push(c),
            None => event_cases(events.drop_last()),
        }
    }
}

proof fn lemma_flatten_push(
    suites: Seq<Seq<(Seq<char>, TestStatus, Option<Seq<char>>, u64)>>,
    s: Seq<(Seq<char>, TestStatus, Option<Seq<char>>, u64)>,
)
    ensures
        flatten_cases(suites.push(s)) == flatten_cases(suites) + s,
{
    assert(suites.push(s).drop_last() =~= suites);
}

proof fn lemma_fold_events(events: Seq<TestEvent>)
    ensures
        forall|k: int| 0 <= k < fold_events(events).0.len() ==> #[trigger] fold_events(events).0[k].len() > 0,
        flatten_cases(fold_events(events).0) + fold_events(events).1 == event_cases(events),
    decreases events.len(),
{
    if events.len() == 0 {
        assert(flatten_cases(Seq::empty()) + Seq::empty() =~= Seq::<(Seq<char>, TestStatus, Option<Seq<char>>, u64)>::empty());
    } else {
        let init = events.drop_last();
        lemma_fold_events(init);
        let (done, open) = fold_events(init);
        let e = events.last();
        match event_case(e) {
            Some(c) => {
                assert(flatten_cases(done) + open.push(c) =~= (flatten_cases(done) + open).push(c));
            },
            None => {
                if event_starts_suite(e) && open.len() > 0 {
                    lemma_flatten_push(done, open);
                    assert(flatten_cases(done.push(open)) + Seq::empty() =~= flatten_cases(done) + open);
                }
            },
        }
    }
}

} // verus!
